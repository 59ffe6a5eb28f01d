use tigertail::hid::{pack_report, report_descriptor, DESCRIPTOR_LEN, REPORT_LEN};
use tigertail::hid::touchpad::{
    self, Features, INPUT_MODE_TOUCHPAD, INPUT_REPORT_LEN, REPORT_ID_FUNCTION_SWITCH,
    REPORT_ID_INPUT_MODE, REPORT_ID_LATENCY, REPORT_ID_MAX_COUNT, REPORT_ID_MOUSE,
    REPORT_ID_PTPHQA, REPORT_ID_TOUCHPAD,
};
use tigertail::pen::{PenFrame, PenGeometry};
use tigertail::touch::{Contact, TouchFrame, TouchGeometry, MAX_CONTACTS};

fn geo() -> PenGeometry {
    PenGeometry {
        x_max: 20967,
        y_max: 15725,
        pressure_max: 4095,
        distance_max: 255,
        tilt_range: 6400,
    }
}

fn touch_geo() -> TouchGeometry {
    // rM2 in landscape: 1871 x 1403 units at 9 units/mm.
    TouchGeometry { x_max: 1871, y_max: 1403, resolution: 9 }
}

#[test]
fn descriptor_embeds_logical_maxima() {
    let d = report_descriptor(&geo());
    // 20967 = 0x51E7, 15725 = 0x3D6D, 4095 = 0x0FFF little-endian after 0x26.
    assert!(d.windows(3).any(|w| w == [0x26, 0xE7, 0x51]));
    assert!(d.windows(3).any(|w| w == [0x26, 0x6D, 0x3D]));
    assert!(d.windows(3).any(|w| w == [0x26, 0xFF, 0x0F]));
    // rM2 tilt range 6400 centidegrees -> ±64°.
    assert!(d.windows(2).any(|w| w == [0x25, 64]));
}

#[test]
fn pack_pen_contact() {
    let f = PenFrame {
        x: 0x1234,
        y: 0x0567,
        pressure: 1000,
        tilt_x: 4500,  // 45°
        tilt_y: -4500, // -45°
        in_range: true,
        tip: true,
        ..Default::default()
    };
    let r = pack_report(&f, &geo());
    assert_eq!(r[0], 0b0001_0001); // tip + in-range
    assert_eq!([r[1], r[2]], [0x34, 0x12]);
    assert_eq!([r[3], r[4]], [0x67, 0x05]);
    assert_eq!([r[5], r[6]], [0xE8, 0x03]);
    assert_eq!(r[7] as i8, 45);
    assert_eq!(r[8] as i8, -45);
}

#[test]
fn pack_eraser_contact_reports_invert_and_eraser_not_tip() {
    let f = PenFrame {
        in_range: true,
        tip: true,
        eraser: true,
        ..Default::default()
    };
    let r = pack_report(&f, &geo());
    assert_eq!(r[0], 0b0001_1100); // invert + eraser + in-range, no tip
}

#[test]
fn descriptor_declares_contact_count_max_and_physical_size() {
    let d = touchpad::report_descriptor(&touch_geo());
    // Contact Count Maximum feature under report id 2 with a 4-bit pair.
    assert!(d.windows(4).any(|w| w == [0x85, REPORT_ID_MAX_COUNT, 0x09, 0x55]));
    // 1871/9 = 207 mm, 1403/9 = 155 mm.
    assert!(d.windows(3).any(|w| w == [0x46, 207, 0]));
    assert!(d.windows(3).any(|w| w == [0x46, 155, 0]));
    // Five finger contacts (one Tip Switch usage each).
    assert_eq!(d.windows(2).filter(|w| *w == [0x09, 0x42]).count(), MAX_CONTACTS);
    // Certification blob of 256 bytes under report id 3.
    assert!(d.windows(3).any(|w| w == [0x96, 0x00, 0x01]));
}

#[test]
fn packs_two_fingers() {
    let mut f = TouchFrame::default();
    f.contacts[0] = Contact { id: 0, tip: true, x: 0x0102, y: 0x0304 };
    f.contacts[2] = Contact { id: 2, tip: true, x: 10, y: 20 };
    f.count = 2;
    let r = touchpad::pack_report(&f, 0xBEEF);
    assert_eq!(r.len(), INPUT_REPORT_LEN);
    assert_eq!(r[0], REPORT_ID_TOUCHPAD);
    assert_eq!(&r[1..7], &[0b11, 0, 0x02, 0x01, 0x04, 0x03]);
    assert_eq!(&r[7..13], &[0b01, 0, 0, 0, 0, 0]); // slot 1: confident, no tip
    assert_eq!(&r[13..19], &[0b11, 2, 10, 0, 20, 0]);
    assert_eq!(&r[31..33], &[0xEF, 0xBE]);
    assert_eq!(r[33], 2);
    assert_eq!(r[34], 0);
}

#[test]
fn feature_roundtrip_input_mode() {
    let mut f = Features::new();
    assert_eq!(f.get(REPORT_ID_INPUT_MODE), Some(vec![REPORT_ID_INPUT_MODE, 0]));
    f.set(REPORT_ID_INPUT_MODE, &[REPORT_ID_INPUT_MODE, INPUT_MODE_TOUCHPAD]);
    assert!(f.touchpad_mode());
    assert_eq!(f.get(REPORT_ID_MAX_COUNT), Some(vec![REPORT_ID_MAX_COUNT, 5]));
    assert_eq!(f.get(REPORT_ID_PTPHQA).unwrap().len(), 257);
    assert_eq!(f.get(REPORT_ID_MOUSE), None);
}

// ---- further cases ----

#[test]
fn pen_descriptor_is_93_bytes_for_any_geometry() {
    assert_eq!(report_descriptor(&geo()).len(), DESCRIPTOR_LEN);
    let small = PenGeometry { x_max: 0, y_max: 1, pressure_max: 2, distance_max: 0, tilt_range: 0 };
    let d = report_descriptor(&small);
    assert_eq!(d.len(), 93);
    // Tilt range below one degree is raised to one degree: -1..=1.
    assert_eq!(&d[77..81], &[0x15, 0xFF, 0x25, 1]);
    // Above 90 degrees it is capped.
    let big = PenGeometry { tilt_range: 20000, ..small };
    assert_eq!(&report_descriptor(&big)[77..81], &[0x15, 256u16.wrapping_sub(90) as u8, 0x25, 90]);
}

#[test]
fn pen_descriptor_offsets_hold_maxima() {
    let d = report_descriptor(&geo());
    assert_eq!(&d[42..45], &[0x26, 0xE7, 0x51]);
    assert_eq!(&d[53..56], &[0x26, 0x6D, 0x3D]);
    assert_eq!(&d[66..69], &[0x26, 0xFF, 0x0F]);
    assert_eq!(&d[77..81], &[0x15, (-64i8) as u8, 0x25, 64]);
    assert_eq!(&d[91..93], &[0xC0, 0xC0]);
}

#[test]
fn pen_report_clamps_to_geometry() {
    let f = PenFrame {
        x: 30000,
        y: -5,
        pressure: 9999,
        tilt_x: 12345,  // 123° -> 90°
        tilt_y: -199,   // -1.99° -> -1°
        in_range: true,
        ..Default::default()
    };
    let r = pack_report(&f, &geo());
    assert_eq!(r.len(), REPORT_LEN);
    assert_eq!(u16::from_le_bytes([r[1], r[2]]), 20967);
    assert_eq!(u16::from_le_bytes([r[3], r[4]]), 0);
    assert_eq!(u16::from_le_bytes([r[5], r[6]]), 4095);
    assert_eq!(r[7] as i8, 90);
    assert_eq!(r[8] as i8, -1);
    assert_eq!(r[0], 0b0001_0000);
}

#[test]
fn pen_report_barrel_and_hover_eraser() {
    let f = PenFrame { in_range: true, eraser: true, barrel: true, ..Default::default() };
    let r = pack_report(&f, &geo());
    // barrel + invert + in range; neither tip nor erasing contact.
    assert_eq!(r[0], 0b0001_0110);
}

#[test]
fn touchpad_descriptor_length_and_small_resolution() {
    let d = touchpad::report_descriptor(&touch_geo());
    assert_eq!(d.len(), touchpad::DESCRIPTOR_LEN);
    // A resolution below 1 counts as 1; a size below 1 mm counts as 1 mm.
    let g = TouchGeometry { x_max: 0, y_max: 300, resolution: 0 };
    let d = touchpad::report_descriptor(&g);
    assert_eq!(d.len(), 563);
    assert!(d.windows(3).any(|w| w == [0x46, 1, 0]));
    assert!(d.windows(3).any(|w| w == [0x46, 0x2C, 0x01]));
}

#[test]
fn touchpad_report_negative_coordinates_become_zero() {
    let mut f = TouchFrame::default();
    f.contacts[4] = Contact { id: 4, tip: true, x: -7, y: 700 };
    f.count = 1;
    let r = touchpad::pack_report(&f, 1);
    assert_eq!(&r[25..31], &[0b11, 4, 0, 0, 0xBC, 0x02]);
    assert_eq!(&r[31..35], &[1, 0, 1, 0]);
}

#[test]
fn features_set_and_get_each_report() {
    let mut f = Features::new();
    assert_eq!(f.get(REPORT_ID_FUNCTION_SWITCH), Some(vec![REPORT_ID_FUNCTION_SWITCH, 3]));
    assert_eq!(f.get(REPORT_ID_LATENCY), Some(vec![REPORT_ID_LATENCY, 0]));
    f.set(REPORT_ID_FUNCTION_SWITCH, &[REPORT_ID_FUNCTION_SWITCH, 0xFE]);
    assert_eq!(f.get(REPORT_ID_FUNCTION_SWITCH), Some(vec![REPORT_ID_FUNCTION_SWITCH, 2]));
    f.set(REPORT_ID_LATENCY, &[REPORT_ID_LATENCY, 0x03]);
    assert_eq!(f.get(REPORT_ID_LATENCY), Some(vec![REPORT_ID_LATENCY, 1]));
    // Too short, or not writable: no change.
    f.set(REPORT_ID_INPUT_MODE, &[REPORT_ID_INPUT_MODE]);
    f.set(REPORT_ID_MAX_COUNT, &[REPORT_ID_MAX_COUNT, 9]);
    assert_eq!(f.get(REPORT_ID_INPUT_MODE), Some(vec![REPORT_ID_INPUT_MODE, 0]));
    assert_eq!(f.get(REPORT_ID_MAX_COUNT), Some(vec![REPORT_ID_MAX_COUNT, 5]));
    assert!(!f.touchpad_mode());
    f.set(REPORT_ID_INPUT_MODE, &[REPORT_ID_INPUT_MODE, 3]);
    assert!(f.touchpad_mode());
    f.set(REPORT_ID_INPUT_MODE, &[REPORT_ID_INPUT_MODE, 0]);
    assert!(!f.touchpad_mode());
    let blob = f.get(REPORT_ID_PTPHQA).unwrap();
    assert_eq!(blob[0], REPORT_ID_PTPHQA);
    assert_eq!(&blob[1..], &touchpad::CERTIFICATION_BLOB[..]);
    assert_eq!(f.get(0), None);
    assert_eq!(f.get(REPORT_ID_TOUCHPAD), None);
}

#[test]
fn touchpad_descriptor_declares_maxima_per_finger() {
    let d = touchpad::report_descriptor(&touch_geo());
    for k in 0..MAX_CONTACTS {
        let at = 8 + 69 * k;
        assert_eq!(&d[at + 38..at + 41], &[0x26, 0x4F, 0x07]); // 1871
        assert_eq!(&d[at + 58..at + 61], &[0x26, 0x7B, 0x05]); // 1403
    }
}

#[test]
fn every_finger_selects_the_digitizer_page() {
    let d = touchpad::report_descriptor(&touch_geo());
    for k in 0..MAX_CONTACTS {
        let at = 8 + 69 * k;
        // Usage Page (Digitizers), Usage (Finger), Collection (Logical).
        assert_eq!(&d[at..at + 6], &[0x05, 0x0D, 0x09, 0x22, 0xA1, 0x02]);
        // Confidence, Tip Switch, Contact Identifier before any page change.
        assert_eq!(&d[at + 10..at + 14], &[0x09, 0x47, 0x09, 0x42]);
        assert_eq!(&d[at + 28..at + 30], &[0x09, 0x51]);
        for j in 1..17 {
            assert_ne!(d[at + 2 * j], 0x05);
        }
        // Then Generic Desktop for X and Y.
        assert_eq!(&d[at + 34..at + 36], &[0x05, 0x01]);
    }
    // Five Finger usages, each preceded by Usage Page (Digitizers).
    assert_eq!(d.windows(4).filter(|w| *w == [0x05, 0x0D, 0x09, 0x22]).count(), MAX_CONTACTS);
}

#[test]
fn touchpad_mode_follows_the_last_input_mode_write() {
    let mut f = Features::new();
    assert!(!f.touchpad_mode());
    f.set(REPORT_ID_INPUT_MODE, &[REPORT_ID_INPUT_MODE, 3]);
    f.set(REPORT_ID_LATENCY, &[REPORT_ID_LATENCY, 1]);
    f.set(REPORT_ID_INPUT_MODE, &[REPORT_ID_INPUT_MODE]);
    assert!(f.touchpad_mode());
    f.set(REPORT_ID_INPUT_MODE, &[REPORT_ID_INPUT_MODE, 0]);
    f.set(REPORT_ID_FUNCTION_SWITCH, &[REPORT_ID_FUNCTION_SWITCH, 3]);
    assert!(!f.touchpad_mode());
    f.set(REPORT_ID_INPUT_MODE, &[REPORT_ID_INPUT_MODE, 3, 9]);
    assert!(f.touchpad_mode());
}
