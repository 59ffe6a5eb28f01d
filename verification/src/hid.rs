//! HID pen digitizer: report descriptor and input-report packing.
//!
//! One application collection (Digitizers / Pen) with a single unnumbered
//! 9-byte input report:
//!
//! ```text
//! byte 0   bit0 tip switch, bit1 barrel switch, bit2 invert (eraser end),
//!          bit3 eraser (erasing contact), bit4 in range, bits 5-7 pad
//! byte 1-2 X (little endian, 0..x_max)
//! byte 3-4 Y (little endian, 0..y_max)
//! byte 5-6 tip pressure (0..pressure_max)
//! byte 7   X tilt in degrees (signed)
//! byte 8   Y tilt in degrees (signed)
//! ```
//!
//! Every field is standard HID digitizer usage, so hosts bind their in-box
//! pen drivers with no host-side software.

pub mod touchpad;

use vstd::prelude::*;

use crate::bytes::{clamp_i32, clamp_spec, hi, hi_byte, le16, lemma_le16_split, lo, lo_byte, push_all, trunc_div};
use crate::pen::{PenFrame, PenGeometry};

verus! {

pub const REPORT_LEN: usize = 9;

/// Length of the pen report descriptor, whatever the geometry.
pub const DESCRIPTOR_LEN: usize = 93;

/// Tilt range of the descriptor in degrees: device units are centidegrees,
/// limited to `1..=90`.
pub open spec fn tilt_degrees(tilt_range: i32) -> u8 {
    clamp_spec(trunc_div(tilt_range as int, 100), 1, 90) as u8
}

/// Descriptor bytes up to the X logical maximum: the pen collection, the
/// five button bits and their padding, and the X usage.
pub open spec fn pen_desc_head() -> Seq<u8> {
    seq![
        0x05u8, 0x0D, 0x09, 0x02, 0xA1, 0x01, 0x09, 0x20, 0xA1, 0x00,
        0x09, 0x42, 0x09, 0x44, 0x09, 0x3C, 0x09, 0x45, 0x09, 0x32,
        0x15, 0x00, 0x25, 0x01, 0x75, 0x01, 0x95, 0x05, 0x81, 0x02,
        0x75, 0x03, 0x95, 0x01, 0x81, 0x03, 0x05, 0x01, 0x09, 0x30,
        0x15, 0x00,
    ]
}

/// Between the X and Y logical maxima: X field size, Y usage.
pub open spec fn pen_desc_after_x() -> Seq<u8> {
    seq![0x75u8, 0x10, 0x95, 0x01, 0x81, 0x02, 0x09, 0x31]
}

/// Between the Y and pressure logical maxima: Y field size, tip pressure usage.
pub open spec fn pen_desc_after_y() -> Seq<u8> {
    seq![0x75u8, 0x10, 0x95, 0x01, 0x81, 0x02, 0x05, 0x0D, 0x09, 0x30]
}

/// After the pressure logical maximum: pressure field size, X tilt usage.
pub open spec fn pen_desc_after_pressure() -> Seq<u8> {
    seq![0x75u8, 0x10, 0x95, 0x01, 0x81, 0x02, 0x09, 0x3D]
}

/// The two tilt fields, `-deg..=deg` each, and the closing collections.
pub open spec fn pen_desc_tilt(deg: u8) -> Seq<u8> {
    seq![
        0x15u8, (256 - deg) as u8, 0x25, deg, 0x75, 0x08, 0x95, 0x01, 0x81, 0x02,
        0x09, 0x3E, 0x81, 0x02, 0xC0, 0xC0,
    ]
}

/// A 16-bit Logical Maximum item.
pub open spec fn logical_max16(v: u16) -> Seq<u8> {
    seq![0x26u8, lo_byte(v), hi_byte(v)]
}

/// The pen report descriptor for a geometry.
pub open spec fn pen_descriptor(geo: PenGeometry) -> Seq<u8> {
    pen_desc_head() + logical_max16(geo.x_max as u16) + pen_desc_after_x() + logical_max16(
        geo.y_max as u16,
    ) + pen_desc_after_y() + logical_max16(geo.pressure_max as u16) + pen_desc_after_pressure()
        + pen_desc_tilt(tilt_degrees(geo.tilt_range))
}

/// Byte 0 of the report: tip, barrel, invert, eraser, in range.
pub open spec fn pen_buttons(f: PenFrame) -> u8 {
    ((if f.tip && !f.eraser { 1int } else { 0 }) + (if f.barrel { 2int } else { 0 }) + (if f.eraser {
        4int
    } else {
        0
    }) + (if f.tip && f.eraser { 8int } else { 0 }) + (if f.in_range { 16int } else { 0 })) as u8
}

/// A tilt in centidegrees as the signed degree byte of the report.
pub open spec fn tilt_byte(t: i32) -> u8 {
    (clamp_spec(trunc_div(t as int, 100), -90, 90) as i8) as u8
}

/// The 9-byte input report for a frame.
pub open spec fn pen_report(f: PenFrame, geo: PenGeometry) -> Seq<u8> {
    let x = clamp_spec(f.x as int, 0, geo.x_max as int) as u16;
    let y = clamp_spec(f.y as int, 0, geo.y_max as int) as u16;
    let p = clamp_spec(f.pressure as int, 0, geo.pressure_max as int) as u16;
    seq![
        pen_buttons(f),
        lo_byte(x),
        hi_byte(x),
        lo_byte(y),
        hi_byte(y),
        lo_byte(p),
        hi_byte(p),
        tilt_byte(f.tilt_x),
        tilt_byte(f.tilt_y),
    ]
}

/// Build the report descriptor for the given (transformed) pen geometry.
pub fn report_descriptor(geo: &PenGeometry) -> (d: Vec<u8>)
    ensures
        d@ == pen_descriptor(*geo),
{
    let x_max = geo.x_max as u16;
    let y_max = geo.y_max as u16;
    let pressure_max = geo.pressure_max as u16;
    // Device tilt units are centidegrees on every supported model; HID wants
    // plain degrees.
    let tilt_deg = clamp_i32(geo.tilt_range / 100, 1, 90) as u8;

    let mut d: Vec<u8> = vec![
        0x05, 0x0D, // Usage Page (Digitizers)
        0x09, 0x02, // Usage (Pen)
        0xA1, 0x01, // Collection (Application)
        0x09, 0x20, //   Usage (Stylus)
        0xA1, 0x00, //   Collection (Physical)
        0x09, 0x42, //     Usage (Tip Switch)
        0x09, 0x44, //     Usage (Barrel Switch)
        0x09, 0x3C, //     Usage (Invert)
        0x09, 0x45, //     Usage (Eraser)
        0x09, 0x32, //     Usage (In Range)
        0x15, 0x00, //     Logical Minimum (0)
        0x25, 0x01, //     Logical Maximum (1)
        0x75, 0x01, //     Report Size (1)
        0x95, 0x05, //     Report Count (5)
        0x81, 0x02, //     Input (Data,Var,Abs)
        0x75, 0x03, //     Report Size (3)
        0x95, 0x01, //     Report Count (1)
        0x81, 0x03, //     Input (Const) - pad to a byte
        0x05, 0x01, //     Usage Page (Generic Desktop)
        0x09, 0x30, //     Usage (X)
        0x15, 0x00, //     Logical Minimum (0)
    ];
    assert(d@ == pen_desc_head());
    push_all(&mut d, &[0x26, lo(x_max), hi(x_max)]); // Logical Maximum (x_max)
    push_all(
        &mut d,
        &[
            0x75, 0x10, //     Report Size (16)
            0x95, 0x01, //     Report Count (1)
            0x81, 0x02, //     Input (Data,Var,Abs)
            0x09, 0x31, //     Usage (Y)
        ],
    );
    push_all(&mut d, &[0x26, lo(y_max), hi(y_max)]); // Logical Maximum (y_max)
    push_all(
        &mut d,
        &[
            0x75, 0x10, //     Report Size (16)
            0x95, 0x01, //     Report Count (1)
            0x81, 0x02, //     Input (Data,Var,Abs)
            0x05, 0x0D, //     Usage Page (Digitizers)
            0x09, 0x30, //     Usage (Tip Pressure)
        ],
    );
    push_all(&mut d, &[0x26, lo(pressure_max), hi(pressure_max)]);
    push_all(
        &mut d,
        &[
            0x75, 0x10, //     Report Size (16)
            0x95, 0x01, //     Report Count (1)
            0x81, 0x02, //     Input (Data,Var,Abs)
            0x09, 0x3D, //     Usage (X Tilt)
        ],
    );
    let neg_deg = (256 - tilt_deg as u16) as u8;
    push_all(
        &mut d,
        &[
            0x15, neg_deg, //  Logical Minimum (-tilt_deg)
            0x25, tilt_deg, // Logical Maximum (tilt_deg)
            0x75, 0x08, //     Report Size (8)
            0x95, 0x01, //     Report Count (1)
            0x81, 0x02, //     Input (Data,Var,Abs)
            0x09, 0x3E, //     Usage (Y Tilt)
            0x81, 0x02, //     Input (Data,Var,Abs)
            0xC0, //   End Collection (Physical)
            0xC0, // End Collection (Application)
        ],
    );
    d
}

/// A tilt in centidegrees as the signed degree byte of the report.
fn tilt_to_byte(t: i32) -> (r: u8)
    ensures
        r == tilt_byte(t),
{
    let deg = clamp_i32(t / 100, -90, 90);
    (deg as i8) as u8
}

/// Pack a transformed pen frame into the 9-byte input report.
pub fn pack_report(frame: &PenFrame, geo: &PenGeometry) -> (r: [u8; REPORT_LEN])
    requires
        geo.x_max >= 0,
        geo.y_max >= 0,
        geo.pressure_max >= 0,
    ensures
        r@ == pen_report(*frame, *geo),
{
    let mut buttons: u8 = 0;
    // With the eraser end down, contact reports as "eraser", not "tip".
    if frame.tip && !frame.eraser {
        buttons = buttons + 1;
    }
    if frame.barrel {
        buttons = buttons + 2;
    }
    if frame.eraser {
        buttons = buttons + 4;  // invert: eraser end is toward the surface
    }
    if frame.tip && frame.eraser {
        buttons = buttons + 8;  // erasing contact
    }
    if frame.in_range {
        buttons = buttons + 16;
    }

    let x = clamp_i32(frame.x, 0, geo.x_max) as u16;
    let y = clamp_i32(frame.y, 0, geo.y_max) as u16;
    let pressure = clamp_i32(frame.pressure, 0, geo.pressure_max) as u16;

    [
        buttons,
        lo(x),
        hi(x),
        lo(y),
        hi(y),
        lo(pressure),
        hi(pressure),
        tilt_to_byte(frame.tilt_x),
        tilt_to_byte(frame.tilt_y),
    ]
}

/// The pen report descriptor is 93 bytes long for every geometry.
pub proof fn lemma_descriptor_len(geo: PenGeometry)
    ensures
        pen_descriptor(geo).len() == DESCRIPTOR_LEN,
{
}

/// The descriptor declares the geometry's X, Y and pressure maxima as 16-bit
/// logical maxima at fixed offsets (bytes 42, 53 and 66 hold the item tag),
/// and the tilt range as `-deg..=deg` at bytes 77..=80.
pub proof fn lemma_descriptor_declares_geometry(geo: PenGeometry)
    ensures
        ({
            let d = pen_descriptor(geo);
            &&& d[42] == 0x26 && le16(d[43], d[44]) == (geo.x_max as u16) as int
            &&& d[53] == 0x26 && le16(d[54], d[55]) == (geo.y_max as u16) as int
            &&& d[66] == 0x26 && le16(d[67], d[68]) == (geo.pressure_max as u16) as int
            &&& d[77] == 0x15 && d[79] == 0x25 && d[80] == tilt_degrees(geo.tilt_range)
            &&& 1 <= d[80] <= 90
            &&& d[78] as int == 256 - d[80]
        }),
{
    let d = pen_descriptor(geo);
    let x = geo.x_max as u16;
    let y = geo.y_max as u16;
    let p = geo.pressure_max as u16;
    let deg = tilt_degrees(geo.tilt_range);
    lemma_le16_split(x);
    lemma_le16_split(y);
    lemma_le16_split(p);
    assert(1 <= deg <= 90);
    assert(d[42] == 0x26 && d[43] == lo_byte(x) && d[44] == hi_byte(x));
    assert(d[53] == 0x26 && d[54] == lo_byte(y) && d[55] == hi_byte(y));
    assert(d[66] == 0x26 && d[67] == lo_byte(p) && d[68] == hi_byte(p));
    assert(d[77] == 0x15 && d[78] == (256 - deg) as u8 && d[79] == 0x25 && d[80] == deg);
}

/// Decoding a packed report gives back the frame's values limited to the
/// geometry: position and pressure clamped to `0..=max`, tilt in whole
/// degrees (rounded toward zero) clamped to `-90..=90`.
pub proof fn lemma_report_decodes(f: PenFrame, geo: PenGeometry)
    requires
        0 <= geo.x_max <= 0xFFFF,
        0 <= geo.y_max <= 0xFFFF,
        0 <= geo.pressure_max <= 0xFFFF,
    ensures
        ({
            let r = pen_report(f, geo);
            &&& r.len() == REPORT_LEN
            &&& le16(r[1], r[2]) == clamp_spec(f.x as int, 0, geo.x_max as int)
            &&& le16(r[3], r[4]) == clamp_spec(f.y as int, 0, geo.y_max as int)
            &&& le16(r[5], r[6]) == clamp_spec(f.pressure as int, 0, geo.pressure_max as int)
            &&& (r[7] as i8) as int == clamp_spec(trunc_div(f.tilt_x as int, 100), -90, 90)
            &&& (r[8] as i8) as int == clamp_spec(trunc_div(f.tilt_y as int, 100), -90, 90)
        }),
{
    lemma_tilt_byte_decodes(f.tilt_x);
    lemma_tilt_byte_decodes(f.tilt_y);
}

proof fn lemma_tilt_byte_decodes(t: i32)
    ensures
        (tilt_byte(t) as i8) as int == clamp_spec(trunc_div(t as int, 100), -90, 90),
{
    let c = clamp_spec(trunc_div(t as int, 100), -90, 90);
    let ci = c as i8;
    assert(ci as int == c);
    assert(((ci as u8) as i8) == ci) by (bit_vector);
}

/// The descriptor's first input field is five 1-bit fields whose usages,
/// in bit order, are Tip Switch (0x42), Barrel Switch (0x44), Invert
/// (0x3C), Eraser (0x45) and In Range (0x32); the packed report sets each of
/// those bits exactly when the frame has what the usage names: a pen-end
/// contact, the side button, the eraser tool, an eraser-end contact, the
/// pen in range.
pub proof fn lemma_button_usages_match_report(geo: PenGeometry, f: PenFrame)
    ensures
        ({
            let d = pen_descriptor(geo);
            let b = pen_report(f, geo)[0];
            &&& d[10] == 0x09 && d[11] == 0x42 && (b & 1 == 1) == (f.tip && !f.eraser)
            &&& d[12] == 0x09 && d[13] == 0x44 && (b & 2 == 2) == f.barrel
            &&& d[14] == 0x09 && d[15] == 0x3C && (b & 4 == 4) == f.eraser
            &&& d[16] == 0x09 && d[17] == 0x45 && (b & 8 == 8) == (f.tip && f.eraser)
            &&& d[18] == 0x09 && d[19] == 0x32 && (b & 16 == 16) == f.in_range
            &&& d[24] == 0x75 && d[25] == 1 && d[26] == 0x95 && d[27] == 5 && d[28] == 0x81
        }),
{
    lemma_report_buttons(f, geo);
}

/// The descriptor names the report's fields in report order: X (Generic
/// Desktop 0x30), Y (0x31), then on the Digitizers page Tip Pressure
/// (0x30), X Tilt (0x3D) and Y Tilt (0x3E); X, Y and pressure are 16-bit
/// fields and the tilts 8-bit ones, matching bytes 1-2, 3-4, 5-6, 7 and 8
/// of the report.
pub proof fn lemma_axis_usages(geo: PenGeometry)
    ensures
        ({
            let d = pen_descriptor(geo);
            &&& d[36] == 0x05 && d[37] == 0x01 && d[38] == 0x09 && d[39] == 0x30
            &&& d[45] == 0x75 && d[46] == 16
            &&& d[51] == 0x09 && d[52] == 0x31
            &&& d[56] == 0x75 && d[57] == 16
            &&& d[62] == 0x05 && d[63] == 0x0D && d[64] == 0x09 && d[65] == 0x30
            &&& d[69] == 0x75 && d[70] == 16
            &&& d[75] == 0x09 && d[76] == 0x3D
            &&& d[81] == 0x75 && d[82] == 8
            &&& d[87] == 0x09 && d[88] == 0x3E
        }),
{
}

/// The button byte sets the tip bit only for a pen-end contact and the eraser
/// bit only for an eraser-end contact, so the two never appear together; the
/// invert bit follows the eraser tool, the in-range and barrel bits follow the
/// frame, and bits 5-7 stay clear.
pub proof fn lemma_report_buttons(f: PenFrame, geo: PenGeometry)
    ensures
        ({
            let b = pen_report(f, geo)[0];
            &&& (b & 1 == 1) == (f.tip && !f.eraser)
            &&& (b & 2 == 2) == f.barrel
            &&& (b & 4 == 4) == f.eraser
            &&& (b & 8 == 8) == (f.tip && f.eraser)
            &&& (b & 16 == 16) == f.in_range
            &&& !(b & 1 == 1 && b & 8 == 8)
            &&& b < 32
        }),
{
    let b = pen_report(f, geo)[0];
    let t = f.tip;
    let e = f.eraser;
    let br = f.barrel;
    let ir = f.in_range;
    assert(b == ((if t && !e { 1int } else { 0 }) + (if br { 2int } else { 0 }) + (if e { 4int } else {
        0
    }) + (if t && e { 8int } else { 0 }) + (if ir { 16int } else { 0 })) as u8);
    assert(b == ((if t && !e { 1u8 } else { 0u8 }) | (if br { 2u8 } else { 0u8 }) | (if e {
        4u8
    } else {
        0u8
    }) | (if t && e { 8u8 } else { 0u8 }) | (if ir { 16u8 } else { 0u8 }))) by {
        lemma_disjoint_sum(t, e, br, ir);
    }
    assert({
        let v = ((if t && !e { 1u8 } else { 0u8 }) | (if br { 2u8 } else { 0u8 }) | (if e {
            4u8
        } else {
            0u8
        }) | (if t && e { 8u8 } else { 0u8 }) | (if ir { 16u8 } else { 0u8 }));
        &&& (v & 1 == 1) == (t && !e)
        &&& (v & 2 == 2) == br
        &&& (v & 4 == 4) == e
        &&& (v & 8 == 8) == (t && e)
        &&& (v & 16 == 16) == ir
        &&& !(v & 1 == 1 && v & 8 == 8)
        &&& v < 32
    }) by (bit_vector);
}

proof fn lemma_disjoint_sum(t: bool, e: bool, br: bool, ir: bool)
    ensures
        ((if t && !e { 1int } else { 0 }) + (if br { 2int } else { 0 }) + (if e { 4int } else { 0 }) + (
        if t && e { 8int } else { 0 }) + (if ir { 16int } else { 0 })) as u8 == ((if t && !e {
            1u8
        } else {
            0u8
        }) | (if br { 2u8 } else { 0u8 }) | (if e { 4u8 } else { 0u8 }) | (if t && e {
            8u8
        } else {
            0u8
        }) | (if ir { 16u8 } else { 0u8 })),
{
    assert(((if t && !e { 1u8 } else { 0u8 }) + (if br { 2u8 } else { 0u8 }) + (if e { 4u8 } else {
        0u8
    }) + (if t && e { 8u8 } else { 0u8 }) + (if ir { 16u8 } else { 0u8 })) == ((if t && !e {
        1u8
    } else {
        0u8
    }) | (if br { 2u8 } else { 0u8 }) | (if e { 4u8 } else { 0u8 }) | (if t && e {
        8u8
    } else {
        0u8
    }) | (if ir { 16u8 } else { 0u8 }))) by (bit_vector);
}

/// Every packed position and pressure lies within the logical range that the
/// report descriptor of the same geometry declares for it.
pub proof fn lemma_report_within_declared_range(f: PenFrame, geo: PenGeometry)
    requires
        0 <= geo.x_max <= 0xFFFF,
        0 <= geo.y_max <= 0xFFFF,
        0 <= geo.pressure_max <= 0xFFFF,
    ensures
        ({
            let r = pen_report(f, geo);
            let d = pen_descriptor(geo);
            &&& 0 <= le16(r[1], r[2]) <= le16(d[43], d[44])
            &&& 0 <= le16(r[3], r[4]) <= le16(d[54], d[55])
            &&& 0 <= le16(r[5], r[6]) <= le16(d[67], d[68])
        }),
{
    lemma_report_decodes(f, geo);
    lemma_descriptor_declares_geometry(geo);
}

} // verus!
