//! Windows Precision Touchpad (PTP) interface: report descriptor, input
//! report packing, and the feature reports the host negotiates.
//!
//! Layout follows Microsoft's sample PTP descriptor (touch pad TLC with a
//! parallel-mode finger array, a configuration TLC, and a legacy mouse TLC).
//! Report IDs are scoped to this interface; the pen interface has none.
//!
//! Input report (ID 1, 35 bytes):
//!
//! ```text
//! byte 0        report id (1)
//! bytes 1..31   5 x { bit0 confidence, bit1 tip switch, pad; contact id;
//!                     X lo, hi; Y lo, hi }
//! bytes 31..33  scan time, 100 us units
//! byte 33       contact count
//! byte 34       bit0 button 1 (never set: tap-to-click is host-side)
//! ```

use vstd::prelude::*;

use crate::bytes::{clamp_spec, hi, hi_byte, le16, lemma_le16_split, lo, lo_byte, push_all, trunc_div};
use crate::touch::{Contact, TouchFrame, TouchGeometry, MAX_CONTACTS};

verus! {

pub const REPORT_ID_TOUCHPAD: u8 = 1;
pub const REPORT_ID_MAX_COUNT: u8 = 2;
pub const REPORT_ID_PTPHQA: u8 = 3;
pub const REPORT_ID_INPUT_MODE: u8 = 4;
pub const REPORT_ID_FUNCTION_SWITCH: u8 = 5;
pub const REPORT_ID_LATENCY: u8 = 6;
pub const REPORT_ID_MOUSE: u8 = 7;

pub const CONTACT_LEN: usize = 6;
pub const INPUT_REPORT_LEN: usize = 1 + MAX_CONTACTS * CONTACT_LEN + 2 + 1 + 1;

/// Input Mode value the host writes to switch from mouse to touchpad reports.
pub const INPUT_MODE_TOUCHPAD: u8 = 3;

/// Length of the touchpad report descriptor, whatever the geometry.
pub const DESCRIPTOR_LEN: usize = 563;

/// Start of the touch pad collection, up to its report id.
pub open spec fn tp_head() -> Seq<u8> {
    seq![0x05u8, 0x0D, 0x09, 0x05, 0xA1, 0x01, 0x85, REPORT_ID_TOUCHPAD]
}

/// One finger collection: it selects the Digitizers page first (the X/Y
/// items of the finger before leave Generic Desktop selected), then the
/// confidence and tip bits, the contact id, and X/Y with their logical and
/// physical (millimetre) maxima.
pub open spec fn tp_finger(x_max: u16, y_max: u16, x_mm: u16, y_mm: u16) -> Seq<u8> {
    seq![
        0x05u8, 0x0D, 0x09, 0x22, 0xA1, 0x02, 0x15, 0x00, 0x25, 0x01, 0x09, 0x47, 0x09, 0x42,
        0x95, 0x02, 0x75, 0x01, 0x81, 0x02, 0x95, 0x01, 0x75, 0x06, 0x81, 0x03,
        0x25, (MAX_CONTACTS - 1) as u8, 0x09, 0x51, 0x75, 0x08, 0x81, 0x02, 0x05, 0x01, 0x15, 0x00,
        0x26, lo_byte(x_max), hi_byte(x_max), 0x75, 0x10, 0x55, 0x0F, 0x65, 0x11, 0x09, 0x30, 0x35, 0x00,
        0x46, lo_byte(x_mm), hi_byte(x_mm), 0x95, 0x01, 0x81, 0x02,
        0x26, lo_byte(y_max), hi_byte(y_max), 0x46, lo_byte(y_mm), hi_byte(y_mm), 0x09, 0x31, 0x81, 0x02,
        0xC0,
    ]
}

/// Everything after the finger collections: scan time, contact count,
/// button, the feature reports, the configuration TLC and the mouse TLC.
pub open spec fn tp_tail() -> Seq<u8> {
    seq![
        0x55u8, 0x0C, 0x66, 0x01, 0x10, 0x47, 0xFF, 0xFF, 0x00, 0x00, 0x27, 0xFF,
        0xFF, 0x00, 0x00, 0x75, 0x10, 0x95, 0x01, 0x05, 0x0D, 0x09, 0x56, 0x81,
        0x02, 0x55, 0x00, 0x65, 0x00, 0x45, 0x00, 0x09, 0x54, 0x25, 0x7F, 0x95,
        0x01, 0x75, 0x08, 0x81, 0x02, 0x05, 0x09, 0x09, 0x01, 0x25, 0x01, 0x75,
        0x01, 0x95, 0x01, 0x81, 0x02, 0x95, 0x07, 0x81, 0x03, 0x05, 0x0D, 0x85,
        0x02, 0x09, 0x55, 0x09, 0x59, 0x75, 0x04, 0x95, 0x02, 0x25, 0x0F, 0xB1,
        0x02, 0x06, 0x00, 0xFF, 0x85, 0x03, 0x09, 0xC5, 0x15, 0x00, 0x26, 0xFF,
        0x00, 0x75, 0x08, 0x96, 0x00, 0x01, 0xB1, 0x02, 0x05, 0x0D, 0x85, 0x06,
        0x09, 0x60, 0x75, 0x01, 0x95, 0x01, 0x15, 0x00, 0x25, 0x01, 0xB1, 0x02,
        0x95, 0x07, 0xB1, 0x03, 0xC0, 0x05, 0x0D, 0x09, 0x0E, 0xA1, 0x01, 0x85,
        0x04, 0x09, 0x22, 0xA1, 0x02, 0x09, 0x52, 0x15, 0x00, 0x25, 0x0A, 0x75,
        0x08, 0x95, 0x01, 0xB1, 0x02, 0xC0, 0x09, 0x22, 0xA1, 0x00, 0x85, 0x05,
        0x09, 0x57, 0x09, 0x58, 0x75, 0x01, 0x95, 0x02, 0x25, 0x01, 0xB1, 0x02,
        0x95, 0x06, 0xB1, 0x03, 0xC0, 0xC0, 0x05, 0x01, 0x09, 0x02, 0xA1, 0x01,
        0x85, 0x07, 0x09, 0x01, 0xA1, 0x00, 0x05, 0x09, 0x19, 0x01, 0x29, 0x02,
        0x25, 0x01, 0x75, 0x01, 0x95, 0x02, 0x81, 0x02, 0x95, 0x06, 0x81, 0x03,
        0x05, 0x01, 0x09, 0x30, 0x09, 0x31, 0x15, 0x81, 0x25, 0x7F, 0x75, 0x08,
        0x95, 0x02, 0x81, 0x06, 0xC0, 0xC0,
    ]
}

/// `s` repeated `n` times.
pub open spec fn repeat(s: Seq<u8>, n: nat) -> Seq<u8>
    decreases n,
{
    if n == 0 {
        Seq::empty()
    } else {
        repeat(s, (n - 1) as nat) + s
    }
}

/// Physical size in millimetres: `units / max(resolution, 1)`, at least 1.
pub open spec fn physical_mm(units: i32, resolution: i32) -> u16 {
    let res = if resolution < 1 { 1int } else { resolution as int };
    let mm = trunc_div(units as int, res);
    (if mm < 1 { 1int } else { mm }) as u16
}

/// The touchpad report descriptor for a geometry.
pub open spec fn touchpad_descriptor(geo: TouchGeometry) -> Seq<u8> {
    tp_head() + repeat(
        tp_finger(
            geo.x_max as u16,
            geo.y_max as u16,
            physical_mm(geo.x_max, geo.resolution),
            physical_mm(geo.y_max, geo.resolution),
        ),
        MAX_CONTACTS as nat,
    ) + tp_tail()
}

/// Build the report descriptor for the given (oriented) touch geometry.
pub fn report_descriptor(geo: &TouchGeometry) -> (d: Vec<u8>)
    ensures
        d@ == touchpad_descriptor(*geo),
{
    let x_max = geo.x_max as u16;
    let y_max = geo.y_max as u16;
    let res = if geo.resolution < 1 {
        1
    } else {
        geo.resolution
    };
    let x_units = geo.x_max / res;
    let y_units = geo.y_max / res;
    let x_mm = (if x_units < 1 {
        1
    } else {
        x_units
    }) as u16;
    let y_mm = (if y_units < 1 {
        1
    } else {
        y_units
    }) as u16;

    let mut d: Vec<u8> = vec![
        0x05, 0x0D, // Usage Page (Digitizers)
        0x09, 0x05, // Usage (Touch Pad)
        0xA1, 0x01, // Collection (Application)
        0x85, REPORT_ID_TOUCHPAD,
    ];
    let ghost finger = tp_finger(x_max, y_max, x_mm, y_mm);
    assert(d@ == tp_head() + repeat(finger, 0));
    let mut i: usize = 0;
    while i < MAX_CONTACTS
        invariant
            i <= MAX_CONTACTS,
            finger == tp_finger(x_max, y_max, x_mm, y_mm),
            d@ == tp_head() + repeat(finger, i as nat),
        decreases MAX_CONTACTS - i,
    {
        push_all(
            &mut d,
            &[
                0x05, 0x0D, //   Usage Page (Digitizers)
                0x09, 0x22, //   Usage (Finger)
                0xA1, 0x02, //   Collection (Logical)
                0x15, 0x00, //     Logical Minimum (0)
                0x25, 0x01, //     Logical Maximum (1)
                0x09, 0x47, //     Usage (Confidence)
                0x09, 0x42, //     Usage (Tip Switch)
                0x95, 0x02, //     Report Count (2)
                0x75, 0x01, //     Report Size (1)
                0x81, 0x02, //     Input (Data,Var,Abs)
                0x95, 0x01, //     Report Count (1)
                0x75, 0x06, //     Report Size (6)
                0x81, 0x03, //     Input (Const) - pad
                0x25, (MAX_CONTACTS - 1) as u8, // Logical Maximum
                0x09, 0x51, //     Usage (Contact Identifier)
                0x75, 0x08, //     Report Size (8)
                0x81, 0x02, //     Input (Data,Var,Abs)
                0x05, 0x01, //     Usage Page (Generic Desktop)
                0x15, 0x00, //     Logical Minimum (0)
                0x26, lo(x_max), hi(x_max), // Logical Maximum
                0x75, 0x10, //     Report Size (16)
                0x55, 0x0F, //     Unit Exponent (-1)
                0x65, 0x11, //     Unit (SI linear: cm) -> mm
                0x09, 0x30, //     Usage (X)
                0x35, 0x00, //     Physical Minimum (0)
                0x46, lo(x_mm), hi(x_mm), // Physical Maximum
                0x95, 0x01, //     Report Count (1)
                0x81, 0x02, //     Input (Data,Var,Abs)
                0x26, lo(y_max), hi(y_max), // Logical Maximum
                0x46, lo(y_mm), hi(y_mm), // Physical Maximum
                0x09, 0x31, //     Usage (Y)
                0x81, 0x02, //     Input (Data,Var,Abs)
                0xC0, //         End Collection
            ],
        );
        assert(tp_head() + repeat(finger, (i + 1) as nat) == tp_head() + repeat(finger, i as nat) + finger);
        i = i + 1;
    }
    push_all(&mut d, &[
        0x55, 0x0C, //   Unit Exponent (-4)
        0x66, 0x01, 0x10, // Unit (SI linear: seconds) -> 100 us
        0x47, 0xFF, 0xFF, 0x00, 0x00, // Physical Maximum (65535)
        0x27, 0xFF, 0xFF, 0x00, 0x00, // Logical Maximum (65535)
        0x75, 0x10, //   Report Size (16)
        0x95, 0x01, //   Report Count (1)
        0x05, 0x0D, //   Usage Page (Digitizers)
        0x09, 0x56, //   Usage (Scan Time)
        0x81, 0x02, //   Input (Data,Var,Abs)
        0x55, 0x00, //   Unit Exponent (0)
        0x65, 0x00, //   Unit (none)
        0x45, 0x00, //   Physical Maximum (0)
        0x09, 0x54, //   Usage (Contact Count)
        0x25, 0x7F, //   Logical Maximum (127)
        0x95, 0x01, //   Report Count (1)
        0x75, 0x08, //   Report Size (8)
        0x81, 0x02, //   Input (Data,Var,Abs)
        0x05, 0x09, //   Usage Page (Button)
        0x09, 0x01, //   Usage (Button 1)
        0x25, 0x01, //   Logical Maximum (1)
        0x75, 0x01, //   Report Size (1)
        0x95, 0x01, //   Report Count (1)
        0x81, 0x02, //   Input (Data,Var,Abs)
        0x95, 0x07, //   Report Count (7)
        0x81, 0x03, //   Input (Const) - pad
        0x05, 0x0D, //   Usage Page (Digitizers)
        0x85, REPORT_ID_MAX_COUNT,
        0x09, 0x55, //   Usage (Contact Count Maximum)
        0x09, 0x59, //   Usage (Pad Type)
        0x75, 0x04, //   Report Size (4)
        0x95, 0x02, //   Report Count (2)
        0x25, 0x0F, //   Logical Maximum (15)
        0xB1, 0x02, //   Feature (Data,Var,Abs)
        0x06, 0x00, 0xFF, // Usage Page (Vendor Defined)
        0x85, REPORT_ID_PTPHQA,
        0x09, 0xC5, //   Usage (Device Certification Status)
        0x15, 0x00, //   Logical Minimum (0)
        0x26, 0xFF, 0x00, // Logical Maximum (255)
        0x75, 0x08, //   Report Size (8)
        0x96, 0x00, 0x01, // Report Count (256)
        0xB1, 0x02, //   Feature (Data,Var,Abs)
        0x05, 0x0D, //   Usage Page (Digitizers)
        0x85, REPORT_ID_LATENCY,
        0x09, 0x60, //   Usage (Latency Mode)
        0x75, 0x01, //   Report Size (1)
        0x95, 0x01, //   Report Count (1)
        0x15, 0x00, //   Logical Minimum (0)
        0x25, 0x01, //   Logical Maximum (1)
        0xB1, 0x02, //   Feature (Data,Var,Abs)
        0x95, 0x07, //   Report Count (7)
        0xB1, 0x03, //   Feature (Const) - pad
        0xC0, // End Collection (Touch Pad)
        // Configuration TLC
        0x05, 0x0D, // Usage Page (Digitizers)
        0x09, 0x0E, // Usage (Configuration)
        0xA1, 0x01, // Collection (Application)
        0x85, REPORT_ID_INPUT_MODE,
        0x09, 0x22, //   Usage (Finger)
        0xA1, 0x02, //   Collection (Logical)
        0x09, 0x52, //     Usage (Input Mode)
        0x15, 0x00, //     Logical Minimum (0)
        0x25, 0x0A, //     Logical Maximum (10)
        0x75, 0x08, //     Report Size (8)
        0x95, 0x01, //     Report Count (1)
        0xB1, 0x02, //     Feature (Data,Var,Abs)
        0xC0, //         End Collection
        0x09, 0x22, //   Usage (Finger)
        0xA1, 0x00, //   Collection (Physical)
        0x85, REPORT_ID_FUNCTION_SWITCH,
        0x09, 0x57, //     Usage (Surface Switch)
        0x09, 0x58, //     Usage (Button Switch)
        0x75, 0x01, //     Report Size (1)
        0x95, 0x02, //     Report Count (2)
        0x25, 0x01, //     Logical Maximum (1)
        0xB1, 0x02, //     Feature (Data,Var,Abs)
        0x95, 0x06, //     Report Count (6)
        0xB1, 0x03, //     Feature (Const) - pad
        0xC0, //         End Collection
        0xC0, // End Collection (Configuration)
        // Mouse TLC: required by the PTP guide for hosts that never switch
        // input mode; we never send a mouse report.
        0x05, 0x01, // Usage Page (Generic Desktop)
        0x09, 0x02, // Usage (Mouse)
        0xA1, 0x01, // Collection (Application)
        0x85, REPORT_ID_MOUSE,
        0x09, 0x01, //   Usage (Pointer)
        0xA1, 0x00, //   Collection (Physical)
        0x05, 0x09, //     Usage Page (Button)
        0x19, 0x01, //     Usage Minimum (Button 1)
        0x29, 0x02, //     Usage Maximum (Button 2)
        0x25, 0x01, //     Logical Maximum (1)
        0x75, 0x01, //     Report Size (1)
        0x95, 0x02, //     Report Count (2)
        0x81, 0x02, //     Input (Data,Var,Abs)
        0x95, 0x06, //     Report Count (6)
        0x81, 0x03, //     Input (Const) - pad
        0x05, 0x01, //     Usage Page (Generic Desktop)
        0x09, 0x30, //     Usage (X)
        0x09, 0x31, //     Usage (Y)
        0x15, 0x81, //     Logical Minimum (-127)
        0x25, 0x7F, //     Logical Maximum (127)
        0x75, 0x08, //     Report Size (8)
        0x95, 0x02, //     Report Count (2)
        0x81, 0x06, //     Input (Data,Var,Rel)
        0xC0, //         End Collection
        0xC0, // End Collection (Mouse)
    ]);
    d
}

/// The six bytes of one contact: confidence (always set) and tip bits, id,
/// and X/Y (negative coordinates become 0) little endian.
pub open spec fn contact_bytes(c: Contact) -> Seq<u8> {
    let x = (if c.x < 0 { 0int } else { c.x as int }) as u16;
    let y = (if c.y < 0 { 0int } else { c.y as int }) as u16;
    seq![if c.tip { 3u8 } else { 1u8 }, c.id, lo_byte(x), hi_byte(x), lo_byte(y), hi_byte(y)]
}

/// The 35-byte input report for a frame and a scan time.
pub open spec fn touchpad_report(f: TouchFrame, scan_time_100us: u16) -> Seq<u8> {
    seq![REPORT_ID_TOUCHPAD] + contact_bytes(f.contacts@[0]) + contact_bytes(f.contacts@[1])
        + contact_bytes(f.contacts@[2]) + contact_bytes(f.contacts@[3]) + contact_bytes(
        f.contacts@[4],
    ) + seq![lo_byte(scan_time_100us), hi_byte(scan_time_100us), f.count, 0u8]
}

fn pack_contact(c: &Contact) -> (r: [u8; CONTACT_LEN])
    ensures
        r@ == contact_bytes(*c),
{
    let x = (if c.x < 0 {
        0
    } else {
        c.x
    }) as u16;
    let y = (if c.y < 0 {
        0
    } else {
        c.y
    }) as u16;
    // Confidence is always set: the tablet's own palm logic already decides
    // what reaches the host.
    let flags: u8 = if c.tip {
        3
    } else {
        1
    };
    [flags, c.id, lo(x), hi(x), lo(y), hi(y)]
}

/// Pack a touch frame into the PTP input report.
pub fn pack_report(frame: &TouchFrame, scan_time_100us: u16) -> (r: [u8; INPUT_REPORT_LEN])
    ensures
        r@ == touchpad_report(*frame, scan_time_100us),
{
    let a = pack_contact(&frame.contacts[0]);
    let b = pack_contact(&frame.contacts[1]);
    let c = pack_contact(&frame.contacts[2]);
    let d = pack_contact(&frame.contacts[3]);
    let e = pack_contact(&frame.contacts[4]);
    let r = [
        REPORT_ID_TOUCHPAD,
        a[0], a[1], a[2], a[3], a[4], a[5],
        b[0], b[1], b[2], b[3], b[4], b[5],
        c[0], c[1], c[2], c[3], c[4], c[5],
        d[0], d[1], d[2], d[3], d[4], d[5],
        e[0], e[1], e[2], e[3], e[4], e[5],
        lo(scan_time_100us),
        hi(scan_time_100us),
        frame.count,
        0, // button 1
    ];
    assert(r@ =~= touchpad_report(*frame, scan_time_100us));
    r
}


/// The PTP clock at a moment `elapsed_us` microseconds after the interface
/// started: 100 us units, free-running, wrapping at 16 bits.
pub open spec fn scan_clock(elapsed_us: u128) -> u16 {
    ((elapsed_us / 100) % 65536) as u16
}

/// The scan time for the next report, given the previous report's: the
/// clock, or one tick past the previous value when the clock still reads
/// the same. Either way it differs from the previous report's: a host
/// takes a report with an unchanged scan time for a continuation packet and
/// ignores its contact count.
pub fn scan_time_100us(prev: u16, elapsed_us: u128) -> (r: u16)
    ensures
        r == if scan_clock(elapsed_us) != prev {
            scan_clock(elapsed_us)
        } else {
            ((prev + 1) % 65536) as u16
        },
        r != prev,
{
    let clock = ((elapsed_us / 100) % 65536) as u16;
    if clock != prev {
        clock
    } else if prev == 0xFFFF {
        0
    } else {
        prev + 1
    }
}

/// The touchpad report descriptor is 563 bytes long for every geometry: an
/// 8-byte header, five 69-byte finger collections and a 210-byte tail.
pub proof fn lemma_descriptor_len(geo: TouchGeometry)
    ensures
        touchpad_descriptor(geo).len() == DESCRIPTOR_LEN,
{
    lemma_repeat_len(finger_of(geo), 5);
}

proof fn lemma_repeat_len(s: Seq<u8>, n: nat)
    ensures
        repeat(s, n).len() == n * s.len(),
    decreases n,
{
    if n > 0 {
        let m = (n - 1) as nat;
        lemma_repeat_len(s, m);
        assert(repeat(s, n) == repeat(s, m) + s);
        assert(m * s.len() + s.len() == n * s.len()) by (nonlinear_arith)
            requires
                m + 1 == n,
        ;
        assert(repeat(s, n).len() == repeat(s, m).len() + s.len());
        assert(repeat(s, m).len() == m * s.len());
    } else {
        assert(repeat(s, n).len() == 0);
    }
}

/// The finger collection of the descriptor for a geometry.
pub open spec fn finger_of(geo: TouchGeometry) -> Seq<u8> {
    tp_finger(
        geo.x_max as u16,
        geo.y_max as u16,
        physical_mm(geo.x_max, geo.resolution),
        physical_mm(geo.y_max, geo.resolution),
    )
}

/// Byte `j` of finger collection `k` sits at `8 + 69 k + j`.
proof fn lemma_descriptor_finger_byte(geo: TouchGeometry, k: int, j: int)
    requires
        0 <= k < MAX_CONTACTS,
        0 <= j < 69,
    ensures
        touchpad_descriptor(geo).len() == DESCRIPTOR_LEN,
        touchpad_descriptor(geo)[8 + 69 * k + j] == finger_of(geo)[j],
{
    let f = finger_of(geo);
    lemma_descriptor_len(geo);
    lemma_repeat_index(f, MAX_CONTACTS as nat, k, j);
    let r = repeat(f, MAX_CONTACTS as nat);
    let d = touchpad_descriptor(geo);
    assert(d == tp_head() + r + tp_tail());
    assert(d[8 + 69 * k + j] == r[69 * k + j]);
}

/// The logical X and Y maxima that finger collection `k` of the descriptor
/// declares sit at bytes `8 + 69 k + 39..=40` and `8 + 69 k + 59..=60`.
proof fn lemma_descriptor_finger_maxima(geo: TouchGeometry, k: int)
    requires
        0 <= k < MAX_CONTACTS,
    ensures
        ({
            let d = touchpad_descriptor(geo);
            let at = 8 + 69 * k;
            &&& d.len() == DESCRIPTOR_LEN
            &&& d[at + 38] == 0x26 && d[at + 58] == 0x26
            &&& le16(d[at + 39], d[at + 40]) == (geo.x_max as u16) as int
            &&& le16(d[at + 59], d[at + 60]) == (geo.y_max as u16) as int
        }),
{
    lemma_descriptor_finger_byte(geo, k, 38);
    lemma_descriptor_finger_byte(geo, k, 39);
    lemma_descriptor_finger_byte(geo, k, 40);
    lemma_descriptor_finger_byte(geo, k, 58);
    lemma_descriptor_finger_byte(geo, k, 59);
    lemma_descriptor_finger_byte(geo, k, 60);
    lemma_le16_split(geo.x_max as u16);
    lemma_le16_split(geo.y_max as u16);
}

/// Finger collection `k` declares X (usage 0x30) with the logical maximum
/// `x_max` and the physical maximum `x_max / resolution` millimetres, and Y
/// (usage 0x31) with `y_max` and `y_max / resolution` (a resolution below 1
/// counts as 1, a size below 1 mm as 1 mm), each 16 bits little endian.
pub proof fn lemma_finger_axes(geo: TouchGeometry, k: int)
    requires
        0 <= k < MAX_CONTACTS,
    ensures
        ({
            let d = touchpad_descriptor(geo);
            let at = 8 + 69 * k;
            let res = if geo.resolution < 1 { 1int } else { geo.resolution as int };
            let xq = geo.x_max as int / res;
            let yq = geo.y_max as int / res;
            &&& d[at + 47] == 0x09 && d[at + 48] == 0x30
            &&& d[at + 38] == 0x26 && d[at + 39] as int + 256 * d[at + 40] as int == (geo.x_max as u16) as int
            &&& d[at + 51] == 0x46 && d[at + 52] as int + 256 * d[at + 53] as int == ((if xq < 1 {
                1
            } else {
                xq
            }) as u16) as int
            &&& d[at + 64] == 0x09 && d[at + 65] == 0x31
            &&& d[at + 58] == 0x26 && d[at + 59] as int + 256 * d[at + 60] as int == (geo.y_max as u16) as int
            &&& d[at + 61] == 0x46 && d[at + 62] as int + 256 * d[at + 63] as int == ((if yq < 1 {
                1
            } else {
                yq
            }) as u16) as int
        }),
{
    let res = if geo.resolution < 1 { 1int } else { geo.resolution as int };
    lemma_physical_mm(geo.x_max, geo.resolution);
    lemma_physical_mm(geo.y_max, geo.resolution);
    lemma_descriptor_finger_byte(geo, k, 38);
    lemma_descriptor_finger_byte(geo, k, 39);
    lemma_descriptor_finger_byte(geo, k, 40);
    lemma_descriptor_finger_byte(geo, k, 47);
    lemma_descriptor_finger_byte(geo, k, 48);
    lemma_descriptor_finger_byte(geo, k, 51);
    lemma_descriptor_finger_byte(geo, k, 52);
    lemma_descriptor_finger_byte(geo, k, 53);
    lemma_descriptor_finger_byte(geo, k, 58);
    lemma_descriptor_finger_byte(geo, k, 59);
    lemma_descriptor_finger_byte(geo, k, 60);
    lemma_descriptor_finger_byte(geo, k, 61);
    lemma_descriptor_finger_byte(geo, k, 62);
    lemma_descriptor_finger_byte(geo, k, 63);
    lemma_descriptor_finger_byte(geo, k, 64);
    lemma_descriptor_finger_byte(geo, k, 65);
    lemma_le16_split(geo.x_max as u16);
    lemma_le16_split(geo.y_max as u16);
    lemma_le16_split(physical_mm(geo.x_max, geo.resolution));
    lemma_le16_split(physical_mm(geo.y_max, geo.resolution));
}

/// The physical size in whole millimetres, at least 1: rounding toward zero
/// and flooring agree wherever the size is at least 1 mm.
proof fn lemma_physical_mm(units: i32, resolution: i32)
    ensures
        ({
            let res = if resolution < 1 { 1int } else { resolution as int };
            let q = units as int / res;
            physical_mm(units, resolution) == (if q < 1 { 1 } else { q }) as u16
        }),
{
    let res = if resolution < 1 { 1int } else { resolution as int };
    let u = units as int;
    if u < 0 {
        assert(u / res < 1) by (nonlinear_arith)
            requires
                u < 0,
                res >= 1,
        ;
        assert(trunc_div(u, res) <= 0) by (nonlinear_arith)
            requires
                u < 0,
                res >= 1,
                trunc_div(u, res) == -((-u) / res),
        ;
    }
}

/// After the five finger collections the touch pad collection declares,
/// in report order, Scan Time (Digitizers 0x56, 16 bits), Contact Count
/// (0x54, 8 bits) and Button 1 (Button page, 1 bit), matching bytes 31-32,
/// 33 and 34 of the input report.
pub proof fn lemma_report_tail_usages(geo: TouchGeometry)
    ensures
        ({
            let d = touchpad_descriptor(geo);
            let at = 8 + 69 * MAX_CONTACTS;
            &&& d[at + 15] == 0x75 && d[at + 16] == 16
            &&& d[at + 19] == 0x05 && d[at + 20] == 0x0D && d[at + 21] == 0x09 && d[at + 22] == 0x56
            &&& d[at + 31] == 0x09 && d[at + 32] == 0x54
            &&& d[at + 37] == 0x75 && d[at + 38] == 8
            &&& d[at + 41] == 0x05 && d[at + 42] == 0x09 && d[at + 43] == 0x09 && d[at + 44] == 0x01
            &&& d[at + 47] == 0x75 && d[at + 48] == 1
        }),
{
    let f = finger_of(geo);
    lemma_repeat_len(f, MAX_CONTACTS as nat);
    let r = repeat(f, MAX_CONTACTS as nat);
    let d = touchpad_descriptor(geo);
    assert(d == tp_head() + r + tp_tail());
    let at = 8 + 69 * MAX_CONTACTS;
    assert forall|j: int| 0 <= j < tp_tail().len() implies d[at + j] == #[trigger] tp_tail()[j] by {}
    assert(d[at + 15] == tp_tail()[15] && d[at + 16] == tp_tail()[16]);
    assert(d[at + 19] == tp_tail()[19] && d[at + 20] == tp_tail()[20]);
    assert(d[at + 21] == tp_tail()[21] && d[at + 22] == tp_tail()[22]);
    assert(d[at + 31] == tp_tail()[31] && d[at + 32] == tp_tail()[32]);
    assert(d[at + 37] == tp_tail()[37] && d[at + 38] == tp_tail()[38]);
    assert(d[at + 41] == tp_tail()[41] && d[at + 42] == tp_tail()[42]);
    assert(d[at + 43] == tp_tail()[43] && d[at + 44] == tp_tail()[44]);
    assert(d[at + 47] == tp_tail()[47] && d[at + 48] == tp_tail()[48]);
}

/// Every finger collection `k` of the descriptor starts by selecting the
/// Digitizers page (`0x05 0x0D`), and its Finger, Confidence, Tip Switch and
/// Contact Identifier usages (`0x22`, `0x47`, `0x42`, `0x51`) all come
/// before the next Usage Page item, which selects Generic Desktop (`0x05
/// 0x01`) for X and Y: its first 17 items are two bytes each, and none of
/// them after the first is a Usage Page item.
pub proof fn lemma_fingers_on_digitizer_page(geo: TouchGeometry, k: int)
    requires
        0 <= k < MAX_CONTACTS,
    ensures
        ({
            let d = touchpad_descriptor(geo);
            let at = 8 + 69 * k;
            &&& d.len() == DESCRIPTOR_LEN
            &&& d[at] == 0x05 && d[at + 1] == 0x0D
            &&& d[at + 2] == 0x09 && d[at + 3] == 0x22
            &&& d[at + 10] == 0x09 && d[at + 11] == 0x47
            &&& d[at + 12] == 0x09 && d[at + 13] == 0x42
            &&& d[at + 28] == 0x09 && d[at + 29] == 0x51
            &&& forall|j: int| 1 <= j < 17 ==> #[trigger] d[at + 2 * j] != 0x05
            &&& d[at + 34] == 0x05 && d[at + 35] == 0x01
        }),
{
    let d = touchpad_descriptor(geo);
    let at = 8 + 69 * k;
    let f = finger_of(geo);
    lemma_descriptor_finger_byte(geo, k, 0);
    lemma_descriptor_finger_byte(geo, k, 1);
    lemma_descriptor_finger_byte(geo, k, 2);
    lemma_descriptor_finger_byte(geo, k, 3);
    lemma_descriptor_finger_byte(geo, k, 10);
    lemma_descriptor_finger_byte(geo, k, 11);
    lemma_descriptor_finger_byte(geo, k, 12);
    lemma_descriptor_finger_byte(geo, k, 13);
    lemma_descriptor_finger_byte(geo, k, 28);
    lemma_descriptor_finger_byte(geo, k, 29);
    lemma_descriptor_finger_byte(geo, k, 34);
    lemma_descriptor_finger_byte(geo, k, 35);
    assert forall|j: int| 1 <= j < 17 implies #[trigger] d[at + 2 * j] != 0x05 by {
        lemma_descriptor_finger_byte(geo, k, 2 * j);
        assert(f[2 * j] != 0x05);
    }
}

/// Element `j` of the `k`-th copy in a repetition.
proof fn lemma_repeat_index(s: Seq<u8>, n: nat, k: int, j: int)
    requires
        0 <= k < n,
        0 <= j < s.len(),
    ensures
        repeat(s, n).len() == n * s.len(),
        repeat(s, n)[k * s.len() + j] == s[j],
    decreases n,
{
    lemma_repeat_len(s, n);
    let m = (n - 1) as nat;
    lemma_repeat_len(s, m);
    assert(repeat(s, n) == repeat(s, m) + s);
    if k < m {
        lemma_repeat_index(s, m, k, j);
        assert(k * s.len() + j < m * s.len()) by (nonlinear_arith)
            requires
                k < m,
                j < s.len(),
        ;
    } else {
        assert(k * s.len() == m * s.len());
    }
}

/// Every contact the touch loop reports lies within the logical range that
/// the descriptor of the same geometry declares for each finger collection.
pub proof fn lemma_contacts_within_declared_range(id: u8, p: (i32, i32), geo: TouchGeometry, k: int)
    requires
        0 <= geo.x_max <= 0xFFFF,
        0 <= geo.y_max <= 0xFFFF,
        0 <= k < MAX_CONTACTS,
    ensures
        ({
            let c = contact_bytes(crate::touch::contact_for(id, p, geo));
            let d = touchpad_descriptor(geo);
            let at = 8 + 69 * k;
            &&& le16(c[2], c[3]) <= le16(d[at + 39], d[at + 40])
            &&& le16(c[4], c[5]) <= le16(d[at + 59], d[at + 60])
        }),
{
    lemma_descriptor_finger_maxima(geo, k);
    let ct = crate::touch::contact_for(id, p, geo);
    lemma_le16_split((if ct.x < 0 { 0int } else { ct.x as int }) as u16);
    lemma_le16_split((if ct.y < 0 { 0int } else { ct.y as int }) as u16);
}

/// Decoding a packed report: byte 0 is the touch pad report id; contact `i`
/// occupies bytes `1 + 6 i ..`, with bit 0 (confidence) always set, bit 1 the
/// tip, then its id and its X and Y (negative values as 0); then the scan
/// time, the contact count and a clear button byte.
pub proof fn lemma_report_decodes(f: TouchFrame, scan_time_100us: u16)
    ensures
        ({
            let r = touchpad_report(f, scan_time_100us);
            &&& r.len() == INPUT_REPORT_LEN
            &&& r[0] == REPORT_ID_TOUCHPAD
            &&& forall|i: int|
                0 <= i < MAX_CONTACTS ==> {
                    let c = #[trigger] f.contacts@[i];
                    let at = 1 + 6 * i;
                    &&& r[at] & 1 == 1
                    &&& (r[at] & 2 == 2) == c.tip
                    &&& r[at] < 4
                    &&& r[at + 1] == c.id
                    &&& le16(r[at + 2], r[at + 3]) == (if c.x < 0 { 0int } else { c.x as int }) as u16
                    &&& le16(r[at + 4], r[at + 5]) == (if c.y < 0 { 0int } else { c.y as int }) as u16
                }
            &&& le16(r[31], r[32]) == scan_time_100us
            &&& r[33] == f.count
            &&& r[34] == 0
        }),
{
    let r = touchpad_report(f, scan_time_100us);
    lemma_le16_split(scan_time_100us);
    assert forall|i: int| 0 <= i < MAX_CONTACTS implies {
        let c = #[trigger] f.contacts@[i];
        let at = 1 + 6 * i;
        &&& r[at] & 1 == 1
        &&& (r[at] & 2 == 2) == c.tip
        &&& r[at] < 4
        &&& r[at + 1] == c.id
        &&& le16(r[at + 2], r[at + 3]) == (if c.x < 0 { 0int } else { c.x as int }) as u16
        &&& le16(r[at + 4], r[at + 5]) == (if c.y < 0 { 0int } else { c.y as int }) as u16
    } by {
        let c = f.contacts@[i];
        let at = 1 + 6 * i;
        let cb = contact_bytes(c);
        assert(r[at] == cb[0] && r[at + 1] == cb[1] && r[at + 2] == cb[2] && r[at + 3] == cb[3]
            && r[at + 4] == cb[4] && r[at + 5] == cb[5]);
        lemma_le16_split((if c.x < 0 { 0int } else { c.x as int }) as u16);
        lemma_le16_split((if c.y < 0 { 0int } else { c.y as int }) as u16);
        let fl = cb[0];
        assert(fl == 3 || fl == 1);
        assert((fl == 3 || fl == 1) ==> (fl & 1 == 1 && ((fl & 2 == 2) == (fl == 3)) && fl < 4)) by (bit_vector);
    }
}


/// The feature values the host can write and read back.
#[derive(Debug, Clone, Copy)]
pub struct FeatureState {
    pub input_mode: u8,
    pub surface_switch: bool,
    pub button_switch: bool,
    pub latency_high: bool,
}

/// Feature reports for the PTP interface. Values written by the host are
/// stored so a later GET_REPORT reads them back, as the PTP guide requires.
pub struct Features {
    state: FeatureState,
}

impl View for Features {
    type V = FeatureState;

    closed spec fn view(&self) -> FeatureState {
        self.state
    }
}

/// The power-on feature values: mouse input mode, both switches on, normal
/// latency.
pub open spec fn initial_features() -> FeatureState {
    FeatureState { input_mode: 0, surface_switch: true, button_switch: true, latency_high: false }
}

/// The function-switch feature byte: bit 0 surface switch, bit 1 button switch.
pub open spec fn switch_byte(s: FeatureState) -> u8 {
    ((if s.surface_switch { 1int } else { 0 }) + (if s.button_switch { 2int } else { 0 })) as u8
}

/// What GET_REPORT answers for a feature report id, starting with the id.
pub open spec fn feature_get(s: FeatureState, report_id: u8) -> Option<Seq<u8>> {
    if report_id == REPORT_ID_MAX_COUNT {
        Some(seq![report_id, MAX_CONTACTS as u8])
    } else if report_id == REPORT_ID_PTPHQA {
        Some(seq![report_id] + CERTIFICATION_BLOB@)
    } else if report_id == REPORT_ID_INPUT_MODE {
        Some(seq![report_id, s.input_mode])
    } else if report_id == REPORT_ID_FUNCTION_SWITCH {
        Some(seq![report_id, switch_byte(s)])
    } else if report_id == REPORT_ID_LATENCY {
        Some(seq![report_id, if s.latency_high { 1u8 } else { 0u8 }])
    } else {
        None
    }
}

/// The state after SET_REPORT with `data` (which starts with the report id;
/// its second byte is the value). Data shorter than two bytes, and ids that
/// are not writable, change nothing.
pub open spec fn feature_set(s: FeatureState, report_id: u8, data: Seq<u8>) -> FeatureState {
    if data.len() < 2 {
        s
    } else {
        let value = data[1];
        if report_id == REPORT_ID_INPUT_MODE {
            FeatureState { input_mode: value, ..s }
        } else if report_id == REPORT_ID_FUNCTION_SWITCH {
            FeatureState { surface_switch: value & 1 != 0, button_switch: value & 2 != 0, ..s }
        } else if report_id == REPORT_ID_LATENCY {
            FeatureState { latency_high: value & 1 != 0, ..s }
        } else {
            s
        }
    }
}

impl Features {
    pub fn new() -> (r: Self)
        ensures
            r@ == initial_features(),
    {
        Self {
            state: FeatureState {
                input_mode: 0,
                surface_switch: true,
                button_switch: true,
                latency_high: false,
            },
        }
    }

    /// Whether the host has switched this interface into touchpad mode.
    pub fn touchpad_mode(&self) -> (r: bool)
        ensures
            r == (self@.input_mode == INPUT_MODE_TOUCHPAD),
    {
        self.state.input_mode == INPUT_MODE_TOUCHPAD
    }

    /// The current stored values.
    pub fn state(&self) -> (r: FeatureState)
        ensures
            r == self@,
    {
        self.state
    }

    /// Answer GET_REPORT for a feature report id; `None` for ids this
    /// interface does not have.
    pub fn get(&self, report_id: u8) -> (r: Option<Vec<u8>>)
        ensures
            match r {
                Some(v) => feature_get(self@, report_id) == Some(v@),
                None => feature_get(self@, report_id) is None,
            },
    {
        let s = self.state;
        if report_id == REPORT_ID_MAX_COUNT {
            Some(vec![report_id, MAX_CONTACTS as u8])
        } else if report_id == REPORT_ID_PTPHQA {
            let mut v: Vec<u8> = Vec::with_capacity(257);
            v.push(report_id);
            push_all(&mut v, &CERTIFICATION_BLOB);
            Some(v)
        } else if report_id == REPORT_ID_INPUT_MODE {
            Some(vec![report_id, s.input_mode])
        } else if report_id == REPORT_ID_FUNCTION_SWITCH {
            let surface: u8 = if s.surface_switch {
                1
            } else {
                0
            };
            let button: u8 = if s.button_switch {
                2
            } else {
                0
            };
            Some(vec![report_id, surface + button])
        } else if report_id == REPORT_ID_LATENCY {
            Some(vec![report_id, if s.latency_high {
                1
            } else {
                0
            }])
        } else {
            None
        }
    }

    /// Store the value of SET_REPORT for a feature report id. `data` starts
    /// with the report id.
    pub fn set(&mut self, report_id: u8, data: &[u8])
        ensures
            final(self)@ == feature_set(old(self)@, report_id, data@),
    {
        if data.len() < 2 {
            return ;
        }
        let value = data[1];
        if report_id == REPORT_ID_INPUT_MODE {
            self.state.input_mode = value;
        } else if report_id == REPORT_ID_FUNCTION_SWITCH {
            self.state.surface_switch = value & 1 != 0;
            self.state.button_switch = value & 2 != 0;
        } else if report_id == REPORT_ID_LATENCY {
            self.state.latency_high = value & 1 != 0;
        }
    }
}

impl Default for Features {
    fn default() -> (r: Self)
        ensures
            r@ == initial_features(),
    {
        Self::new()
    }
}

/// A value the host writes to a writable feature report is what it reads
/// back: the input mode in full, the function switches as bits 0 and 1, the
/// latency mode as bit 0. Writing one report leaves every other report's
/// answer unchanged.
pub proof fn lemma_set_then_get(s: FeatureState, report_id: u8, data: Seq<u8>, other: u8)
    requires
        data.len() >= 2,
        report_id == REPORT_ID_INPUT_MODE || report_id == REPORT_ID_FUNCTION_SWITCH || report_id
            == REPORT_ID_LATENCY,
        other != report_id,
    ensures
        feature_get(feature_set(s, report_id, data), report_id) == Some(
            if report_id == REPORT_ID_INPUT_MODE {
                seq![report_id, data[1]]
            } else if report_id == REPORT_ID_FUNCTION_SWITCH {
                seq![report_id, data[1] & 3]
            } else {
                seq![report_id, data[1] & 1]
            },
        ),
        feature_get(feature_set(s, report_id, data), other) == feature_get(s, other),
{
    let v = data[1];
    assert(((if v & 1 != 0 { 1int } else { 0 }) + (if v & 2 != 0 { 2int } else { 0 })) as u8 == v & 3)
        by {
        assert((((if v & 1 != 0 { 1u8 } else { 0u8 }) + (if v & 2 != 0 { 2u8 } else { 0u8 })) == v & 3))
            by (bit_vector);
    }
    assert((if v & 1 != 0 { 1u8 } else { 0u8 }) == v & 1) by (bit_vector);
}

/// SET_REPORT with fewer than two bytes, or for a report id that is not
/// writable, changes nothing.
pub proof fn lemma_set_ignored(s: FeatureState, report_id: u8, data: Seq<u8>)
    requires
        data.len() < 2 || (report_id != REPORT_ID_INPUT_MODE && report_id
            != REPORT_ID_FUNCTION_SWITCH && report_id != REPORT_ID_LATENCY),
    ensures
        feature_set(s, report_id, data) == s,
{
}

/// Every GET_REPORT answer starts with its report id; the certification
/// answer is 257 bytes and the others 2; only ids 2 to 6 are answered; the
/// contact-count maximum is `MAX_CONTACTS`, whatever the state.
pub proof fn lemma_get_shape(s: FeatureState, report_id: u8)
    ensures
        feature_get(s, report_id) is Some <==> (REPORT_ID_MAX_COUNT <= report_id
            <= REPORT_ID_LATENCY),
        feature_get(s, report_id) matches Some(v) ==> v[0] == report_id && v.len() == (
        if report_id == REPORT_ID_PTPHQA {
            257int
        } else {
            2
        }),
        feature_get(s, REPORT_ID_MAX_COUNT) == Some(seq![REPORT_ID_MAX_COUNT, 5u8]),
{
}

/// The host switches the interface into touchpad mode by writing input mode
/// 3, and any other value switches it out again.
pub proof fn lemma_input_mode_switch(s: FeatureState, data: Seq<u8>)
    requires
        data.len() >= 2,
    ensures
        (feature_set(s, REPORT_ID_INPUT_MODE, data).input_mode == INPUT_MODE_TOUCHPAD) == (data[1]
            == INPUT_MODE_TOUCHPAD),
{
}

/// The feature values after the host writes `writes` in order, starting
/// from `s`; each write is a report id and its SET_REPORT data.
pub open spec fn features_after(s: FeatureState, writes: Seq<(u8, Seq<u8>)>) -> FeatureState
    decreases writes.len(),
{
    if writes.len() == 0 {
        s
    } else {
        let w = writes.last();
        feature_set(features_after(s, writes.drop_last()), w.0, w.1)
    }
}

/// The value of the last write in `writes` that set the input mode (report
/// id 4 with at least two bytes of data), if there is one.
pub open spec fn last_input_mode(writes: Seq<(u8, Seq<u8>)>) -> Option<u8>
    decreases writes.len(),
{
    if writes.len() == 0 {
        None
    } else {
        let w = writes.last();
        if w.0 == REPORT_ID_INPUT_MODE && w.1.len() >= 2 {
            Some(w.1[1])
        } else {
            last_input_mode(writes.drop_last())
        }
    }
}

/// Over any sequence of writes, the input mode is the value of the last
/// valid input-mode write, or what it was before when there was none. So
/// the interface is in touchpad mode after `Features::new()` and the writes
/// exactly when some write set the input mode and the last such write set
/// it to 3.
pub proof fn lemma_touchpad_mode_follows_last_write(s: FeatureState, writes: Seq<(u8, Seq<u8>)>)
    ensures
        features_after(s, writes).input_mode == match last_input_mode(writes) {
            Some(v) => v,
            None => s.input_mode,
        },
        (features_after(initial_features(), writes).input_mode == INPUT_MODE_TOUCHPAD) == (
        last_input_mode(writes) == Some(INPUT_MODE_TOUCHPAD)),
    decreases writes.len(),
{
    if writes.len() > 0 {
        lemma_touchpad_mode_follows_last_write(s, writes.drop_last());
        lemma_touchpad_mode_follows_last_write(initial_features(), writes.drop_last());
    }
}

/// Microsoft's canonical PTP device certification blob. Optional on
/// Windows 10+, required for Windows 8.1-era certification checks.
pub const CERTIFICATION_BLOB: [u8; 256] = [
    0xfc, 0x28, 0xfe, 0x84, 0x40, 0xcb, 0x9a, 0x87, 0x0d, 0xbe, 0x57, 0x3c, 0xb6, 0x70, 0x09, 0x88,
    0x07, 0x97, 0x2d, 0x2b, 0xe3, 0x38, 0x34, 0xb6, 0x6c, 0xed, 0xb0, 0xf7, 0xe5, 0x9c, 0xf6, 0xc2,
    0x2e, 0x84, 0x1b, 0xe8, 0xb4, 0x51, 0x78, 0x43, 0x1f, 0x28, 0x4b, 0x7c, 0x2d, 0x53, 0xaf, 0xfc,
    0x47, 0x70, 0x1b, 0x59, 0x6f, 0x74, 0x43, 0xc4, 0xf3, 0x47, 0x18, 0x53, 0x1a, 0xa2, 0xa1, 0x71,
    0xc7, 0x95, 0x0e, 0x31, 0x55, 0x21, 0xd3, 0xb5, 0x1e, 0xe9, 0x0c, 0xba, 0xec, 0xb8, 0x89, 0x19,
    0x3e, 0xb3, 0xaf, 0x75, 0x81, 0x9d, 0x53, 0xb9, 0x41, 0x57, 0xf4, 0x6d, 0x39, 0x25, 0x29, 0x7c,
    0x87, 0xd9, 0xb4, 0x98, 0x45, 0x7d, 0xa7, 0x26, 0x9c, 0x65, 0x3b, 0x85, 0x68, 0x89, 0xd7, 0x3b,
    0xbd, 0xff, 0x14, 0x67, 0xf2, 0x2b, 0xf0, 0x2a, 0x41, 0x54, 0xf0, 0xfd, 0x2c, 0x66, 0x7c, 0xf8,
    0xc0, 0x8f, 0x33, 0x13, 0x03, 0xf1, 0xd3, 0xc1, 0x0b, 0x89, 0xd9, 0x1b, 0x62, 0xcd, 0x51, 0xb7,
    0x80, 0xb8, 0xaf, 0x3a, 0x10, 0xc1, 0x8a, 0x5b, 0xe8, 0x8a, 0x56, 0xf0, 0x8c, 0xaa, 0xfa, 0x35,
    0xe9, 0x42, 0xc4, 0xd8, 0x55, 0xc3, 0x38, 0xcc, 0x2b, 0x53, 0x5c, 0x69, 0x52, 0xd5, 0xc8, 0x73,
    0x02, 0x38, 0x7c, 0x73, 0xb6, 0x41, 0xe7, 0xff, 0x05, 0xd8, 0x2b, 0x79, 0x9a, 0xe2, 0x34, 0x60,
    0x8f, 0xa3, 0x32, 0x1f, 0x09, 0x78, 0x62, 0xbc, 0x80, 0xe3, 0x0f, 0xbd, 0x65, 0x20, 0x08, 0x13,
    0xc1, 0xe2, 0xee, 0x53, 0x2d, 0x86, 0x7e, 0xa7, 0x5a, 0xc5, 0xd3, 0x7d, 0x98, 0xbe, 0x31, 0x48,
    0x1f, 0xfb, 0xda, 0xaf, 0xa2, 0xa8, 0x6a, 0x89, 0xd6, 0xbf, 0xf2, 0xd3, 0x32, 0x2a, 0x9a, 0xe4,
    0xcf, 0x17, 0xb7, 0xb8, 0xf4, 0xe1, 0x33, 0x08, 0x24, 0x8b, 0xc4, 0x43, 0xa5, 0xe5, 0x24, 0xc2,
];

} // verus!
