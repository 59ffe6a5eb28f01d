//! Naming of raw evdev events for the daemon's raw dumps, which show exactly
//! what the tablet's drivers emit (slot protocol quirks, ordering, timing),
//! one line per `SYN_REPORT` frame.

use vstd::prelude::*;

verus! {

/// How a raw event is labelled in a dump.
#[derive(Debug, Clone, Copy, PartialEq, Eq, Structural)]
pub enum RawLabel {
    /// A key, printed with its hexadecimal code.
    Key(u16),
    X,
    Y,
    Pressure,
    Distance,
    TiltX,
    TiltY,
    Slot,
    MtMajor,
    MtX,
    MtY,
    Track,
    MtPressure,
    /// Another absolute axis, printed with its hexadecimal code.
    Abs(u16),
    /// Any other event type and code.
    Other(u16, u16),
}

/// The label of an event of type `ty` and code `code` (type 1 keys, type 3
/// absolute axes with the names the tablet's pen and touch drivers use).
pub open spec fn label_of(ty: u16, code: u16) -> RawLabel {
    if ty == 1 {
        RawLabel::Key(code)
    } else if ty == 3 {
        if code == 0x00 {
            RawLabel::X
        } else if code == 0x01 {
            RawLabel::Y
        } else if code == 0x18 {
            RawLabel::Pressure
        } else if code == 0x19 {
            RawLabel::Distance
        } else if code == 0x1a {
            RawLabel::TiltX
        } else if code == 0x1b {
            RawLabel::TiltY
        } else if code == 0x2f {
            RawLabel::Slot
        } else if code == 0x30 {
            RawLabel::MtMajor
        } else if code == 0x35 {
            RawLabel::MtX
        } else if code == 0x36 {
            RawLabel::MtY
        } else if code == 0x39 {
            RawLabel::Track
        } else if code == 0x3a {
            RawLabel::MtPressure
        } else {
            RawLabel::Abs(code)
        }
    } else {
        RawLabel::Other(ty, code)
    }
}

/// Whether an event closes the current dump line (`SYN_REPORT`).
pub fn ends_line(ty: u16, code: u16) -> (r: bool)
    ensures
        r == (ty == 0 && code == 0),
{
    ty == 0 && code == 0
}

/// Label an event for the raw dump.
pub fn raw_label(ty: u16, code: u16) -> (r: RawLabel)
    ensures
        r == label_of(ty, code),
{
    if ty == 1 {
        RawLabel::Key(code)
    } else if ty == 3 {
        if code == 0x00 {
            RawLabel::X
        } else if code == 0x01 {
            RawLabel::Y
        } else if code == 0x18 {
            RawLabel::Pressure
        } else if code == 0x19 {
            RawLabel::Distance
        } else if code == 0x1a {
            RawLabel::TiltX
        } else if code == 0x1b {
            RawLabel::TiltY
        } else if code == 0x2f {
            RawLabel::Slot
        } else if code == 0x30 {
            RawLabel::MtMajor
        } else if code == 0x35 {
            RawLabel::MtX
        } else if code == 0x36 {
            RawLabel::MtY
        } else if code == 0x39 {
            RawLabel::Track
        } else if code == 0x3a {
            RawLabel::MtPressure
        } else {
            RawLabel::Abs(code)
        }
    } else {
        RawLabel::Other(ty, code)
    }
}

} // verus!
