//! Pen frames of the on-device daemon: the geometry the HID descriptor
//! declares, the transformed pen state sent per device frame, and the
//! frame-batching state machine that folds raw evdev events into frames.
//!
//! Positions and tilt are deferred to `SYN_REPORT`; the tip is synthesized
//! from pressure. The coordinate transforms themselves (tilt correction,
//! orientation, fit) are done by the caller between [`PenTracker::handle_event`]
//! returning a [`PendingFrame`] and [`PenTracker::finish`].

use vstd::prelude::*;

use crate::bytes::{clamp_i32, clamp_spec};

verus! {

pub const EV_SYN: u16 = 0x00;
pub const EV_KEY: u16 = 0x01;
pub const EV_ABS: u16 = 0x03;
pub const SYN_REPORT: u16 = 0;

pub const ABS_X: u16 = 0x00;
pub const ABS_Y: u16 = 0x01;
pub const ABS_PRESSURE: u16 = 0x18;
pub const ABS_DISTANCE: u16 = 0x19;
pub const ABS_TILT_X: u16 = 0x1a;
pub const ABS_TILT_Y: u16 = 0x1b;

pub const BTN_TOOL_PEN: u16 = 0x140;
pub const BTN_TOOL_RUBBER: u16 = 0x141;
pub const BTN_STYLUS: u16 = 0x14b;

/// The pen's keys that the tracker follows.
#[derive(Debug, Clone, Copy, PartialEq, Eq, Structural)]
pub enum PenKey {
    /// The pen tool (nib end) in range.
    ToolPen,
    /// The eraser tool (eraser end) in range.
    ToolRubber,
    /// The side button.
    Stylus,
}

/// The evdev key code of a pen key, as `evdevil::event::Key::raw` gives it
/// for `BTN_TOOL_PEN`, `BTN_TOOL_RUBBER` and `BTN_STYLUS`: the constants of
/// evdevil's code table (0x140, 0x141, 0x14b, as in `linux/input.h`).
#[verifier::external_body]
fn key_code(key: PenKey) -> (r: u16)
    ensures
        r == match key {
            PenKey::ToolPen => BTN_TOOL_PEN,
            PenKey::ToolRubber => BTN_TOOL_RUBBER,
            PenKey::Stylus => BTN_STYLUS,
        },
{
    match key {
        PenKey::ToolPen => evdevil::event::Key::BTN_TOOL_PEN.raw(),
        PenKey::ToolRubber => evdevil::event::Key::BTN_TOOL_RUBBER.raw(),
        PenKey::Stylus => evdevil::event::Key::BTN_STYLUS.raw(),
    }
}

/// Axis ranges of the transformed pen space, for sinks that must declare
/// logical ranges up front (HID report descriptors).
#[derive(Debug, Clone, Copy)]
pub struct PenGeometry {
    pub x_max: i32,
    pub y_max: i32,
    pub pressure_max: i32,
    /// Kept for parity with the device profile; no sink consumes it yet.
    pub distance_max: i32,
    /// Tilt in device units; ±range maps to ±90°.
    pub tilt_range: i32,
}

/// One fully transformed pen state snapshot, emitted per SYN_REPORT.
#[derive(Debug, Clone, Copy)]
pub struct PenFrame {
    pub x: i32,
    pub y: i32,
    pub pressure: i32,
    pub distance: i32,
    pub tilt_x: i32,
    pub tilt_y: i32,
    /// Pen coil in sensing range (BTN_TOOL_PEN or BTN_TOOL_RUBBER held).
    pub in_range: bool,
    /// Nib contact, synthesized from pressure.
    pub tip: bool,
    /// Eraser tool active (BTN_TOOL_RUBBER).
    pub eraser: bool,
    /// Side button (BTN_STYLUS).
    pub barrel: bool,
}

/// The all-zero, out-of-range frame.
pub open spec fn empty_pen_frame() -> PenFrame {
    PenFrame {
        x: 0,
        y: 0,
        pressure: 0,
        distance: 0,
        tilt_x: 0,
        tilt_y: 0,
        in_range: false,
        tip: false,
        eraser: false,
        barrel: false,
    }
}

impl Default for PenFrame {
    fn default() -> (r: Self)
        ensures
            r == empty_pen_frame(),
    {
        PenFrame {
            x: 0,
            y: 0,
            pressure: 0,
            distance: 0,
            tilt_x: 0,
            tilt_y: 0,
            in_range: false,
            tip: false,
            eraser: false,
            barrel: false,
        }
    }
}


/// Raw (pre-transform) values of the frame that just ended, handed to the
/// caller at `SYN_REPORT`: the position if both axes were reported, the tilt
/// pair if either axis was reported, and the last known tilt for the tilt
/// correction.
#[derive(Debug, Clone, Copy)]
pub struct PendingFrame {
    pub x: Option<i32>,
    pub y: Option<i32>,
    pub tilt: Option<(i32, i32)>,
    pub last_tilt: (i32, i32),
}


impl PendingFrame {
    /// The raw position to transform: only a frame that reported both axes
    /// moves the pen.
    pub fn position(&self) -> (r: Option<(i32, i32)>)
        ensures
            r == match (self.x, self.y) {
                (Some(x), Some(y)) => Some((x, y)),
                _ => None::<(i32, i32)>,
            },
    {
        match (self.x, self.y) {
            (Some(x), Some(y)) => Some((x, y)),
            _ => None,
        }
    }
}

/// Frame batching of the pen loop: values that arrive between two
/// `SYN_REPORT`s, the last tilt seen, and the pen state carried across frames.
#[derive(Debug, Clone, Copy)]
pub struct PenTracker {
    pub pending_x: Option<i32>,
    pub pending_y: Option<i32>,
    pub pending_tilt: Option<(i32, i32)>,
    pub last_tilt_x: i32,
    pub last_tilt_y: i32,
    pub frame: PenFrame,
}

/// The tracker after one event.
pub open spec fn tracker_step(t: PenTracker, ty: u16, code: u16, value: i32) -> PenTracker {
    if ty == EV_ABS {
        if code == ABS_X {
            PenTracker { pending_x: Some(value), ..t }
        } else if code == ABS_Y {
            PenTracker { pending_y: Some(value), ..t }
        } else if code == ABS_TILT_X {
            PenTracker { last_tilt_x: value, pending_tilt: Some((value, t.last_tilt_y)), ..t }
        } else if code == ABS_TILT_Y {
            PenTracker { last_tilt_y: value, pending_tilt: Some((t.last_tilt_x, value)), ..t }
        } else if code == ABS_PRESSURE {
            PenTracker { frame: PenFrame { pressure: value, ..t.frame }, ..t }
        } else if code == ABS_DISTANCE {
            PenTracker { frame: PenFrame { distance: value, ..t.frame }, ..t }
        } else {
            t
        }
    } else if ty == EV_KEY {
        let pressed = value != 0;
        if code == BTN_TOOL_PEN {
            PenTracker {
                frame: PenFrame {
                    in_range: pressed,
                    eraser: if pressed { false } else { t.frame.eraser },
                    ..t.frame
                },
                ..t
            }
        } else if code == BTN_TOOL_RUBBER {
            PenTracker { frame: PenFrame { in_range: pressed, eraser: pressed, ..t.frame }, ..t }
        } else if code == BTN_STYLUS {
            PenTracker { frame: PenFrame { barrel: pressed, ..t.frame }, ..t }
        } else {
            t
        }
    } else if ty == EV_SYN && code == SYN_REPORT {
        PenTracker {
            pending_x: None,
            pending_y: None,
            pending_tilt: None,
            frame: PenFrame { tip: t.frame.pressure > 0, ..t.frame },
            ..t
        }
    } else {
        t
    }
}

impl PenTracker {
    /// Nothing pending, no tilt seen, the empty frame.
    pub fn new() -> (r: Self)
        ensures
            r.pending_x is None && r.pending_y is None && r.pending_tilt is None,
            r.last_tilt_x == 0 && r.last_tilt_y == 0,
            r.frame == empty_pen_frame(),
    {
        PenTracker {
            pending_x: None,
            pending_y: None,
            pending_tilt: None,
            last_tilt_x: 0,
            last_tilt_y: 0,
            frame: PenFrame::default(),
        }
    }

    /// Fold one raw event into the frame in progress. Positions and tilt are
    /// deferred; pressure, distance and the tool keys update the frame at
    /// once. At `SYN_REPORT` the tip is synthesized from pressure, the
    /// pending values are taken, and they are returned for the caller to
    /// transform and hand back to [`PenTracker::finish`].
    pub fn handle_event(&mut self, ty: u16, code: u16, value: i32) -> (r: Option<PendingFrame>)
        ensures
            *final(self) == tracker_step(*old(self), ty, code, value),
            match r {
                Some(p) => {
                    &&& ty == EV_SYN && code == SYN_REPORT
                    &&& p.x == old(self).pending_x
                    &&& p.y == old(self).pending_y
                    &&& p.tilt == old(self).pending_tilt
                    &&& p.last_tilt == (old(self).last_tilt_x, old(self).last_tilt_y)
                },
                None => !(ty == EV_SYN && code == SYN_REPORT),
            },
    {
        if ty == EV_ABS {
            if code == ABS_X {
                self.pending_x = Some(value);
            } else if code == ABS_Y {
                self.pending_y = Some(value);
            } else if code == ABS_TILT_X {
                self.last_tilt_x = value;
                self.pending_tilt = Some((value, self.last_tilt_y));
            } else if code == ABS_TILT_Y {
                self.last_tilt_y = value;
                self.pending_tilt = Some((self.last_tilt_x, value));
            } else if code == ABS_PRESSURE {
                self.frame.pressure = value;
            } else if code == ABS_DISTANCE {
                self.frame.distance = value;
            }
            None
        } else if ty == EV_KEY {
            let pressed = value != 0;
            if code == key_code(PenKey::ToolPen) {
                self.frame.in_range = pressed;
                if pressed {
                    self.frame.eraser = false;
                }
            } else if code == key_code(PenKey::ToolRubber) {
                self.frame.in_range = pressed;
                self.frame.eraser = pressed;
            } else if code == key_code(PenKey::Stylus) {
                self.frame.barrel = pressed;
            }
            None
        } else if ty == EV_SYN && code == SYN_REPORT {
            self.frame.tip = self.frame.pressure > 0;
            let pending = PendingFrame {
                x: self.pending_x,
                y: self.pending_y,
                tilt: self.pending_tilt,
                last_tilt: (self.last_tilt_x, self.last_tilt_y),
            };
            self.pending_x = None;
            self.pending_y = None;
            self.pending_tilt = None;
            Some(pending)
        } else {
            None
        }
    }

    /// Complete the frame with the transformed position (given when the
    /// ended frame reported both axes) and the oriented tilt (given when it
    /// reported tilt); everything else stays as it was.
    pub fn finish(&mut self, position: Option<(i32, i32)>, tilt: Option<(i32, i32)>) -> (r: PenFrame)
        ensures
            r == final(self).frame,
            final(self).pending_x == old(self).pending_x,
            final(self).pending_y == old(self).pending_y,
            final(self).pending_tilt == old(self).pending_tilt,
            final(self).last_tilt_x == old(self).last_tilt_x,
            final(self).last_tilt_y == old(self).last_tilt_y,
            r == (PenFrame {
                x: match position {
                    Some(p) => p.0,
                    None => old(self).frame.x,
                },
                y: match position {
                    Some(p) => p.1,
                    None => old(self).frame.y,
                },
                tilt_x: match tilt {
                    Some(t) => t.0,
                    None => old(self).frame.tilt_x,
                },
                tilt_y: match tilt {
                    Some(t) => t.1,
                    None => old(self).frame.tilt_y,
                },
                ..old(self).frame
            }),
    {
        if let Some((x, y)) = position {
            self.frame.x = x;
            self.frame.y = y;
        }
        if let Some((tx, ty)) = tilt {
            self.frame.tilt_x = tx;
            self.frame.tilt_y = ty;
        }
        self.frame
    }
}

/// The raw position after subtracting a tilt-correction offset, clamped to
/// the digitizer's range.
pub fn corrected_position(x: i32, y: i32, dx: i32, dy: i32, x_max: i32, y_max: i32) -> (r: (i32, i32))
    requires
        x_max >= 0,
        y_max >= 0,
        i32::MIN <= x - dx <= i32::MAX,
        i32::MIN <= y - dy <= i32::MAX,
    ensures
        r.0 == clamp_spec(x - dx, 0, x_max as int),
        r.1 == clamp_spec(y - dy, 0, y_max as int),
{
    (clamp_i32(x - dx, 0, x_max), clamp_i32(y - dy, 0, y_max))
}

/// Every frame that leaves the tracker at `SYN_REPORT` has its tip set
/// exactly when its pressure is positive, carries no pending value into the
/// next frame, and reports the tool keys as the last key events set them:
/// the eraser tool puts the pen in range as an eraser, the pen tool in range
/// as a pen, and releasing either takes it out of range.
pub proof fn lemma_tracker_frames(t: PenTracker, ty: u16, code: u16, value: i32)
    ensures
        ({
            let n = tracker_step(t, ty, code, value);
            &&& (ty == EV_SYN && code == SYN_REPORT) ==> {
                &&& n.frame.tip == (n.frame.pressure > 0)
                &&& n.pending_x is None && n.pending_y is None && n.pending_tilt is None
            }
            &&& (ty == EV_KEY && code == BTN_TOOL_RUBBER && value != 0) ==> n.frame.in_range
                && n.frame.eraser
            &&& (ty == EV_KEY && code == BTN_TOOL_PEN && value != 0) ==> n.frame.in_range
                && !n.frame.eraser
            &&& (ty == EV_KEY && (code == BTN_TOOL_PEN || code == BTN_TOOL_RUBBER) && value == 0)
                ==> !n.frame.in_range
        }),
{
}

/// Each event sets exactly its own part of the tracker. The side button
/// follows the last `BTN_STYLUS` event (pressed when the value is not 0) and
/// no other key touches it; `ABS_X` and `ABS_Y` set their pending position
/// alone, `ABS_PRESSURE` and `ABS_DISTANCE` their frame value alone, and a
/// tilt axis pairs its new value with the last value of the other axis.
pub proof fn lemma_tracker_event_effects(t: PenTracker, v: i32)
    ensures
        ({
            let n = tracker_step(t, EV_KEY, BTN_STYLUS, v);
            &&& n.frame.barrel == (v != 0)
            &&& n.frame.in_range == t.frame.in_range && n.frame.eraser == t.frame.eraser
            &&& n.frame.pressure == t.frame.pressure && n.frame.tip == t.frame.tip
            &&& n.pending_x == t.pending_x && n.pending_y == t.pending_y
        }),
        !tracker_step(tracker_step(t, EV_KEY, BTN_STYLUS, 1), EV_KEY, BTN_STYLUS, 0).frame.barrel,
        tracker_step(t, EV_KEY, BTN_TOOL_PEN, v).frame.barrel == t.frame.barrel,
        tracker_step(t, EV_KEY, BTN_TOOL_RUBBER, v).frame.barrel == t.frame.barrel,
        ({
            let n = tracker_step(t, EV_ABS, ABS_X, v);
            n.pending_x == Some(v) && n.pending_y == t.pending_y && n.frame == t.frame
                && n.pending_tilt == t.pending_tilt
        }),
        ({
            let n = tracker_step(t, EV_ABS, ABS_Y, v);
            n.pending_y == Some(v) && n.pending_x == t.pending_x && n.frame == t.frame
                && n.pending_tilt == t.pending_tilt
        }),
        ({
            let n = tracker_step(t, EV_ABS, ABS_PRESSURE, v);
            n.frame.pressure == v && n.frame.distance == t.frame.distance && n.frame.barrel
                == t.frame.barrel && n.frame.in_range == t.frame.in_range && n.pending_x
                == t.pending_x && n.pending_y == t.pending_y
        }),
        ({
            let n = tracker_step(t, EV_ABS, ABS_DISTANCE, v);
            n.frame.distance == v && n.frame.pressure == t.frame.pressure && n.pending_x
                == t.pending_x && n.pending_y == t.pending_y
        }),
        ({
            let n = tracker_step(t, EV_ABS, ABS_TILT_X, v);
            n.pending_tilt == Some((v, t.last_tilt_y)) && n.last_tilt_x == v && n.last_tilt_y
                == t.last_tilt_y && n.frame == t.frame
        }),
        ({
            let n = tracker_step(t, EV_ABS, ABS_TILT_Y, v);
            n.pending_tilt == Some((t.last_tilt_x, v)) && n.last_tilt_y == v && n.last_tilt_x
                == t.last_tilt_x && n.frame == t.frame
        }),
{
}

/// The position that `SYN_REPORT` hands out is the last `ABS_X` and `ABS_Y`
/// values of the frame, in whichever order they came.
pub proof fn lemma_tracker_reports_last_position(t: PenTracker, a: i32, b: i32)
    ensures
        tracker_step(tracker_step(t, EV_ABS, ABS_X, a), EV_ABS, ABS_Y, b).pending_x == Some(a),
        tracker_step(tracker_step(t, EV_ABS, ABS_X, a), EV_ABS, ABS_Y, b).pending_y == Some(b),
        tracker_step(tracker_step(t, EV_ABS, ABS_Y, b), EV_ABS, ABS_X, a).pending_x == Some(a),
        tracker_step(tracker_step(t, EV_ABS, ABS_Y, b), EV_ABS, ABS_X, a).pending_y == Some(b),
{
}

} // verus!
