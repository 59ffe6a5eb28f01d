//! Pointer decisions of the host-side client: when the tip counts as a
//! contact, which button a contact presses, which button events and frames
//! each snapshot produces, when the target region is re-resolved, and the
//! bounding box of the output layout. Mapping the pen onto the region
//! (orientation, smoothing, letterboxing) is floating-point work done by the
//! caller between these decisions.

use vstd::prelude::*;

use crate::host::config::EraserAction;

verus! {

pub const BTN_LEFT: u32 = 0x110;
pub const BTN_RIGHT: u32 = 0x111;
pub const BTN_MIDDLE: u32 = 0x112;

/// Button codes in the order of [`ButtonLatch::held`]: left, right, middle.
pub const BUTTON_CODES: [u32; 3] = [BTN_LEFT, BTN_RIGHT, BTN_MIDDLE];

/// Whether the pen counts as touching: at or above the pressure threshold
/// when one is set, else the tablet's own tip detection.
pub fn is_contact(pressure_threshold: i32, pressure: i32, touch: bool) -> (r: bool)
    ensures
        r == if pressure_threshold > 0 {
            pressure >= pressure_threshold
        } else {
            touch
        },
{
    if pressure_threshold > 0 {
        pressure >= pressure_threshold
    } else {
        touch
    }
}

/// Buttons (left, right, middle) a snapshot should hold: none without
/// contact; for the eraser end whatever the eraser action says; left for the
/// pen tip.
pub open spec fn wanted_buttons(contact: bool, eraser: bool, action: EraserAction) -> Seq<bool> {
    if !contact {
        seq![false, false, false]
    } else if eraser {
        match action {
            EraserAction::NoAction => seq![false, false, false],
            EraserAction::RightClick => seq![false, true, false],
            EraserAction::MiddleClick => seq![false, false, true],
        }
    } else {
        seq![true, false, false]
    }
}

fn wanted(contact: bool, eraser: bool, action: EraserAction) -> (r: [bool; 3])
    ensures
        r@ == wanted_buttons(contact, eraser, action),
{
    if !contact {
        [false; 3]
    } else if eraser {
        match action {
            EraserAction::NoAction => [false; 3],
            EraserAction::RightClick => [false, true, false],
            EraserAction::MiddleClick => [false, false, true],
        }
    } else {
        [true, false, false]
    }
}

/// Pointer state carried between snapshots.
#[derive(Clone, Copy, Debug)]
pub struct ButtonLatch {
    /// left, right, middle
    pub held: [bool; 3],
    pub was_in_range: bool,
}

/// What one snapshot asks of the virtual pointer.
#[derive(Clone, Copy, Debug)]
pub struct PointerStep {
    /// The pen came into range: resolve the target region again, so "active
    /// monitor" follows focus between strokes.
    pub resolve_region: bool,
    /// Forget the smoothing history.
    pub reset_smoothing: bool,
    /// Send an absolute motion to the mapped position.
    pub move_cursor: bool,
    /// Button events to send, in order left, right, middle: `Some(down)`
    /// where the button changes.
    pub buttons: [Option<bool>; 3],
    /// Close the pointer frame (something was sent).
    pub frame: bool,
}

/// The button change of one button: its new state where it differs.
pub open spec fn change(old: bool, new: bool) -> Option<bool> {
    if old == new {
        None
    } else {
        Some(new)
    }
}

impl ButtonLatch {
    /// Nothing held, pen out of range.
    pub fn new() -> (r: Self)
        ensures
            r.held@ == seq![false, false, false],
            !r.was_in_range,
    {
        ButtonLatch { held: [false; 3], was_in_range: false }
    }

    /// Decide what a snapshot does. Out of range, every held button is
    /// released and nothing moves. In range, the cursor moves when hovering
    /// moves it, on contact, or while a button is held, and the buttons go
    /// to the wanted set; a frame closes whenever something was sent.
    pub fn step(&mut self, in_range: bool, contact: bool, eraser: bool, action: EraserAction, hover_moves_cursor: bool) -> (r: PointerStep)
        ensures
            r.resolve_region == (in_range && !old(self).was_in_range),
            r.reset_smoothing == (r.resolve_region || !in_range),
            final(self).was_in_range == in_range,
            ({
                let want = if in_range {
                    wanted_buttons(contact, eraser, action)
                } else {
                    seq![false, false, false]
                };
                let held = old(self).held@;
                &&& final(self).held@ == want
                &&& forall|i: int| 0 <= i < 3 ==> #[trigger] r.buttons@[i] == change(held[i], want[i])
                &&& r.move_cursor == (in_range && (hover_moves_cursor || contact || held[0] || held[1]
                    || held[2]))
                &&& r.frame == (r.move_cursor || r.buttons@[0] is Some || r.buttons@[1] is Some
                    || r.buttons@[2] is Some)
            }),
    {
        let resolve_region = in_range && !self.was_in_range;
        self.was_in_range = in_range;
        let want = if in_range {
            wanted(contact, eraser, action)
        } else {
            [false; 3]
        };
        let any_held = self.held[0] || self.held[1] || self.held[2];
        let move_cursor = in_range && (hover_moves_cursor || contact || any_held);
        let mut buttons: [Option<bool>; 3] = [None; 3];
        let mut dirty = move_cursor;
        let mut i: usize = 0;
        let ghost held0 = self.held@;
        while i < 3
            invariant
                i <= 3,
                held0.len() == 3,
                want@.len() == 3,
                forall|k: int| 0 <= k < i ==> #[trigger] self.held@[k] == want@[k],
                forall|k: int| i <= k < 3 ==> #[trigger] self.held@[k] == held0[k],
                forall|k: int| 0 <= k < i ==> #[trigger] buttons@[k] == change(held0[k], want@[k]),
                forall|k: int| i <= k < 3 ==> #[trigger] buttons@[k] == None::<bool>,
                self.was_in_range == in_range,
                dirty == (move_cursor || (0 < i && buttons@[0] is Some) || (1 < i && buttons@[1] is Some)
                    || (2 < i && buttons@[2] is Some)),
            decreases 3 - i,
        {
            if self.held[i] != want[i] {
                self.held[i] = want[i];
                buttons[i] = Some(want[i]);
                dirty = true;
            }
            i = i + 1;
        }
        assert(self.held@ =~= want@);
        PointerStep {
            resolve_region,
            reset_smoothing: resolve_region || !in_range,
            move_cursor,
            buttons,
            frame: dirty,
        }
    }
}

/// No button stays down: once the pen leaves range every button is up, at
/// most one button is ever held, and a held button is released by the first
/// snapshot without contact.
pub proof fn lemma_buttons_never_stick(contact: bool, eraser: bool, action: EraserAction)
    ensures
        wanted_buttons(false, eraser, action) == seq![false, false, false],
        ({
            let w = wanted_buttons(contact, eraser, action);
            &&& w.len() == 3
            &&& (if w[0] { 1int } else { 0 }) + (if w[1] { 1int } else { 0 }) + (if w[2] {
                1int
            } else {
                0
            }) <= 1
            &&& w[0] == (contact && !eraser)
        }),
{
}

/// One output of the layout, in global logical coordinates.
#[derive(Clone, Copy, Debug)]
pub struct OutputRect {
    pub x: i32,
    pub y: i32,
    pub w: i32,
    pub h: i32,
}

/// The bounding box of the layout.
#[derive(Clone, Copy, Debug, PartialEq, Eq)]
pub struct LayoutBox {
    pub x: i32,
    pub y: i32,
    pub w: i64,
    pub h: i64,
}

/// Outputs with a known, non-empty size take part in the layout.
pub open spec fn counts(o: OutputRect) -> bool {
    o.w > 0 && o.h > 0
}

/// The box assumed while no output has reported its size.
pub open spec fn default_box() -> LayoutBox {
    LayoutBox { x: 0, y: 0, w: 1920, h: 1080 }
}

/// `b` is the smallest box holding every counted output of `outs`.
pub open spec fn is_bounding_box(outs: Seq<OutputRect>, b: LayoutBox) -> bool {
    &&& forall|i: int|
        0 <= i < outs.len() && counts(#[trigger] outs[i]) ==> b.x <= outs[i].x && b.y <= outs[i].y
            && outs[i].x + outs[i].w <= b.x + b.w && outs[i].y + outs[i].h <= b.y + b.h
    &&& exists|i: int| 0 <= i < outs.len() && counts(#[trigger] outs[i]) && outs[i].x == b.x
    &&& exists|i: int| 0 <= i < outs.len() && counts(#[trigger] outs[i]) && outs[i].y == b.y
    &&& exists|i: int|
        0 <= i < outs.len() && counts(#[trigger] outs[i]) && outs[i].x + outs[i].w == b.x + b.w
    &&& exists|i: int|
        0 <= i < outs.len() && counts(#[trigger] outs[i]) && outs[i].y + outs[i].h == b.y + b.h
}

/// Bounding box of all outputs in global logical coordinates (1920x1080 at
/// the origin while no output has a size).
pub fn layout_bbox(outputs: &[OutputRect]) -> (r: LayoutBox)
    ensures
        (exists|i: int| 0 <= i < outputs@.len() && counts(#[trigger] outputs@[i])) ==> is_bounding_box(
            outputs@,
            r,
        ),
        (forall|i: int| 0 <= i < outputs@.len() ==> !counts(#[trigger] outputs@[i])) ==> r
            == default_box(),
{
    let mut found = false;
    let mut x0: i32 = 0;
    let mut y0: i32 = 0;
    let mut x1: i64 = 0;
    let mut y1: i64 = 0;
    let ghost mut ix: int = 0;
    let ghost mut iy: int = 0;
    let ghost mut ix1: int = 0;
    let ghost mut iy1: int = 0;
    let mut i: usize = 0;
    while i < outputs.len()
        invariant
            i <= outputs@.len(),
            found == exists|k: int| 0 <= k < i && counts(#[trigger] outputs@[k]),
            found ==> {
                &&& forall|k: int|
                    0 <= k < i && counts(#[trigger] outputs@[k]) ==> x0 <= outputs@[k].x && y0
                        <= outputs@[k].y && outputs@[k].x + outputs@[k].w <= x1 && outputs@[k].y
                        + outputs@[k].h <= y1
                &&& 0 <= ix < i && counts(outputs@[ix]) && outputs@[ix].x == x0
                &&& 0 <= iy < i && counts(outputs@[iy]) && outputs@[iy].y == y0
                &&& 0 <= ix1 < i && counts(outputs@[ix1]) && outputs@[ix1].x + outputs@[ix1].w == x1
                &&& 0 <= iy1 < i && counts(outputs@[iy1]) && outputs@[iy1].y + outputs@[iy1].h == y1
            },
        decreases outputs@.len() - i,
    {
        let o = outputs[i];
        if o.w > 0 && o.h > 0 {
            let ox1 = o.x as i64 + o.w as i64;
            let oy1 = o.y as i64 + o.h as i64;
            if !found {
                found = true;
                x0 = o.x;
                y0 = o.y;
                x1 = ox1;
                y1 = oy1;
                proof {
                    ix = i as int;
                    iy = i as int;
                    ix1 = i as int;
                    iy1 = i as int;
                }
            } else {
                if o.x < x0 {
                    x0 = o.x;
                    proof {
                        ix = i as int;
                    }
                }
                if o.y < y0 {
                    y0 = o.y;
                    proof {
                        iy = i as int;
                    }
                }
                if ox1 > x1 {
                    x1 = ox1;
                    proof {
                        ix1 = i as int;
                    }
                }
                if oy1 > y1 {
                    y1 = oy1;
                    proof {
                        iy1 = i as int;
                    }
                }
            }
        }
        i = i + 1;
    }
    if !found {
        return LayoutBox { x: 0, y: 0, w: 1920, h: 1080 };
    }
    let r = LayoutBox { x: x0, y: y0, w: x1 - x0 as i64, h: y1 - y0 as i64 };
    assert(counts(outputs@[ix]));
    assert(counts(outputs@[iy]));
    assert(counts(outputs@[ix1]));
    assert(counts(outputs@[iy1]));
    r
}

} // verus!
