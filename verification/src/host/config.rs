//! Settings enums of the host-side client.

use vstd::prelude::*;

verus! {

/// How the tablet is physically placed relative to the screen.
#[derive(Clone, Copy, PartialEq, Eq, Debug, Structural)]
pub enum Orientation {
    Portrait,
    PortraitFlipped,
    LandscapeLeft,
    LandscapeRight,
}

/// What an eraser-end contact presses.
#[derive(Clone, Copy, PartialEq, Eq, Debug, Structural)]
pub enum EraserAction {
    /// No button (named `none` in the settings file).
    NoAction,
    RightClick,
    MiddleClick,
}

} // verus!
