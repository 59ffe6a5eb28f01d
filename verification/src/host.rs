//! The host-side pen client: reads the tablet's digitizer stream and drives
//! a virtual pointer. Here are its settings enums, the decoding of the raw
//! event stream into pen snapshots, and the pointer decisions (buttons,
//! region re-resolution, the output layout box); the floating-point mapping
//! onto the screen and the Wayland and GTK work surround them.

pub mod config;
pub mod inject;
pub mod pen;
