//! Verified core of a reMarkable-as-pen-tablet toolkit: the USB HID pen and
//! precision-touchpad reports, the FunctionFS descriptors and control-request
//! decisions of the on-device daemon, the evdev frame assembly for pen and
//! touch, configuration precedence, and the host-side pointer decisions.

pub mod bytes;
pub mod hid;
pub mod pen;
pub mod touch;
pub mod gadget;
pub mod config;
pub mod host;
pub mod evdev;
