use tigertail::host::config::{EraserAction, Orientation};
use tigertail::host::inject::{is_contact, layout_bbox, ButtonLatch, LayoutBox, OutputRect};
use tigertail::host::pen::{PenSnapshot, PenState, ABS_PRESSURE, ABS_X, BTN_TOOL_PEN, BTN_TOOL_RUBBER, BTN_TOUCH, EV_ABS, EV_KEY, EV_SYN};

fn record(typ: u16, code: u16, value: i32) -> [u8; 16] {
    let mut b = [0u8; 16];
    b[0..4].copy_from_slice(&77u32.to_le_bytes());
    b[8..10].copy_from_slice(&typ.to_le_bytes());
    b[10..12].copy_from_slice(&code.to_le_bytes());
    b[12..16].copy_from_slice(&value.to_le_bytes());
    b
}

#[test]
fn decoder_snapshots_on_syn() {
    let mut s = PenState::new();
    assert!(s.feed(&record(EV_ABS, ABS_X, 20000)).is_none());
    assert!(s.feed(&record(EV_ABS, ABS_PRESSURE, -1)).is_none());
    assert!(s.feed(&record(EV_KEY, BTN_TOOL_RUBBER, 1)).is_none());
    assert!(s.feed(&record(EV_KEY, BTN_TOUCH, 1)).is_none());
    let snap = s.feed(&record(EV_SYN, 0, 0)).expect("snapshot at SYN");
    assert_eq!(snap.x, 20000);
    assert_eq!(snap.pressure, -1);
    assert!(snap.in_range && snap.eraser && snap.touch);
    s.feed(&record(EV_KEY, BTN_TOOL_RUBBER, 0));
    s.feed(&record(EV_KEY, BTN_TOOL_PEN, 1));
    let snap = s.feed(&record(EV_SYN, 3, 9)).unwrap();
    assert!(snap.in_range && !snap.eraser);
    let released = PenSnapshot::default();
    assert!(!released.in_range && !released.touch);
}

#[test]
fn contact_rule() {
    assert!(is_contact(0, 0, true));
    assert!(!is_contact(0, 4095, false));
    assert!(is_contact(600, 600, false));
    assert!(!is_contact(600, 599, true));
}

#[test]
fn buttons_follow_contact_and_release_out_of_range() {
    let mut l = ButtonLatch::new();
    let s = l.step(true, false, false, EraserAction::RightClick, true);
    assert!(s.resolve_region && s.reset_smoothing && s.move_cursor && s.frame);
    assert_eq!(s.buttons, [None, None, None]);
    let s = l.step(true, true, false, EraserAction::RightClick, false);
    assert!(!s.resolve_region && s.move_cursor);
    assert_eq!(s.buttons, [Some(true), None, None]);
    assert_eq!(l.held, [true, false, false]);
    // Eraser end: the left button is released, the right one pressed.
    let s = l.step(true, true, true, EraserAction::RightClick, false);
    assert_eq!(s.buttons, [Some(false), Some(true), None]);
    let s = l.step(true, true, true, EraserAction::MiddleClick, false);
    assert_eq!(s.buttons, [None, Some(false), Some(true)]);
    // Out of range: everything released, no motion.
    let s = l.step(false, true, true, EraserAction::MiddleClick, true);
    assert!(!s.move_cursor && s.reset_smoothing && s.frame);
    assert_eq!(s.buttons, [None, None, Some(false)]);
    assert_eq!(l.held, [false, false, false]);
    // Nothing to send.
    let s = l.step(false, false, false, EraserAction::NoAction, true);
    assert!(!s.frame);
    // Hover without hover-moves: no motion, no frame.
    let s = l.step(true, false, false, EraserAction::NoAction, false);
    assert!(!s.move_cursor && !s.frame && s.resolve_region);
    let s = l.step(true, true, true, EraserAction::NoAction, false);
    assert_eq!(s.buttons, [None, None, None]);
    assert!(s.move_cursor);
}

#[test]
fn layout_box() {
    assert_eq!(layout_bbox(&[]), LayoutBox { x: 0, y: 0, w: 1920, h: 1080 });
    let outs = [
        OutputRect { x: 0, y: 0, w: 0, h: 0 },
        OutputRect { x: 1920, y: -200, w: 1280, h: 1024 },
        OutputRect { x: 0, y: 0, w: 1920, h: 1080 },
    ];
    assert_eq!(layout_bbox(&outs), LayoutBox { x: 0, y: -200, w: 3200, h: 1280 });
    assert_eq!(layout_bbox(&outs[..1]), LayoutBox { x: 0, y: 0, w: 1920, h: 1080 });
}

#[test]
fn enums_compare() {
    assert_ne!(Orientation::Portrait, Orientation::LandscapeLeft);
    assert_eq!(EraserAction::NoAction, EraserAction::NoAction);
}
