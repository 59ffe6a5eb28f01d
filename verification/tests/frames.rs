use tigertail::pen::{
    corrected_position, PenTracker, ABS_PRESSURE, ABS_TILT_X, ABS_TILT_Y, ABS_X, ABS_Y,
    BTN_STYLUS, BTN_TOOL_PEN, BTN_TOOL_RUBBER, EV_ABS, EV_KEY, EV_SYN, SYN_REPORT,
};
use tigertail::touch::{
    frame_from_oriented, frames_differ, process_abs_event, raw_contacts,
    resolve_pending_positions, should_suppress_palm, Contact, ContactTracker, FrameState,
    PalmReading, SlotState, TouchFrame, TouchGeometry, ABS_MT_POSITION_X, ABS_MT_POSITION_Y,
    ABS_MT_SLOT, ABS_MT_TRACKING_ID, MAX_CONTACTS,
};

fn geo() -> TouchGeometry {
    TouchGeometry { x_max: 1000, y_max: 500, resolution: 9 }
}

#[test]
fn pen_tracker_defers_position_to_syn() {
    let mut t = PenTracker::new();
    assert!(t.handle_event(EV_ABS, ABS_X, 100).is_none());
    assert!(t.handle_event(EV_ABS, ABS_PRESSURE, 12).is_none());
    assert!(t.handle_event(EV_KEY, BTN_TOOL_PEN, 1).is_none());
    // Pressure and tool apply at once, position waits.
    assert_eq!(t.frame.pressure, 12);
    assert!(t.frame.in_range);
    assert_eq!(t.frame.x, 0);
    let p = t.handle_event(EV_SYN, SYN_REPORT, 0).unwrap();
    assert_eq!(p.x, Some(100));
    assert_eq!(p.y, None);
    assert_eq!(p.position(), None);
    assert_eq!(p.tilt, None);
    assert!(t.frame.tip);
    // Only X arrived: the caller supplies no position, X/Y stay put.
    let f = t.finish(None, None);
    assert_eq!((f.x, f.y), (0, 0));
    // Pending values were taken.
    assert!(t.pending_x.is_none());
}

#[test]
fn pen_tracker_position_and_tilt() {
    let mut t = PenTracker::new();
    t.handle_event(EV_ABS, ABS_X, 10);
    t.handle_event(EV_ABS, ABS_Y, 20);
    t.handle_event(EV_ABS, ABS_TILT_X, 300);
    let p = t.handle_event(EV_SYN, SYN_REPORT, 0).unwrap();
    assert_eq!((p.x, p.y), (Some(10), Some(20)));
    assert_eq!(p.position(), Some((10, 20)));
    assert_eq!(p.tilt, Some((300, 0)));
    assert_eq!(p.last_tilt, (300, 0));
    let f = t.finish(Some((11, 22)), Some((-300, 0)));
    assert_eq!((f.x, f.y, f.tilt_x, f.tilt_y), (11, 22, -300, 0));
    assert!(!f.tip); // no pressure
    // The next tilt event pairs with the remembered other axis.
    t.handle_event(EV_ABS, ABS_TILT_Y, -50);
    let p = t.handle_event(EV_SYN, SYN_REPORT, 0).unwrap();
    assert_eq!(p.tilt, Some((300, -50)));
}

#[test]
fn pen_tracker_tools_and_barrel() {
    let mut t = PenTracker::new();
    t.handle_event(EV_KEY, BTN_TOOL_RUBBER, 1);
    assert!(t.frame.in_range && t.frame.eraser);
    t.handle_event(EV_KEY, BTN_TOOL_PEN, 1);
    assert!(t.frame.in_range && !t.frame.eraser);
    t.handle_event(EV_KEY, BTN_STYLUS, 1);
    assert!(t.frame.barrel);
    t.handle_event(EV_KEY, BTN_TOOL_PEN, 0);
    assert!(!t.frame.in_range);
    // Other event types and SYN codes other than SYN_REPORT are ignored.
    assert!(t.handle_event(EV_SYN, 2, 0).is_none());
    assert!(t.handle_event(0x04, 0, 7).is_none());
}

#[test]
fn corrected_position_clamps() {
    assert_eq!(corrected_position(100, 50, 30, 60, 1000, 1000), (70, 0));
    assert_eq!(corrected_position(990, 10, -20, 0, 1000, 5), (1000, 5));
}

#[test]
fn slot_protocol_and_release() {
    let mut slots = SlotState::new();
    let mut fs = FrameState::new();
    process_abs_event(&mut slots, &mut fs, ABS_MT_SLOT, 1);
    process_abs_event(&mut slots, &mut fs, ABS_MT_TRACKING_ID, 7);
    process_abs_event(&mut slots, &mut fs, ABS_MT_POSITION_X, 100);
    process_abs_event(&mut slots, &mut fs, ABS_MT_POSITION_Y, 200);
    assert_eq!(fs.current_slot, 1);
    assert!(slots.active[1]);
    assert_eq!((slots.x[1], slots.y[1]), (Some(100), Some(200)));
    assert_eq!(fs.pending_positions, vec![(100, 200)]);
    assert_eq!(slots.active_count(), 1);
    // Out-of-range slot numbers are clamped.
    process_abs_event(&mut slots, &mut fs, ABS_MT_SLOT, 99);
    assert_eq!(fs.current_slot, 15);
    process_abs_event(&mut slots, &mut fs, ABS_MT_SLOT, -3);
    assert_eq!(fs.current_slot, 0);
    // Release forgets the position.
    process_abs_event(&mut slots, &mut fs, ABS_MT_SLOT, 1);
    process_abs_event(&mut slots, &mut fs, ABS_MT_TRACKING_ID, -1);
    assert!(!slots.active[1]);
    assert_eq!((slots.x[1], slots.y[1]), (None, None));
    assert_eq!(slots.active_count(), 0);
}

#[test]
fn positional_fallback_assigns_in_slot_order() {
    let mut slots = SlotState::new();
    let mut fs = FrameState::new();
    slots.active[0] = true;
    slots.active[3] = true;
    fs.pending_positions = vec![(1, 2), (3, 4)];
    resolve_pending_positions(&mut slots, &fs);
    assert_eq!((slots.x[0], slots.y[0]), (Some(1), Some(2)));
    assert_eq!((slots.x[3], slots.y[3]), (Some(3), Some(4)));
    // A count mismatch changes nothing.
    fs.pending_positions = vec![(9, 9)];
    resolve_pending_positions(&mut slots, &fs);
    assert_eq!(slots.x[0], Some(1));
}

#[test]
fn frames_from_slots() {
    let mut slots = SlotState::new();
    slots.active[0] = true;
    slots.x[0] = Some(2000);
    slots.y[0] = Some(-4);
    slots.active[2] = true;
    slots.x[2] = Some(5); // no y: not reported
    slots.active[6] = true; // beyond the reported contacts
    slots.x[6] = Some(1);
    slots.y[6] = Some(1);
    let raw = raw_contacts(&slots, 1871, 1403);
    assert_eq!(raw, [Some((1871, 0)), None, None, None, None]);
    // Contacts are packed in slot order and carry the ids handed in.
    let f = frame_from_oriented(
        &[Some((1200, 40)), None, Some((9, 9)), Some((3, 4)), None],
        &[Some(2), Some(1), None, Some(0), None],
        &geo(),
    );
    assert_eq!(f.count, 2);
    assert_eq!(f.contacts[0], Contact { id: 2, tip: true, x: 1000, y: 40 });
    assert_eq!(f.contacts[1], Contact { id: 0, tip: true, x: 3, y: 4 });
    assert_eq!(f.contacts[2], Contact { id: 0, tip: false, x: 0, y: 0 });
    for (i, c) in f.contacts.iter().enumerate() {
        assert_eq!(c.tip, i < f.count as usize);
    }
    assert!(f.count as usize <= MAX_CONTACTS);
}

#[test]
fn palm_rule() {
    assert!(!should_suppress_palm(None, 500));
    let down = PalmReading { pen_down: true, ms_since_pen_up: None };
    assert!(should_suppress_palm(Some(down), 500));
    let recent = PalmReading { pen_down: false, ms_since_pen_up: Some(499) };
    assert!(should_suppress_palm(Some(recent), 500));
    let old = PalmReading { pen_down: false, ms_since_pen_up: Some(500) };
    assert!(!should_suppress_palm(Some(old), 500));
    let never = PalmReading { pen_down: false, ms_since_pen_up: None };
    assert!(!should_suppress_palm(Some(never), 500));
}

fn press(slots: &mut SlotState, fs: &mut FrameState, slot: i32, tracking: i32, x: i32, y: i32) {
    process_abs_event(slots, fs, ABS_MT_SLOT, slot);
    process_abs_event(slots, fs, ABS_MT_TRACKING_ID, tracking);
    process_abs_event(slots, fs, ABS_MT_POSITION_X, x);
    process_abs_event(slots, fs, ABS_MT_POSITION_Y, y);
}

fn release(slots: &mut SlotState, fs: &mut FrameState, slot: i32) {
    process_abs_event(slots, fs, ABS_MT_SLOT, slot);
    process_abs_event(slots, fs, ABS_MT_TRACKING_ID, -1);
}

/// End of an evdev frame, with the panel already oriented like the output.
fn report(t: &mut ContactTracker, slots: &mut SlotState, fs: &mut FrameState, suppressed: bool) -> Option<TouchFrame> {
    resolve_pending_positions(slots, fs);
    fs.pending_positions.clear();
    let raw = raw_contacts(slots, 1000, 500);
    t.next_report(slots, &raw, &geo(), suppressed)
}

fn c(id: u8, tip: bool, x: i32, y: i32) -> Contact {
    Contact { id, tip, x, y }
}

#[test]
fn contact_ids_are_per_touch() {
    let (mut t, mut slots, mut fs) = (ContactTracker::new(), SlotState::new(), FrameState::new());
    press(&mut slots, &mut fs, 0, 7, 10, 20);
    let f = report(&mut t, &mut slots, &mut fs, false).expect("first touch is sent");
    assert_eq!(f.count, 1);
    assert_eq!(f.contacts[0], c(0, true, 10, 20));
    // The finger lifts and the next lands in the same slot within one frame.
    release(&mut slots, &mut fs, 0);
    press(&mut slots, &mut fs, 0, 8, 300, 400);
    let f = report(&mut t, &mut slots, &mut fs, false).expect("lift and press are sent");
    assert_eq!(f.count, 2);
    assert_eq!(f.contacts[0], c(1, true, 300, 400));
    assert_eq!(f.contacts[1], c(0, false, 10, 20));
    // The lift is not repeated; the new touch keeps its id.
    let f = report(&mut t, &mut slots, &mut fs, false).expect("the lift leaves the report");
    assert_eq!(f.count, 1);
    assert_eq!(f.contacts[0], c(1, true, 300, 400));
    assert!(report(&mut t, &mut slots, &mut fs, false).is_none());
    // A move keeps the id.
    process_abs_event(&mut slots, &mut fs, ABS_MT_POSITION_X, 301);
    let f = report(&mut t, &mut slots, &mut fs, false).expect("moves are sent");
    assert_eq!(f.contacts[0], c(1, true, 301, 400));
}

#[test]
fn lift_is_reported_once_with_tip_cleared() {
    let (mut t, mut slots, mut fs) = (ContactTracker::new(), SlotState::new(), FrameState::new());
    press(&mut slots, &mut fs, 0, 1, 10, 10);
    press(&mut slots, &mut fs, 1, 2, 20, 20);
    let f = report(&mut t, &mut slots, &mut fs, false).unwrap();
    assert_eq!((f.count, f.contacts[0].id, f.contacts[1].id), (2, 0, 1));
    release(&mut slots, &mut fs, 0);
    let f = report(&mut t, &mut slots, &mut fs, false).expect("lift is sent");
    assert_eq!(f.count, 2);
    assert_eq!(f.contacts[0], c(1, true, 20, 20));
    assert_eq!(f.contacts[1], c(0, false, 10, 10));
    let f = report(&mut t, &mut slots, &mut fs, false).expect("one frame without the lift");
    assert_eq!(f.count, 1);
    assert_eq!(f.contacts[0], c(1, true, 20, 20));
    assert!(report(&mut t, &mut slots, &mut fs, false).is_none());
    release(&mut slots, &mut fs, 1);
    let f = report(&mut t, &mut slots, &mut fs, false).expect("last lift is sent");
    assert_eq!(f.count, 1);
    assert_eq!(f.contacts[0], c(1, false, 20, 20));
    let f = report(&mut t, &mut slots, &mut fs, false).expect("then the empty report");
    assert_eq!(f, TouchFrame::default());
    assert!(report(&mut t, &mut slots, &mut fs, false).is_none());
}

#[test]
fn active_contacts_are_packed_first() {
    let (mut t, mut slots, mut fs) = (ContactTracker::new(), SlotState::new(), FrameState::new());
    press(&mut slots, &mut fs, 1, 5, 40, 50);
    press(&mut slots, &mut fs, 3, 6, 60, 70);
    let f = report(&mut t, &mut slots, &mut fs, false).unwrap();
    assert_eq!(f.count, 2);
    assert_eq!(f.contacts[0], c(0, true, 40, 50));
    assert_eq!(f.contacts[1], c(1, true, 60, 70));
    for (i, e) in f.contacts.iter().enumerate() {
        assert_eq!(e.tip, i < f.count as usize);
    }
}

#[test]
fn palm_suppression_lifts_every_contact_once() {
    let (mut t, mut slots, mut fs) = (ContactTracker::new(), SlotState::new(), FrameState::new());
    press(&mut slots, &mut fs, 0, 1, 10, 10);
    press(&mut slots, &mut fs, 2, 2, 30, 30);
    let down = report(&mut t, &mut slots, &mut fs, false).unwrap();
    let f = report(&mut t, &mut slots, &mut fs, true).expect("suppression lifts");
    assert_eq!(f.count, 2);
    assert_eq!(f.contacts[0], c(0, false, 10, 10));
    assert_eq!(f.contacts[1], c(1, false, 30, 30));
    let rel = report(&mut t, &mut slots, &mut fs, true).expect("then the empty report");
    assert_eq!(rel, TouchFrame::default());
    assert!(report(&mut t, &mut slots, &mut fs, true).is_none());
    assert!(frames_differ(&down, &rel));
    assert!(!frames_differ(&rel, &TouchFrame::default()));
    // Touch that comes back is reported as new touches.
    let f = report(&mut t, &mut slots, &mut fs, false).unwrap();
    assert_eq!(f.count, 2);
    assert_eq!(f.contacts[0], c(0, true, 10, 10));
    assert_eq!(f.contacts[1], c(1, true, 30, 30));
}

#[test]
fn new_touch_waits_while_every_id_is_taken() {
    let (mut t, mut slots, mut fs) = (ContactTracker::new(), SlotState::new(), FrameState::new());
    for s in 0..5 {
        press(&mut slots, &mut fs, s, 10 + s, 10 * s, 5);
    }
    let f = report(&mut t, &mut slots, &mut fs, false).unwrap();
    assert_eq!(f.count, 5);
    // Slot 2 is released and reused within one frame: the lift takes the
    // last entry, and the new touch waits for an id.
    release(&mut slots, &mut fs, 2);
    press(&mut slots, &mut fs, 2, 99, 222, 7);
    let f = report(&mut t, &mut slots, &mut fs, false).unwrap();
    assert_eq!(f.count, 5);
    assert_eq!(f.contacts[4], c(2, false, 20, 5));
    assert_eq!(f.contacts.iter().filter(|e| e.tip).count(), 4);
    // Next frame: the freed id goes to the new touch.
    let f = report(&mut t, &mut slots, &mut fs, false).unwrap();
    assert_eq!(f.count, 5);
    assert_eq!(f.contacts[2], c(2, true, 222, 7));
    let mut ids: Vec<u8> = f.contacts.iter().map(|e| e.id).collect();
    ids.sort();
    assert_eq!(ids, vec![0, 1, 2, 3, 4]);
}
