use tigertail::evdev::{ends_line, raw_label, RawLabel};
use tigertail::hid::touchpad::scan_time_100us;
use tigertail::host::pen::{detected_device, mentions_permission_denied};

#[test]
fn raw_event_labels() {
    assert_eq!(raw_label(1, 0x14a), RawLabel::Key(0x14a));
    assert_eq!(raw_label(3, 0x00), RawLabel::X);
    assert_eq!(raw_label(3, 0x18), RawLabel::Pressure);
    assert_eq!(raw_label(3, 0x2f), RawLabel::Slot);
    assert_eq!(raw_label(3, 0x39), RawLabel::Track);
    assert_eq!(raw_label(3, 0x3a), RawLabel::MtPressure);
    assert_eq!(raw_label(3, 0x28), RawLabel::Abs(0x28));
    assert_eq!(raw_label(4, 5), RawLabel::Other(4, 5));
    assert!(ends_line(0, 0));
    assert!(!ends_line(0, 2));
    assert!(!ends_line(3, 0));
}

#[test]
fn scan_time_follows_the_clock_and_wraps() {
    assert_eq!(scan_time_100us(u16::MAX, 0), 0);
    assert_eq!(scan_time_100us(0, 199), 1);
    assert_eq!(scan_time_100us(7, 6_553_500), 65535);
    assert_eq!(scan_time_100us(65535, 6_553_600), 0);
    assert_eq!(scan_time_100us(0, 6_553_799), 1);
}

#[test]
fn scan_time_changes_between_reports() {
    // Two reports 50 us apart read the same clock tick: the second moves on.
    let first = scan_time_100us(u16::MAX, 100);
    let second = scan_time_100us(first, 150);
    assert_eq!(first, 1);
    assert_eq!(second, 2);
    // At the top of the range it wraps to 0.
    assert_eq!(scan_time_100us(65535, 6_553_550), 0);
    // Once the clock moves past, it is followed again.
    assert_eq!(scan_time_100us(second, 1_000), 10);
}

#[test]
fn autodetect_output() {
    assert_eq!(detected_device(b"/dev/input/event1\n/dev/input/event3\n"), Some(b"/dev/input/event1".to_vec()));
    assert_eq!(detected_device(b"/dev/input/event1\r\n"), Some(b"/dev/input/event1".to_vec()));
    assert_eq!(detected_device(b"/dev/input/event7"), Some(b"/dev/input/event7".to_vec()));
    // A carriage return that no newline follows is part of the line.
    assert_eq!(detected_device(b"/dev/input/x\r"), Some(b"/dev/input/x\r".to_vec()));
    assert_eq!(detected_device(b"/dev/input/x\r\n"), Some(b"/dev/input/x".to_vec()));
    assert_eq!(detected_device(b""), None);
    assert_eq!(detected_device(b"\n/dev/input/event1\n"), None);
    assert_eq!(detected_device(b"no such device\n"), None);
}

#[test]
fn permission_denied_hint() {
    assert!(mentions_permission_denied(b"root@10.11.99.1: Permission denied (publickey).\n"));
    assert!(mentions_permission_denied(b"Permission denied"));
    assert!(!mentions_permission_denied(b"Connection timed out"));
    assert!(!mentions_permission_denied(b"Permission"));
}
