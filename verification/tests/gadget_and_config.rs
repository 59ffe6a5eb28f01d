use tigertail::config::{merge_switches, resolve_grab, validate, CliSwitches, ConfigError, FileSwitches};
use tigertail::gadget::{ep0_step, Ep0Action};
use tigertail::gadget::{
    feature_access, interface_reply, plan_gadget, stray_reply, FeatureAccess, GadgetPlan, Worker,
};
use tigertail::gadget::{
    descriptors_blob, descriptors_blob_for, feature_report_id, interface_of, hid_class_descriptor, parse_events, setup_reply, speed_descriptors,
    strings_blob, Ep0Event, SetupReply, SetupRequest, DESCRIPTORS_BLOB_LEN, HID_REQ_GET_IDLE,
    HID_REQ_GET_PROTOCOL, HID_REQ_GET_REPORT, HID_REQ_SET_IDLE, HID_REQ_SET_PROTOCOL,
    HID_REQ_SET_REPORT, USB_REQ_GET_DESCRIPTOR,
};

#[test]
fn hid_class_descriptor_bytes() {
    assert_eq!(hid_class_descriptor(93), [9, 0x21, 0x11, 0x01, 0, 1, 0x22, 93, 0]);
    assert_eq!(hid_class_descriptor(553), [9, 0x21, 0x11, 0x01, 0, 1, 0x22, 0x29, 0x02]);
}

#[test]
fn speed_descriptor_intervals() {
    let fs = speed_descriptors(93, false);
    let hs = speed_descriptors(93, true);
    assert_eq!(fs.len(), 25);
    assert_eq!(&fs[..9], &[9, 4, 0, 0, 1, 3, 0, 0, 0]);
    assert_eq!(&fs[18..], &[7, 5, 0x81, 3, 16, 0, 1]);
    assert_eq!(hs[24], 4);
}

#[test]
fn blobs_declare_their_length() {
    let d = descriptors_blob(93);
    assert_eq!(d.len(), DESCRIPTORS_BLOB_LEN);
    assert_eq!(&d[..20], &[3, 0, 0, 0, 70, 0, 0, 0, 0x43, 0, 0, 0, 3, 0, 0, 0, 3, 0, 0, 0]);
    assert_eq!(u32::from_le_bytes([d[4], d[5], d[6], d[7]]) as usize, d.len());
    let s = strings_blob();
    assert_eq!(s, vec![2, 0, 0, 0, 16, 0, 0, 0, 0, 0, 0, 0, 0, 0, 0, 0]);
}

#[test]
fn ep0_events_parse() {
    let mut buf = vec![0u8; 12 * 3 + 5];
    buf[8] = 2; // enable
    buf[12..20].copy_from_slice(&[0x81, 6, 0x00, 0x22, 1, 0, 0xFF, 0x00]);
    buf[20] = 4; // setup
    buf[32] = 1; // bind
    let evs = parse_events(&buf);
    assert_eq!(evs.len(), 3);
    assert_eq!(evs[0], Ep0Event::Enable);
    assert_eq!(
        evs[1],
        Ep0Event::Setup(SetupRequest { request_type: 0x81, request: 6, value: 0x2200, index: 1, length: 255 })
    );
    assert_eq!(evs[2], Ep0Event::Other);
    buf[8] = 3;
    assert_eq!(parse_events(&buf)[0], Ep0Event::Disable);
}

fn req(request_type: u8, request: u8, value: u16, length: u16) -> SetupRequest {
    SetupRequest { request_type, request, value, index: 0, length }
}

fn sent(r: SetupReply) -> Vec<u8> {
    match r {
        SetupReply::Send(v) => v,
        other => panic!("expected data, got {:?}", other),
    }
}

#[test]
fn setup_replies() {
    let desc: Vec<u8> = (0..93).collect();
    let last = [1, 2, 3, 4, 5, 6, 7, 8, 9];
    // Report descriptor, whole and cut to wLength.
    assert_eq!(sent(setup_reply(req(0x81, USB_REQ_GET_DESCRIPTOR, 0x2200, 255), &desc, &last)), desc);
    assert_eq!(sent(setup_reply(req(0x81, USB_REQ_GET_DESCRIPTOR, 0x2200, 8), &desc, &last)), desc[..8].to_vec());
    // HID class descriptor names the report descriptor length.
    assert_eq!(
        sent(setup_reply(req(0x81, USB_REQ_GET_DESCRIPTOR, 0x2100, 9), &desc, &last)),
        vec![9, 0x21, 0x11, 0x01, 0, 1, 0x22, 93, 0]
    );
    assert_eq!(sent(setup_reply(req(0xA1, HID_REQ_GET_REPORT, 0x0100, 64), &desc, &last)), last.to_vec());
    assert_eq!(sent(setup_reply(req(0xA1, HID_REQ_GET_IDLE, 0, 1), &desc, &last)), vec![0]);
    assert_eq!(sent(setup_reply(req(0xA1, HID_REQ_GET_PROTOCOL, 0, 1), &desc, &last)), vec![1]);
    assert!(matches!(setup_reply(req(0xA1, HID_REQ_GET_PROTOCOL, 0, 0), &desc, &last), SetupReply::Send(v) if v.is_empty()));
    // Unsupported IN: stall. Other descriptor types too.
    assert!(matches!(setup_reply(req(0x81, USB_REQ_GET_DESCRIPTOR, 0x0300, 9), &desc, &last), SetupReply::StallIn));
    assert!(matches!(setup_reply(req(0xC1, 1, 0, 9), &desc, &last), SetupReply::StallIn));
    // OUT requests.
    assert!(matches!(setup_reply(req(0x21, HID_REQ_SET_IDLE, 0, 0), &desc, &last), SetupReply::Ack));
    assert!(matches!(setup_reply(req(0x21, HID_REQ_SET_PROTOCOL, 1, 0), &desc, &last), SetupReply::Ack));
    assert!(matches!(setup_reply(req(0x21, HID_REQ_SET_REPORT, 0x0200, 2), &desc, &last), SetupReply::Discard(2)));
    assert!(matches!(setup_reply(req(0x01, 11, 0, 0), &desc, &last), SetupReply::StallOut));
}

#[test]
fn grab_precedence() {
    assert!(resolve_grab(true, true, false, true, Some(false)));
    assert!(!resolve_grab(false, true, true, false, Some(true)));
    assert!(resolve_grab(false, false, true, true, Some(false)));
    assert!(!resolve_grab(false, false, false, true, Some(true)));
    assert!(!resolve_grab(false, false, false, false, Some(false)));
    assert!(resolve_grab(false, false, false, false, None));
}

fn no_cli() -> CliSwitches {
    CliSwitches {
        pen_device: None,
        touch_device: None,
        no_pen: false,
        no_touch: false,
        grab_pen: false,
        no_grab_pen: false,
        grab_touch: false,
        no_grab_touch: false,
        grab_input: false,
        no_grab_input: false,
        no_palm_rejection: false,
        palm_grace_ms: None,
        usb_product: None,
        usb_manufacturer: None,
    }
}

fn empty_file() -> FileSwitches {
    FileSwitches {
        pen_device: None,
        touch_device: None,
        pen: None,
        touch: None,
        grab_pen: None,
        grab_touch: None,
        grab_input: None,
        palm_rejection: None,
        palm_grace_ms: None,
        usb_product: None,
        usb_manufacturer: None,
    }
}

#[test]
fn merge_defaults() {
    let m = merge_switches(no_cli(), empty_file(), "/dev/input/event1".into(), "/dev/input/event2".into());
    assert_eq!(m.pen_device, "/dev/input/event1");
    assert_eq!(m.touch_device, "/dev/input/event2");
    assert!(m.pen && m.touch && m.grab_pen && m.grab_touch && m.palm_rejection);
    assert_eq!(m.palm_grace_ms, 500);
    assert_eq!(m.usb_product, None);
}

#[test]
fn merge_cli_over_file_over_default() {
    let mut cli = no_cli();
    cli.pen_device = Some("/dev/cli".into());
    cli.palm_grace_ms = Some(100);
    cli.no_touch = true;
    cli.no_grab_input = true;
    cli.grab_touch = true;
    let mut file = empty_file();
    file.pen_device = Some("/dev/file".into());
    file.touch_device = Some("/dev/file-touch".into());
    file.palm_grace_ms = Some(250);
    file.pen = Some(false);
    file.touch = Some(true);
    file.grab_input = Some(true);
    file.palm_rejection = Some(false);
    file.usb_product = Some("tigertail".into());
    let m = merge_switches(cli, file, "/dev/a".into(), "/dev/b".into());
    assert_eq!(m.pen_device, "/dev/cli");
    assert_eq!(m.touch_device, "/dev/file-touch");
    assert_eq!(m.palm_grace_ms, 100);
    assert!(!m.pen); // file turns it off
    assert!(!m.touch); // cli turns it off
    assert!(!m.grab_pen); // --no-grab-input beats the file
    assert!(m.grab_touch); // per-device flag beats the alias
    assert!(!m.palm_rejection);
    assert_eq!(m.usb_product.as_deref(), Some("tigertail"));
    let mut file = empty_file();
    file.grab_input = Some(false);
    file.grab_touch = Some(true);
    let m = merge_switches(no_cli(), file, "/dev/a".into(), "/dev/b".into());
    assert!(!m.grab_pen); // alias in the file
    assert!(m.grab_touch); // per-device key beats the alias
}

#[test]
fn validation_errors() {
    assert_eq!(validate(false, false, false, false, true), Err(ConfigError::NothingToForward));
    assert_eq!(validate(true, false, true, true, true), Err(ConfigError::AspectRatioAndResolution));
    assert_eq!(validate(false, true, false, false, false), Err(ConfigError::FitNeedsTarget));
    assert_eq!(validate(true, true, true, false, false), Ok(()));
    assert_eq!(validate(true, false, false, false, true), Ok(()));
    assert_eq!(
        ConfigError::NothingToForward.message(),
        "Nothing to forward: both pen and touch are disabled"
    );
    assert_eq!(ConfigError::AspectRatioAndResolution.message(), "Cannot set both aspect_ratio and resolution");
    assert!(ConfigError::FitNeedsTarget.message().starts_with("--fit"));
}

#[test]
fn multi_interface_blob() {
    assert_eq!(descriptors_blob_for(&[93]), descriptors_blob(93));
    let b = descriptors_blob_for(&[93, 553]);
    assert_eq!(b.len(), 120);
    assert_eq!(&b[..20], &[3, 0, 0, 0, 120, 0, 0, 0, 0x43, 0, 0, 0, 6, 0, 0, 0, 6, 0, 0, 0]);
    // Full speed: interface 0 then 1, endpoints 0x81 and 0x82.
    assert_eq!(&b[20..23], &[9, 4, 0]);
    assert_eq!(&b[45..48], &[9, 4, 1]);
    assert_eq!(b[20 + 20], 0x81);
    assert_eq!(b[45 + 20], 0x82);
    // The second interface's HID descriptor names 553 = 0x0229 bytes.
    assert_eq!(&b[45 + 16..45 + 18], &[0x29, 0x02]);
    // High speed sets follow, with interval 4.
    assert_eq!(&b[70..73], &[9, 4, 0]);
    assert_eq!(b[119], 4);
}

#[test]
fn feature_and_interface_addressing() {
    let r = SetupRequest { request_type: 0xA1, request: 1, value: 0x0304, index: 0x0101, length: 2 };
    assert_eq!(feature_report_id(r), Some(4));
    assert_eq!(interface_of(r), 1);
    let input = SetupRequest { value: 0x0100, ..r };
    assert_eq!(feature_report_id(input), None);
}

#[test]
fn feature_reports_are_read_and_stored_by_class_requests() {
    // Class GET_REPORT (IN) of feature report 4.
    assert_eq!(feature_access(req(0xA1, HID_REQ_GET_REPORT, 0x0304, 2)), FeatureAccess::Read(4));
    // Class SET_REPORT (OUT) of feature report 5.
    assert_eq!(feature_access(req(0x21, HID_REQ_SET_REPORT, 0x0305, 2)), FeatureAccess::Store(5));
    // An input report, a standard request, or the wrong direction touch nothing.
    assert_eq!(feature_access(req(0xA1, HID_REQ_GET_REPORT, 0x0101, 35)), FeatureAccess::Untouched);
    assert_eq!(feature_access(req(0x81, HID_REQ_GET_REPORT, 0x0304, 2)), FeatureAccess::Untouched);
    assert_eq!(feature_access(req(0xA1, HID_REQ_SET_REPORT, 0x0304, 2)), FeatureAccess::Untouched);
    assert_eq!(feature_access(req(0x21, HID_REQ_SET_IDLE, 0x0304, 0)), FeatureAccess::Untouched);
}

#[test]
fn get_report_answers_the_feature_or_the_last_input_report() {
    let desc = [0x05u8, 0x0D];
    let last = [1u8, 2, 3];
    let r = req(0xA1, HID_REQ_GET_REPORT, 0x0304, 64);
    assert!(matches!(interface_reply(r, &desc, Some(&[4, 3]), &last), SetupReply::Send(v) if v == vec![4, 3]));
    assert!(matches!(interface_reply(r, &desc, None, &last), SetupReply::Send(v) if v == vec![1, 2, 3]));
    let w = req(0x21, HID_REQ_SET_REPORT, 0x0304, 2);
    assert!(matches!(interface_reply(w, &desc, None, &last), SetupReply::Discard(2)));
    assert!(matches!(stray_reply(r), SetupReply::StallIn));
    assert!(matches!(stray_reply(w), SetupReply::StallOut));
}

#[test]
fn gadget_plan_orders_interfaces_and_shares_palm_state() {
    assert_eq!(
        plan_gadget(true, true, true, true, true),
        GadgetPlan { pen: Worker::Report(0), touch: Worker::Report(1), interfaces: 2, share_palm: true }
    );
    assert_eq!(
        plan_gadget(false, true, true, false, true),
        GadgetPlan { pen: Worker::HoldGrabbed, touch: Worker::Report(0), interfaces: 1, share_palm: false }
    );
    assert_eq!(
        plan_gadget(true, false, false, true, true),
        GadgetPlan { pen: Worker::Report(0), touch: Worker::HoldGrabbed, interfaces: 1, share_palm: false }
    );
    assert_eq!(
        plan_gadget(true, true, false, false, false).share_palm,
        false
    );
    assert_eq!(
        plan_gadget(false, false, false, false, true),
        GadgetPlan { pen: Worker::Idle, touch: Worker::Idle, interfaces: 0, share_palm: false }
    );
}

#[test]
fn ep0_flag_follows_enable_and_disable_and_requests_are_answered_in_order() {
    let a = req(0x81, USB_REQ_GET_DESCRIPTOR, 0x2200, 255);
    let b = req(0xA1, HID_REQ_GET_REPORT, 0x0304, 2);
    let events = [Ep0Event::Setup(a), Ep0Event::Enable, Ep0Event::Other, Ep0Event::Setup(b), Ep0Event::Disable, Ep0Event::Other];
    let mut enabled = false;
    let mut flags = Vec::new();
    let mut answered = Vec::new();
    for ev in events {
        let (e, action) = ep0_step(enabled, ev);
        enabled = e;
        flags.push(enabled);
        if let Ep0Action::Reply(r) = action {
            answered.push(r);
        }
    }
    assert_eq!(flags, vec![false, true, true, true, false, false]);
    assert_eq!(answered, vec![a, b]);
    assert_eq!(ep0_step(true, Ep0Event::Setup(a)), (true, Ep0Action::Reply(a)));
    assert_eq!(ep0_step(false, Ep0Event::Other), (false, Ep0Action::Nothing));
}
