//! FunctionFS side of the USB HID function: the descriptor and string blobs
//! written to `ep0`, the parsing of `ep0` events, and the answer to each HID
//! control request. The file and mount work that surrounds them (configfs,
//! UDC rebinding, the `ep0` thread) is done by the daemon around these.

use vstd::prelude::*;

use crate::bytes::{hi, hi_byte, le16, le32, le32_bytes, le32_of, lemma_le32_split, lo, lo_byte, push_all};

verus! {

// linux/usb/functionfs.h
pub const FUNCTIONFS_STRINGS_MAGIC: u32 = 2;
pub const FUNCTIONFS_DESCRIPTORS_MAGIC_V2: u32 = 3;
pub const FUNCTIONFS_HAS_FS_DESC: u32 = 1;
pub const FUNCTIONFS_HAS_HS_DESC: u32 = 2;
pub const FUNCTIONFS_ALL_CTRL_RECIP: u32 = 64;

pub const EVENT_SIZE: usize = 12;
pub const FUNCTIONFS_ENABLE: u8 = 2;
pub const FUNCTIONFS_DISABLE: u8 = 3;
pub const FUNCTIONFS_SETUP: u8 = 4;

// USB / HID control requests.
pub const USB_DIR_IN: u8 = 0x80;
pub const USB_REQ_GET_DESCRIPTOR: u8 = 6;
pub const USB_DT_HID: u8 = 0x21;
pub const USB_DT_REPORT: u8 = 0x22;
pub const HID_REQ_GET_REPORT: u8 = 0x01;
pub const HID_REQ_GET_IDLE: u8 = 0x02;
pub const HID_REQ_GET_PROTOCOL: u8 = 0x03;
pub const HID_REQ_SET_REPORT: u8 = 0x09;
pub const HID_REQ_SET_IDLE: u8 = 0x0A;
pub const HID_REQ_SET_PROTOCOL: u8 = 0x0B;

/// Length of the descriptor blob: a 20-byte header and two 25-byte speed
/// sets.
pub const DESCRIPTORS_BLOB_LEN: usize = 70;

/// Length of the (empty) strings blob.
pub const STRINGS_BLOB_LEN: usize = 16;

/// The 9-byte HID class descriptor referencing a report descriptor of
/// `len` bytes (HID 1.11, no country, one report descriptor).
pub open spec fn hid_class_bytes(len: u16) -> Seq<u8> {
    seq![9u8, USB_DT_HID, 0x11, 0x01, 0, 1, USB_DT_REPORT, lo_byte(len), hi_byte(len)]
}

/// Interface (class HID, one endpoint), HID class, and interrupt-IN endpoint
/// descriptors for one speed: 16-byte packets polled every millisecond
/// (interval 1 frame at full speed, 2^(4-1) microframes at high speed).
pub open spec fn speed_bytes(len: u16, high_speed: bool) -> Seq<u8> {
    interface_bytes(len, high_speed, 0, 0x81)
}

/// The same three descriptors for interface `number` with its interrupt-IN
/// endpoint at `endpoint`.
pub open spec fn interface_bytes(len: u16, high_speed: bool, number: u8, endpoint: u8) -> Seq<u8> {
    seq![9u8, 4, number, 0, 1, 3, 0, 0, 0] + hid_class_bytes(len) + seq![
        7u8,
        5,
        endpoint,
        3,
        16,
        0,
        if high_speed { 4u8 } else { 1u8 },
    ]
}

/// The FunctionFS v2 descriptor blob: magic, total length, flags (full and
/// high speed descriptors, all interface control requests forwarded), three
/// descriptors per speed, then the two speed sets.
pub open spec fn descriptors_bytes(len: u16) -> Seq<u8> {
    le32_bytes(FUNCTIONFS_DESCRIPTORS_MAGIC_V2) + le32_bytes(DESCRIPTORS_BLOB_LEN as u32) + le32_bytes(
        FUNCTIONFS_HAS_FS_DESC | FUNCTIONFS_HAS_HS_DESC | FUNCTIONFS_ALL_CTRL_RECIP,
    ) + le32_bytes(3) + le32_bytes(3) + speed_bytes(len, false) + speed_bytes(len, true)
}

/// The FunctionFS strings blob: magic, length, no strings, no languages.
pub open spec fn strings_bytes() -> Seq<u8> {
    le32_bytes(FUNCTIONFS_STRINGS_MAGIC) + le32_bytes(STRINGS_BLOB_LEN as u32) + le32_bytes(0)
        + le32_bytes(0)
}

/// The 9-byte USB HID class descriptor referencing the report descriptor.
pub fn hid_class_descriptor(report_desc_len: u16) -> (r: [u8; 9])
    ensures
        r@ == hid_class_bytes(report_desc_len),
{
    [
        9,  // bLength
        USB_DT_HID,
        0x11,
        0x01,  // bcdHID 1.11
        0,  // bCountryCode
        1,  // bNumDescriptors
        USB_DT_REPORT,
        lo(report_desc_len),
        hi(report_desc_len),
    ]
}

/// Interface + HID + interrupt-IN endpoint descriptors for one speed.
pub fn speed_descriptors(report_desc_len: u16, high_speed: bool) -> (d: Vec<u8>)
    ensures
        d@ == speed_bytes(report_desc_len, high_speed),
{
    interface_descriptors(report_desc_len, high_speed, 0, 0x81)
}

/// Interface + HID + interrupt-IN endpoint descriptors of interface
/// `number` (function-local) with its endpoint at `endpoint`.
pub fn interface_descriptors(report_desc_len: u16, high_speed: bool, number: u8, endpoint: u8) -> (d: Vec<u8>)
    ensures
        d@ == interface_bytes(report_desc_len, high_speed, number, endpoint),
{
    let mut d: Vec<u8> = Vec::new();
    // Interface descriptor: class HID, no boot protocol. FunctionFS rewrites
    // bInterfaceNumber to whatever slot the composite assigns.
    push_all(&mut d, &[9, 4, number, 0, 1, 3, 0, 0, 0]);
    push_all(&mut d, &hid_class_descriptor(report_desc_len));
    // Endpoint: interrupt IN. 16-byte packets fit the report; 1 ms polling
    // both at full speed (frames) and high speed (2^(4-1) microframes).
    let interval: u8 = if high_speed {
        4
    } else {
        1
    };
    push_all(&mut d, &[7, 5, endpoint, 3, 16, 0, interval]);
    d
}

/// FunctionFS v2 descriptor blob (full-speed + high-speed, and forwarding of
/// all interface-recipient control requests so the HID GET_DESCRIPTOR
/// reaches us).
pub fn descriptors_blob(report_desc_len: u16) -> (blob: Vec<u8>)
    ensures
        blob@ == descriptors_bytes(report_desc_len),
        blob@.len() == DESCRIPTORS_BLOB_LEN,
{
    let fs = speed_descriptors(report_desc_len, false);
    let hs = speed_descriptors(report_desc_len, true);
    let len = (20 + fs.len() + hs.len()) as u32;

    let mut blob: Vec<u8> = Vec::new();
    push_all(&mut blob, &le32_of(FUNCTIONFS_DESCRIPTORS_MAGIC_V2));
    push_all(&mut blob, &le32_of(len));
    push_all(
        &mut blob,
        &le32_of(FUNCTIONFS_HAS_FS_DESC | FUNCTIONFS_HAS_HS_DESC | FUNCTIONFS_ALL_CTRL_RECIP),
    );
    // One descriptor count per HAS_*_DESC flag: 3 descriptors each.
    push_all(&mut blob, &le32_of(3));
    push_all(&mut blob, &le32_of(3));
    push_all(&mut blob, fs.as_slice());
    push_all(&mut blob, hs.as_slice());
    blob
}


/// Largest number of HID interfaces one function carries (endpoints
/// 0x81..=0x8F).
pub const MAX_INTERFACES: usize = 15;

/// The descriptor sets of interfaces `0..n` for one speed, interface `i`
/// with report descriptor length `lens[i]` and endpoint `0x81 + i`.
pub open spec fn all_interfaces_bytes(lens: Seq<u16>, high_speed: bool, n: int) -> Seq<u8>
    decreases n,
{
    if n <= 0 {
        Seq::empty()
    } else {
        all_interfaces_bytes(lens, high_speed, n - 1) + interface_bytes(
            lens[n - 1],
            high_speed,
            (n - 1) as u8,
            (0x81 + n - 1) as u8,
        )
    }
}

/// The FunctionFS v2 descriptor blob for several HID interfaces, in order:
/// header with three descriptors per interface for each speed, then the
/// full-speed and the high-speed sets; ep files follow descriptor order.
pub open spec fn multi_descriptors_bytes(lens: Seq<u16>) -> Seq<u8> {
    let n = lens.len() as int;
    le32_bytes(FUNCTIONFS_DESCRIPTORS_MAGIC_V2) + le32_bytes((20 + 50 * n) as u32) + le32_bytes(
        FUNCTIONFS_HAS_FS_DESC | FUNCTIONFS_HAS_HS_DESC | FUNCTIONFS_ALL_CTRL_RECIP,
    ) + le32_bytes((3 * n) as u32) + le32_bytes((3 * n) as u32) + all_interfaces_bytes(lens, false, n)
        + all_interfaces_bytes(lens, true, n)
}

proof fn lemma_all_interfaces_len(lens: Seq<u16>, high_speed: bool, n: int)
    requires
        0 <= n,
    ensures
        all_interfaces_bytes(lens, high_speed, n).len() == 25 * n,
    decreases n,
{
    if n > 0 {
        lemma_all_interfaces_len(lens, high_speed, n - 1);
    }
}

fn push_interfaces(blob: &mut Vec<u8>, lens: &[u16], high_speed: bool)
    requires
        lens@.len() <= MAX_INTERFACES,
    ensures
        final(blob)@ == old(blob)@ + all_interfaces_bytes(lens@, high_speed, lens@.len() as int),
{
    let mut i: usize = 0;
    while i < lens.len()
        invariant
            i <= lens@.len(),
            lens@.len() <= MAX_INTERFACES,
            blob@ == old(blob)@ + all_interfaces_bytes(lens@, high_speed, i as int),
        decreases lens@.len() - i,
    {
        let d = interface_descriptors(lens[i], high_speed, i as u8, (0x81 + i) as u8);
        push_all(blob, d.as_slice());
        i = i + 1;
    }
}

/// FunctionFS v2 descriptor blob for the given report descriptor lengths,
/// one HID interface each.
pub fn descriptors_blob_for(lens: &[u16]) -> (blob: Vec<u8>)
    requires
        lens@.len() <= MAX_INTERFACES,
    ensures
        blob@ == multi_descriptors_bytes(lens@),
        blob@.len() == 20 + 50 * lens@.len(),
{
    let n = lens.len() as u32;
    let mut blob: Vec<u8> = Vec::new();
    push_all(&mut blob, &le32_of(FUNCTIONFS_DESCRIPTORS_MAGIC_V2));
    push_all(&mut blob, &le32_of(20 + 50 * n));
    push_all(
        &mut blob,
        &le32_of(FUNCTIONFS_HAS_FS_DESC | FUNCTIONFS_HAS_HS_DESC | FUNCTIONFS_ALL_CTRL_RECIP),
    );
    // One descriptor count per HAS_*_DESC flag: 3 descriptors per interface.
    push_all(&mut blob, &le32_of(3 * n));
    push_all(&mut blob, &le32_of(3 * n));
    push_interfaces(&mut blob, lens, false);
    push_interfaces(&mut blob, lens, true);
    proof {
        lemma_all_interfaces_len(lens@, false, lens@.len() as int);
        lemma_all_interfaces_len(lens@, true, lens@.len() as int);
    }
    blob
}

/// With a single interface the general blob is the single-interface blob.
pub proof fn lemma_single_interface_blob(len: u16)
    ensures
        multi_descriptors_bytes(seq![len]) == descriptors_bytes(len),
{
    let lens = seq![len];
    assert(all_interfaces_bytes(lens, false, 0) == Seq::<u8>::empty());
    assert(all_interfaces_bytes(lens, true, 0) == Seq::<u8>::empty());
    assert(all_interfaces_bytes(lens, false, 1) =~= speed_bytes(len, false));
    assert(all_interfaces_bytes(lens, true, 1) =~= speed_bytes(len, true));
}

/// FunctionFS strings blob: no strings, no languages.
pub fn strings_blob() -> (blob: Vec<u8>)
    ensures
        blob@ == strings_bytes(),
        blob@.len() == STRINGS_BLOB_LEN,
{
    let mut blob: Vec<u8> = Vec::new();
    push_all(&mut blob, &le32_of(FUNCTIONFS_STRINGS_MAGIC));
    push_all(&mut blob, &le32_of(16));
    push_all(&mut blob, &le32_of(0));  // str_count
    push_all(&mut blob, &le32_of(0));  // lang_count
    blob
}

/// Each blob declares its own length in bytes 4..8, as FunctionFS requires;
/// the descriptor blob's flags are 0x43 and it declares three descriptors
/// for each speed, and the HID class descriptor inside each speed set gives
/// the report descriptor length.
pub proof fn lemma_blobs_self_describing(len: u16)
    ensures
        ({
            let d = descriptors_bytes(len);
            &&& le32(d[0], d[1], d[2], d[3]) == FUNCTIONFS_DESCRIPTORS_MAGIC_V2
            &&& le32(d[4], d[5], d[6], d[7]) == d.len()
            &&& le32(d[8], d[9], d[10], d[11]) == 0x43
            &&& le32(d[12], d[13], d[14], d[15]) == 3
            &&& le32(d[16], d[17], d[18], d[19]) == 3
            &&& le16(d[36], d[37]) == len
            &&& le16(d[61], d[62]) == len
        }),
        ({
            let s = strings_bytes();
            &&& le32(s[0], s[1], s[2], s[3]) == FUNCTIONFS_STRINGS_MAGIC
            &&& le32(s[4], s[5], s[6], s[7]) == s.len()
        }),
{
    lemma_le32_split(FUNCTIONFS_DESCRIPTORS_MAGIC_V2);
    lemma_le32_split(DESCRIPTORS_BLOB_LEN as u32);
    lemma_le32_split(FUNCTIONFS_HAS_FS_DESC | FUNCTIONFS_HAS_HS_DESC | FUNCTIONFS_ALL_CTRL_RECIP);
    lemma_le32_split(3);
    lemma_le32_split(FUNCTIONFS_STRINGS_MAGIC);
    lemma_le32_split(STRINGS_BLOB_LEN as u32);
    assert(FUNCTIONFS_HAS_FS_DESC | FUNCTIONFS_HAS_HS_DESC | FUNCTIONFS_ALL_CTRL_RECIP == 0x43)
        by (bit_vector);
    let d = descriptors_bytes(len);
    assert(d[36] == lo_byte(len) && d[37] == hi_byte(len));
    assert(d[61] == lo_byte(len) && d[62] == hi_byte(len));
}


/// The fields of a USB SETUP packet that the HID function looks at.
#[derive(Debug, Clone, Copy, PartialEq, Eq, Structural)]
pub struct SetupRequest {
    pub request_type: u8,
    pub request: u8,
    pub value: u16,
    /// `wIndex`: for interface requests, the function-local interface
    /// number (FunctionFS re-maps it from the composite's numbering).
    pub index: u16,
    pub length: u16,
}

/// One FunctionFS `ep0` event.
#[derive(Debug, Clone, Copy, PartialEq, Eq, Structural)]
pub enum Ep0Event {
    /// The host enabled the function (a configuration was selected).
    Enable,
    /// The host disabled the function.
    Disable,
    /// A control request for the function.
    Setup(SetupRequest),
    /// Any other event (bind, unbind, suspend, resume).
    Other,
}

/// The event encoded by one 12-byte `struct usb_functionfs_event`: the SETUP
/// packet in bytes 0..8 (little-endian `wValue` at 2, `wIndex` at 4,
/// `wLength` at 6), the
/// event type at byte 8.
pub open spec fn event_of(ev: Seq<u8>) -> Ep0Event {
    if ev[8] == FUNCTIONFS_ENABLE {
        Ep0Event::Enable
    } else if ev[8] == FUNCTIONFS_DISABLE {
        Ep0Event::Disable
    } else if ev[8] == FUNCTIONFS_SETUP {
        Ep0Event::Setup(
            SetupRequest {
                request_type: ev[0],
                request: ev[1],
                value: le16(ev[2], ev[3]) as u16,
                index: le16(ev[4], ev[5]) as u16,
                length: le16(ev[6], ev[7]) as u16,
            },
        )
    } else {
        Ep0Event::Other
    }
}

/// The 12 bytes FunctionFS delivers for a control request: the SETUP
/// packet (type, request, then `wValue`, `wIndex` and `wLength` little
/// endian), the event type SETUP, and three pad bytes.
pub open spec fn setup_event_bytes(req: SetupRequest) -> Seq<u8> {
    seq![
        req.request_type,
        req.request,
        (req.value % 256) as u8,
        (req.value / 256) as u8,
        (req.index % 256) as u8,
        (req.index / 256) as u8,
        (req.length % 256) as u8,
        (req.length / 256) as u8,
        FUNCTIONFS_SETUP,
        0u8,
        0u8,
        0u8,
    ]
}

/// Decoding an event reads its type at byte 8: 2 enables, 3 disables, 4
/// is a control request whose `wValue`, `wIndex` and `wLength` are the
/// little-endian pairs at bytes 2-3, 4-5 and 6-7, all 16 bits of each; any
/// other type is some other event. Encoding a request as FunctionFS does
/// and decoding it gives the request back.
pub proof fn lemma_event_fields(ev: Seq<u8>, req: SetupRequest)
    requires
        ev.len() == EVENT_SIZE,
    ensures
        ev[8] == 2 ==> event_of(ev) == Ep0Event::Enable,
        ev[8] == 3 ==> event_of(ev) == Ep0Event::Disable,
        ev[8] == 4 ==> (event_of(ev) matches Ep0Event::Setup(r) && r.request_type == ev[0]
            && r.request == ev[1] && r.value == ev[2] as int + 256 * ev[3] as int && r.index
            == ev[4] as int + 256 * ev[5] as int && r.length == ev[6] as int + 256 * ev[7] as int),
        ev[8] != 2 && ev[8] != 3 && ev[8] != 4 ==> event_of(ev) == Ep0Event::Other,
        event_of(setup_event_bytes(req)) == Ep0Event::Setup(req),
{
    let b = setup_event_bytes(req);
    assert(b[2] as int + 256 * b[3] as int == req.value);
    assert(b[4] as int + 256 * b[5] as int == req.index);
    assert(b[6] as int + 256 * b[7] as int == req.length);
}

/// Decode one 12-byte event starting at `at`.
fn parse_event(buf: &[u8], at: usize) -> (r: Ep0Event)
    requires
        at + EVENT_SIZE <= buf@.len(),
    ensures
        r == event_of(buf@.subrange(at as int, at + EVENT_SIZE)),
{
    let _len = buf.len();
    let kind = buf[at + 8];
    if kind == FUNCTIONFS_ENABLE {
        Ep0Event::Enable
    } else if kind == FUNCTIONFS_DISABLE {
        Ep0Event::Disable
    } else if kind == FUNCTIONFS_SETUP {
        Ep0Event::Setup(
            SetupRequest {
                request_type: buf[at],
                request: buf[at + 1],
                value: buf[at + 2] as u16 + 256 * (buf[at + 3] as u16),
                index: buf[at + 4] as u16 + 256 * (buf[at + 5] as u16),
                length: buf[at + 6] as u16 + 256 * (buf[at + 7] as u16),
            },
        )
    } else {
        Ep0Event::Other
    }
}

/// Split what one `ep0` read returned into events; a trailing partial
/// event is ignored.
pub fn parse_events(buf: &[u8]) -> (r: Vec<Ep0Event>)
    ensures
        r@.len() == buf@.len() as int / (EVENT_SIZE as int),
        forall|i: int|
            0 <= i < r@.len() ==> #[trigger] r@[i] == event_of(
                buf@.subrange(EVENT_SIZE * i, EVENT_SIZE * i + EVENT_SIZE),
            ),
{
    let total = buf.len();
    let n = total / EVENT_SIZE;
    let mut r: Vec<Ep0Event> = Vec::new();
    let mut i: usize = 0;
    while i < n
        invariant
            i <= n,
            n == buf@.len() as int / (EVENT_SIZE as int),
            total == buf@.len(),
            r@.len() == i,
            forall|k: int|
                0 <= k < i ==> #[trigger] r@[k] == event_of(
                    buf@.subrange(EVENT_SIZE * k, EVENT_SIZE * k + EVENT_SIZE),
                ),
        decreases n - i,
    {
        assert(EVENT_SIZE * i + EVENT_SIZE <= buf@.len()) by (nonlinear_arith)
            requires
                i < n,
                n == buf@.len() as int / (EVENT_SIZE as int),
        ;
        r.push(parse_event(buf, EVENT_SIZE * i));
        i = i + 1;
    }
    r
}

/// What `ep0` does for one event besides keeping the enabled flag.
#[derive(Debug, Clone, Copy, PartialEq, Eq, Structural)]
pub enum Ep0Action {
    /// Answer this control request.
    Reply(SetupRequest),
    /// Nothing more.
    Nothing,
}

/// The enabled flag after one event: Enable sets it, Disable clears it,
/// every other event leaves it.
pub open spec fn step_enabled(enabled: bool, ev: Ep0Event) -> bool {
    match ev {
        Ep0Event::Enable => true,
        Ep0Event::Disable => false,
        _ => enabled,
    }
}

/// One `ep0` event: the new enabled flag, and the request to answer when
/// the event is a control request.
pub fn ep0_step(enabled: bool, ev: Ep0Event) -> (r: (bool, Ep0Action))
    ensures
        r.0 == step_enabled(enabled, ev),
        r.1 == match ev {
            Ep0Event::Setup(req) => Ep0Action::Reply(req),
            _ => Ep0Action::Nothing,
        },
{
    match ev {
        Ep0Event::Enable => (true, Ep0Action::Nothing),
        Ep0Event::Disable => (false, Ep0Action::Nothing),
        Ep0Event::Setup(req) => (enabled, Ep0Action::Reply(req)),
        Ep0Event::Other => (enabled, Ep0Action::Nothing),
    }
}

/// The enabled flag after the events `evs`, one step each, in order.
pub open spec fn enabled_after(enabled: bool, evs: Seq<Ep0Event>) -> bool
    decreases evs.len(),
{
    if evs.len() == 0 {
        enabled
    } else {
        step_enabled(enabled_after(enabled, evs.drop_last()), evs.last())
    }
}

/// The control requests among `evs`, in order: those `ep0` answers.
pub open spec fn setups(evs: Seq<Ep0Event>) -> Seq<SetupRequest>
    decreases evs.len(),
{
    if evs.len() == 0 {
        Seq::empty()
    } else {
        match evs.last() {
            Ep0Event::Setup(req) => setups(evs.drop_last()).push(req),
            _ => setups(evs.drop_last()),
        }
    }
}

/// What the last Enable or Disable among `evs` set the flag to, if any.
pub open spec fn last_switch(evs: Seq<Ep0Event>) -> Option<bool>
    decreases evs.len(),
{
    if evs.len() == 0 {
        None
    } else {
        match evs.last() {
            Ep0Event::Enable => Some(true),
            Ep0Event::Disable => Some(false),
            _ => last_switch(evs.drop_last()),
        }
    }
}

/// The actions of the steps over `evs`, in order.
pub open spec fn step_actions(evs: Seq<Ep0Event>) -> Seq<Ep0Action> {
    Seq::new(
        evs.len(),
        |i: int|
            match evs[i] {
                Ep0Event::Setup(req) => Ep0Action::Reply(req),
                _ => Ep0Action::Nothing,
            },
    )
}

/// The replies among the actions, in order.
pub open spec fn replies(acts: Seq<Ep0Action>) -> Seq<SetupRequest>
    decreases acts.len(),
{
    if acts.len() == 0 {
        Seq::empty()
    } else {
        match acts.last() {
            Ep0Action::Reply(req) => replies(acts.drop_last()).push(req),
            Ep0Action::Nothing => replies(acts.drop_last()),
        }
    }
}

/// Over any sequence of `ep0` events, stepped one after the other: the
/// enabled flag ends as the last Enable or Disable set it, unchanged when
/// there was none, and the requests answered are the control requests, each
/// once, in the order they came.
pub proof fn lemma_ep0_events(enabled: bool, evs: Seq<Ep0Event>)
    ensures
        enabled_after(enabled, evs) == match last_switch(evs) {
            Some(b) => b,
            None => enabled,
        },
        replies(step_actions(evs)) == setups(evs),
    decreases evs.len(),
{
    if evs.len() > 0 {
        let rest = evs.drop_last();
        lemma_ep0_events(enabled, rest);
        assert(step_actions(evs).drop_last() =~= step_actions(rest));
    }
}

/// What the function does with a control request.
#[derive(Debug)]
pub enum SetupReply {
    /// Answer the IN request with these bytes.
    Send(Vec<u8>),
    /// Stall an unsupported IN request (I/O in the wrong direction).
    StallIn,
    /// Stall an unsupported OUT request.
    StallOut,
    /// Acknowledge an OUT request that has no data stage.
    Ack,
    /// Read and discard this many bytes of OUT data.
    Discard(usize),
}

/// Whether a request is addressed to the HID class (type bits 5-6 = 1).
pub open spec fn is_class(req: SetupRequest) -> bool {
    req.request_type & 0x60 == 0x20
}

/// Whether a request is a standard one (type bits 5-6 = 0).
pub open spec fn is_standard(req: SetupRequest) -> bool {
    req.request_type & 0x60 == 0
}

/// The data an IN request is answered with before it is cut to `wLength`;
/// `None` for requests that are stalled. GET_DESCRIPTOR to the interface
/// answers the report descriptor or the HID class descriptor; the class
/// requests answer the last input report, idle rate 0 and the report
/// protocol.
pub open spec fn in_data(req: SetupRequest, report_descriptor: Seq<u8>, last_report: Seq<u8>) -> Option<Seq<u8>> {
    if is_standard(req) && req.request == USB_REQ_GET_DESCRIPTOR && req.value / 256 == USB_DT_REPORT {
        Some(report_descriptor)
    } else if is_standard(req) && req.request == USB_REQ_GET_DESCRIPTOR && req.value / 256 == USB_DT_HID {
        Some(hid_class_bytes(report_descriptor.len() as u16))
    } else if is_class(req) && req.request == HID_REQ_GET_REPORT {
        Some(last_report)
    } else if is_class(req) && req.request == HID_REQ_GET_IDLE {
        Some(seq![0u8])
    } else if is_class(req) && req.request == HID_REQ_GET_PROTOCOL {
        Some(seq![1u8])
    } else {
        None
    }
}

/// `data` cut to the host's `wLength`.
pub open spec fn cut(data: Seq<u8>, length: u16) -> Seq<u8> {
    if data.len() <= length {
        data
    } else {
        data.take(length as int)
    }
}

fn send(data: &[u8], length: u16) -> (r: SetupReply)
    ensures
        r matches SetupReply::Send(v) && v@ == cut(data@, length),
{
    let n = if data.len() < length as usize {
        data.len()
    } else {
        length as usize
    };
    let mut v: Vec<u8> = Vec::new();
    let mut i: usize = 0;
    while i < n
        invariant
            i <= n,
            n <= data@.len(),
            n == if data@.len() <= length { data@.len() as int } else { length as int },
            v@ == data@.take(i as int),
        decreases n - i,
    {
        v.push(data[i]);
        i = i + 1;
        assert(v@ =~= data@.take(i as int));
    }
    assert(data@.take(data@.len() as int) =~= data@);
    SetupReply::Send(v)
}

/// `r` answers `req` for an interface with this report descriptor whose
/// GET_REPORT answer is `report`: IN requests with data are answered (cut
/// to `wLength`) and the others stalled; SET_IDLE and SET_PROTOCOL are
/// acknowledged, SET_REPORT data is read, and other OUT requests are
/// stalled.
pub open spec fn is_reply(req: SetupRequest, report_descriptor: Seq<u8>, report: Seq<u8>, r: SetupReply) -> bool {
    if req.request_type & USB_DIR_IN != 0 {
        match in_data(req, report_descriptor, report) {
            Some(d) => r matches SetupReply::Send(v) && v@ == cut(d, req.length),
            None => r is StallIn,
        }
    } else if is_class(req) && (req.request == HID_REQ_SET_IDLE || req.request
        == HID_REQ_SET_PROTOCOL) {
        r is Ack
    } else if is_class(req) && req.request == HID_REQ_SET_REPORT {
        r matches SetupReply::Discard(n) && n == req.length
    } else {
        r is StallOut
    }
}

/// Decide the answer to a control request: IN requests with data are
/// answered (cut to `wLength`) and the others stalled; SET_IDLE and
/// SET_PROTOCOL are acknowledged, SET_REPORT data is read and discarded,
/// and other OUT requests are stalled.
pub fn setup_reply(req: SetupRequest, report_descriptor: &[u8], last_report: &[u8]) -> (r: SetupReply)
    ensures
        if req.request_type & USB_DIR_IN != 0 {
            match in_data(req, report_descriptor@, last_report@) {
                Some(d) => r matches SetupReply::Send(v) && v@ == cut(d, req.length),
                None => r is StallIn,
            }
        } else if is_class(req) && (req.request == HID_REQ_SET_IDLE || req.request
            == HID_REQ_SET_PROTOCOL) {
            r is Ack
        } else if is_class(req) && req.request == HID_REQ_SET_REPORT {
            r matches SetupReply::Discard(n) && n == req.length
        } else {
            r is StallOut
        },
{
    let kind = req.request_type & 0x60;
    if req.request_type & USB_DIR_IN != 0 {
        if kind == 0x00 && req.request == USB_REQ_GET_DESCRIPTOR && req.value / 256 == USB_DT_REPORT as u16 {
            // Standard GET_DESCRIPTOR to the interface: HID report descriptor.
            send(report_descriptor, req.length)
        } else if kind == 0x00 && req.request == USB_REQ_GET_DESCRIPTOR && req.value / 256
            == USB_DT_HID as u16 {
            send(&hid_class_descriptor(report_descriptor.len() as u16), req.length)
        } else if kind == 0x20 && req.request == HID_REQ_GET_REPORT {
            send(last_report, req.length)
        } else if kind == 0x20 && req.request == HID_REQ_GET_IDLE {
            send(&[0], req.length)
        } else if kind == 0x20 && req.request == HID_REQ_GET_PROTOCOL {
            send(&[1], req.length)
        } else {
            SetupReply::StallIn
        }
    } else {
        if kind == 0x20 && (req.request == HID_REQ_SET_IDLE || req.request == HID_REQ_SET_PROTOCOL) {
            // No data stage: acknowledge with a zero-length read.
            SetupReply::Ack
        } else if kind == 0x20 && req.request == HID_REQ_SET_REPORT {
            // Read and discard the (unused) output report data.
            SetupReply::Discard(req.length as usize)
        } else {
            SetupReply::StallOut
        }
    }
}


/// HID report type of a GET_REPORT / SET_REPORT request (high byte of
/// `wValue`) that names a feature report.
pub const HID_REPORT_TYPE_FEATURE: u16 = 3;

/// The feature report id a GET_REPORT / SET_REPORT request names, if it
/// names a feature report (report type in the high byte of `wValue`, id in
/// the low byte).
pub fn feature_report_id(req: SetupRequest) -> (r: Option<u8>)
    ensures
        r == if req.value / 256 == HID_REPORT_TYPE_FEATURE {
            Some((req.value % 256) as u8)
        } else {
            None::<u8>
        },
{
    if req.value / 256 == HID_REPORT_TYPE_FEATURE {
        Some((req.value % 256) as u8)
    } else {
        None
    }
}

/// What a control request does with the feature reports of its interface.
#[derive(Debug, Clone, Copy, PartialEq, Eq, Structural)]
pub enum FeatureAccess {
    /// GET_REPORT of this feature report: answered with its stored value
    /// when the interface has one.
    Read(u8),
    /// SET_REPORT of this feature report: its data is stored.
    Store(u8),
    /// Neither.
    Untouched,
}

/// Whether `req` reads or writes a feature report: a class GET_REPORT (IN)
/// naming a feature report reads it, a class SET_REPORT (OUT) naming one
/// stores its data; nothing else touches them.
pub fn feature_access(req: SetupRequest) -> (r: FeatureAccess)
    ensures
        r == if req.value / 256 == HID_REPORT_TYPE_FEATURE && is_class(req) {
            let id = (req.value % 256) as u8;
            if req.request_type & USB_DIR_IN != 0 && req.request == HID_REQ_GET_REPORT {
                FeatureAccess::Read(id)
            } else if req.request_type & USB_DIR_IN == 0 && req.request == HID_REQ_SET_REPORT {
                FeatureAccess::Store(id)
            } else {
                FeatureAccess::Untouched
            }
        } else {
            FeatureAccess::Untouched
        },
{
    match feature_report_id(req) {
        Some(id) => {
            if req.request_type & 0x60 != 0x20 {
                FeatureAccess::Untouched
            } else if req.request_type & USB_DIR_IN != 0 && req.request == HID_REQ_GET_REPORT {
                FeatureAccess::Read(id)
            } else if req.request_type & USB_DIR_IN == 0 && req.request == HID_REQ_SET_REPORT {
                FeatureAccess::Store(id)
            } else {
                FeatureAccess::Untouched
            }
        },
        None => FeatureAccess::Untouched,
    }
}

/// What GET_REPORT answers on an interface: the feature report's stored
/// value when the request reads one the interface has, the last input
/// report otherwise.
pub open spec fn report_answer(feature: Option<Seq<u8>>, last_report: Seq<u8>) -> Seq<u8> {
    match feature {
        Some(v) => v,
        None => last_report,
    }
}

/// Decide the answer to a control request for one of the interfaces, given
/// what its feature reports hold for the report the request reads (`None`
/// when it reads none, or one the interface does not have) and its last
/// input report.
pub fn interface_reply(
    req: SetupRequest,
    report_descriptor: &[u8],
    feature: Option<&[u8]>,
    last_report: &[u8],
) -> (r: SetupReply)
    ensures
        is_reply(
            req,
            report_descriptor@,
            report_answer(
                match feature {
                    Some(v) => Some(v@),
                    None => None,
                },
                last_report@,
            ),
            r,
        ),
{
    match feature {
        Some(v) => setup_reply(req, report_descriptor, v),
        None => setup_reply(req, report_descriptor, last_report),
    }
}

/// The answer to a request for an interface the function does not have:
/// stalled in the request's direction.
pub fn stray_reply(req: SetupRequest) -> (r: SetupReply)
    ensures
        if req.request_type & USB_DIR_IN != 0 {
            r is StallIn
        } else {
            r is StallOut
        },
{
    if req.request_type & USB_DIR_IN != 0 {
        SetupReply::StallIn
    } else {
        SetupReply::StallOut
    }
}

/// What runs for one input device while the function is attached.
#[derive(Debug, Clone, Copy, PartialEq, Eq, Structural)]
pub enum Worker {
    /// Read the device and send reports on this interface.
    Report(usize),
    /// Keep the device grabbed so the tablet's own UI ignores it.
    HoldGrabbed,
    /// Leave the device alone.
    Idle,
}

/// The interfaces and workers of an attached function.
#[derive(Debug, Clone, Copy, PartialEq, Eq, Structural)]
pub struct GadgetPlan {
    pub pen: Worker,
    pub touch: Worker,
    /// Number of HID interfaces, in descriptor order: the pen's, then the
    /// touchpad's.
    pub interfaces: usize,
    /// Whether the pen tells the touch loop when it is down (palm
    /// rejection needs both devices).
    pub share_palm: bool,
}

/// Plan the function: the pen interface comes first, the touchpad after
/// it; a device that is not forwarded is held grabbed when asked, and left
/// alone otherwise; palm state is shared only when pen, touch and palm
/// rejection are all on.
pub fn plan_gadget(pen: bool, touch: bool, grab_pen: bool, grab_touch: bool, palm_rejection: bool) -> (r: GadgetPlan)
    ensures
        r.pen == if pen {
            Worker::Report(0)
        } else if grab_pen {
            Worker::HoldGrabbed
        } else {
            Worker::Idle
        },
        r.touch == if touch {
            Worker::Report(if pen { 1 } else { 0 })
        } else if grab_touch {
            Worker::HoldGrabbed
        } else {
            Worker::Idle
        },
        r.interfaces == (if pen { 1int } else { 0 }) + (if touch { 1int } else { 0 }),
        r.share_palm == (pen && touch && palm_rejection),
{
    let mut interfaces: usize = 0;
    let pen_worker = if pen {
        interfaces = interfaces + 1;
        Worker::Report(0)
    } else if grab_pen {
        Worker::HoldGrabbed
    } else {
        Worker::Idle
    };
    let touch_worker = if touch {
        let w = Worker::Report(interfaces);
        interfaces = interfaces + 1;
        w
    } else if grab_touch {
        Worker::HoldGrabbed
    } else {
        Worker::Idle
    };
    GadgetPlan {
        pen: pen_worker,
        touch: touch_worker,
        interfaces,
        share_palm: pen && touch && palm_rejection,
    }
}

/// The function-local interface an interface request is addressed to (low
/// byte of `wIndex`).
pub fn interface_of(req: SetupRequest) -> (r: usize)
    ensures
        r == req.index % 256,
{
    (req.index % 256) as usize
}

/// An answer never exceeds what the host asked for, and it is always a
/// prefix of the full data: a host that asks for the report descriptor with
/// a large enough `wLength` gets all of it.
pub proof fn lemma_reply_is_prefix(req: SetupRequest, report_descriptor: Seq<u8>, last_report: Seq<u8>)
    ensures
        in_data(req, report_descriptor, last_report) matches Some(d) ==> {
            let c = cut(d, req.length);
            &&& c.len() <= req.length
            &&& c.len() <= d.len()
            &&& c == d.take(c.len() as int)
            &&& d.len() <= req.length ==> c == d
        },
{
    if let Some(d) = in_data(req, report_descriptor, last_report) {
        let c = cut(d, req.length);
        assert(d.len() <= req.length ==> d.take(d.len() as int) =~= d);
        assert(c == d.take(c.len() as int));
    }
}

} // verus!
