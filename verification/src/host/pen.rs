//! Decoding of the digitizer's raw event stream (`cat /dev/input/eventN`
//! over SSH) into pen snapshots. The tablet is 32-bit ARM, so each record is
//! 16 bytes little-endian: u32 tv_sec, u32 tv_usec, u16 type, u16 code,
//! i32 value.

use vstd::prelude::*;

use crate::bytes::{le16, le32};

verus! {

pub const EV_SYN: u16 = 0x00;
pub const EV_KEY: u16 = 0x01;
pub const EV_ABS: u16 = 0x03;
pub const BTN_TOOL_PEN: u16 = 0x140;
pub const BTN_TOOL_RUBBER: u16 = 0x141;
pub const BTN_TOUCH: u16 = 0x14a;
pub const ABS_X: u16 = 0x00;
pub const ABS_Y: u16 = 0x01;
pub const ABS_PRESSURE: u16 = 0x18;

/// Length of one event record.
pub const RECORD_LEN: usize = 16;

/// The pen as of the last `EV_SYN`.
#[derive(Clone, Copy, Debug)]
pub struct PenSnapshot {
    pub x: i32,
    pub y: i32,
    pub pressure: i32,
    /// Pen (or eraser) is close enough to the surface to be tracked.
    pub in_range: bool,
    /// The eraser end of the marker is the active tool.
    pub eraser: bool,
    /// The tablet's own tip-contact detection (BTN_TOUCH).
    pub touch: bool,
}

/// The out-of-range snapshot, sent on disconnect so no button stays down.
pub open spec fn released_snapshot() -> PenSnapshot {
    PenSnapshot { x: 0, y: 0, pressure: 0, in_range: false, eraser: false, touch: false }
}

impl Default for PenSnapshot {
    fn default() -> (r: Self)
        ensures
            r == released_snapshot(),
    {
        PenSnapshot { x: 0, y: 0, pressure: 0, in_range: false, eraser: false, touch: false }
    }
}

/// The decoder's memory of the stream so far.
#[derive(Clone, Copy, Debug)]
pub struct PenState {
    pub x: i32,
    pub y: i32,
    pub pressure: i32,
    pub pen_in: bool,
    pub rubber_in: bool,
    pub touch: bool,
}

/// Event type, code and value of a record.
pub open spec fn record_type(buf: Seq<u8>) -> u16 {
    le16(buf[8], buf[9]) as u16
}

pub open spec fn record_code(buf: Seq<u8>) -> u16 {
    le16(buf[10], buf[11]) as u16
}

pub open spec fn record_value(buf: Seq<u8>) -> i32 {
    (le32(buf[12], buf[13], buf[14], buf[15]) as u32) as i32
}

/// The decoder after one record.
pub open spec fn state_after(s: PenState, typ: u16, code: u16, value: i32) -> PenState {
    if typ == EV_ABS && code == ABS_X {
        PenState { x: value, ..s }
    } else if typ == EV_ABS && code == ABS_Y {
        PenState { y: value, ..s }
    } else if typ == EV_ABS && code == ABS_PRESSURE {
        PenState { pressure: value, ..s }
    } else if typ == EV_KEY && code == BTN_TOOL_PEN {
        PenState { pen_in: value != 0, ..s }
    } else if typ == EV_KEY && code == BTN_TOOL_RUBBER {
        PenState { rubber_in: value != 0, ..s }
    } else if typ == EV_KEY && code == BTN_TOUCH {
        PenState { touch: value != 0, ..s }
    } else {
        s
    }
}

/// The snapshot a decoder state stands for.
pub open spec fn snapshot_of(s: PenState) -> PenSnapshot {
    PenSnapshot {
        x: s.x,
        y: s.y,
        pressure: s.pressure,
        in_range: s.pen_in || s.rubber_in,
        eraser: s.rubber_in,
        touch: s.touch,
    }
}

impl PenState {
    /// Nothing seen yet.
    pub fn new() -> (r: Self)
        ensures
            r == (PenState { x: 0, y: 0, pressure: 0, pen_in: false, rubber_in: false, touch: false }),
    {
        PenState { x: 0, y: 0, pressure: 0, pen_in: false, rubber_in: false, touch: false }
    }

    /// Feed one 16-byte input_event record; returns a snapshot on `EV_SYN`.
    pub fn feed(&mut self, buf: &[u8; RECORD_LEN]) -> (r: Option<PenSnapshot>)
        ensures
            *final(self) == state_after(
                *old(self),
                record_type(buf@),
                record_code(buf@),
                record_value(buf@),
            ),
            r == if record_type(buf@) == EV_SYN {
                Some(snapshot_of(*old(self)))
            } else {
                None::<PenSnapshot>
            },
    {
        let typ: u16 = buf[8] as u16 + 256 * (buf[9] as u16);
        let code: u16 = buf[10] as u16 + 256 * (buf[11] as u16);
        let raw: u32 = buf[12] as u32 + 256 * (buf[13] as u32) + 65536 * (buf[14] as u32) + 16777216 * (
        buf[15] as u32);
        let value = raw as i32;
        if typ == EV_ABS && code == ABS_X {
            self.x = value;
        } else if typ == EV_ABS && code == ABS_Y {
            self.y = value;
        } else if typ == EV_ABS && code == ABS_PRESSURE {
            self.pressure = value;
        } else if typ == EV_KEY && code == BTN_TOOL_PEN {
            self.pen_in = value != 0;
        } else if typ == EV_KEY && code == BTN_TOOL_RUBBER {
            self.rubber_in = value != 0;
        } else if typ == EV_KEY && code == BTN_TOUCH {
            self.touch = value != 0;
        } else if typ == EV_SYN {
            return Some(
                PenSnapshot {
                    x: self.x,
                    y: self.y,
                    pressure: self.pressure,
                    in_range: self.pen_in || self.rubber_in,
                    eraser: self.rubber_in,
                    touch: self.touch,
                },
            );
        }
        None
    }
}

/// A snapshot is in range while either tool is, and reports the eraser
/// exactly when the eraser tool is in; a snapshot leaves the decoder only
/// at `EV_SYN`, and `EV_SYN` itself changes no decoder state.
pub proof fn lemma_snapshot_tools(s: PenState, typ: u16, code: u16, value: i32)
    ensures
        snapshot_of(s).in_range == (s.pen_in || s.rubber_in),
        snapshot_of(s).eraser ==> snapshot_of(s).in_range,
        typ == EV_SYN ==> state_after(s, typ, code, value) == s,
{
}


/// A record's fields are its little-endian type at bytes 8-9, code at
/// 10-11 and value at 12-15.
pub proof fn lemma_record_fields(buf: Seq<u8>)
    requires
        buf.len() == RECORD_LEN,
    ensures
        record_type(buf) == buf[8] as int + 256 * buf[9] as int,
        record_code(buf) == buf[10] as int + 256 * buf[11] as int,
        record_value(buf) as u32 == buf[12] as int + 256 * buf[13] as int + 65536 * buf[14] as int
            + 16777216 * buf[15] as int,
{
    let v = buf[12] as int + 256 * buf[13] as int + 65536 * buf[14] as int + 16777216 * buf[15] as int;
    assert(0 <= v <= 0xFFFF_FFFF);
    let u = v as u32;
    assert(((u as i32) as u32) == u) by (bit_vector);
}

/// Each record sets exactly its own part of the decoder: `ABS_X` the x
/// position, `ABS_Y` the y position, `ABS_PRESSURE` the pressure, the tool
/// and touch keys their flag (pressed when the value is not 0), and every
/// other part stays; `EV_SYN` changes nothing, and its snapshot reports the
/// decoder's x, y and pressure, in range while either tool is, the eraser
/// while the eraser tool is, and the touch flag.
pub proof fn lemma_decoder_records(s: PenState, v: i32)
    ensures
        ({
            let n = state_after(s, EV_ABS, ABS_X, v);
            n.x == v && n.y == s.y && n.pressure == s.pressure && n.pen_in == s.pen_in
                && n.rubber_in == s.rubber_in && n.touch == s.touch
        }),
        ({
            let n = state_after(s, EV_ABS, ABS_Y, v);
            n.y == v && n.x == s.x && n.pressure == s.pressure && n.pen_in == s.pen_in
                && n.rubber_in == s.rubber_in && n.touch == s.touch
        }),
        ({
            let n = state_after(s, EV_ABS, ABS_PRESSURE, v);
            n.pressure == v && n.x == s.x && n.y == s.y && n.pen_in == s.pen_in
                && n.rubber_in == s.rubber_in && n.touch == s.touch
        }),
        ({
            let n = state_after(s, EV_KEY, BTN_TOOL_PEN, v);
            n.pen_in == (v != 0) && n.x == s.x && n.y == s.y && n.pressure == s.pressure
                && n.rubber_in == s.rubber_in && n.touch == s.touch
        }),
        ({
            let n = state_after(s, EV_KEY, BTN_TOOL_RUBBER, v);
            n.rubber_in == (v != 0) && n.x == s.x && n.y == s.y && n.pressure == s.pressure
                && n.pen_in == s.pen_in && n.touch == s.touch
        }),
        ({
            let n = state_after(s, EV_KEY, BTN_TOUCH, v);
            n.touch == (v != 0) && n.x == s.x && n.y == s.y && n.pressure == s.pressure
                && n.pen_in == s.pen_in && n.rubber_in == s.rubber_in
        }),
        forall|code: u16| #[trigger] state_after(s, EV_SYN, code, v) == s,
        snapshot_of(s).x == s.x && snapshot_of(s).y == s.y && snapshot_of(s).pressure == s.pressure,
        snapshot_of(s).in_range == (s.pen_in || s.rubber_in),
        snapshot_of(s).eraser == s.rubber_in && snapshot_of(s).touch == s.touch,
{
}

/// The snapshot at `EV_SYN` reports the last `ABS_X` value as x and the
/// last `ABS_Y` value as y, in whichever order they came, whatever the
/// decoder held before.
pub proof fn lemma_snapshot_reports_last_position(s: PenState, a: i32, b: i32)
    ensures
        snapshot_of(state_after(state_after(s, EV_ABS, ABS_X, a), EV_ABS, ABS_Y, b)).x == a,
        snapshot_of(state_after(state_after(s, EV_ABS, ABS_X, a), EV_ABS, ABS_Y, b)).y == b,
        snapshot_of(state_after(state_after(s, EV_ABS, ABS_Y, b), EV_ABS, ABS_X, a)).x == a,
        snapshot_of(state_after(state_after(s, EV_ABS, ABS_Y, b), EV_ABS, ABS_X, a)).y == b,
{
}

/// `/dev/input/`, the prefix of an input device node path.
pub const DEV_INPUT: [u8; 11] = [47, 100, 101, 118, 47, 105, 110, 112, 117, 116, 47];

/// `Permission denied`, what SSH prints when key authentication fails.
pub const PERMISSION_DENIED: [u8; 17] = [
    80, 101, 114, 109, 105, 115, 115, 105, 111, 110, 32, 100, 101, 110, 105, 101, 100,
];

/// `n` is where the first line of `s` ends: no newline before it, and a
/// newline or the end of `s` at it.
pub open spec fn first_line_end(s: Seq<u8>, n: int) -> bool {
    &&& 0 <= n <= s.len()
    &&& forall|i: int| 0 <= i < n ==> s[i] != 10
    &&& (n == s.len() || s[n] == 10)
}

/// A line as `str::lines` gives it: without the carriage return of a
/// `\r\n` ending. A carriage return that no newline follows stays.
pub open spec fn strip_cr(line: Seq<u8>, newline_follows: bool) -> Seq<u8> {
    if newline_follows && line.len() > 0 && line.last() == 13 {
        line.drop_last()
    } else {
        line
    }
}

/// Whether `p` is a prefix of `s`.
pub open spec fn has_prefix(s: Seq<u8>, p: Seq<u8>) -> bool {
    p.len() <= s.len() && s.take(p.len() as int) == p
}

fn starts_with(s: &[u8], p: &[u8]) -> (r: bool)
    ensures
        r == has_prefix(s@, p@),
{
    if p.len() > s.len() {
        return false;
    }
    let mut i: usize = 0;
    while i < p.len()
        invariant
            p@.len() <= s@.len(),
            i <= p@.len(),
            forall|k: int| 0 <= k < i ==> s@[k] == p@[k],
        decreases p@.len() - i,
    {
        if s[i] != p[i] {
            assert(s@.take(p@.len() as int)[i as int] != p@[i as int]);
            return false;
        }
        i = i + 1;
    }
    assert(s@.take(p@.len() as int) =~= p@);
    true
}

/// The device the autodetection script printed: its first output line, when
/// there is output and that line is an input device node path.
pub fn detected_device(stdout: &[u8]) -> (r: Option<Vec<u8>>)
    ensures
        forall|n: int|
            first_line_end(stdout@, n) ==> {
                let line = strip_cr(stdout@.take(n), n < stdout@.len());
                match r {
                    Some(v) => stdout@.len() > 0 && v@ == line && has_prefix(line, DEV_INPUT@),
                    None => stdout@.len() == 0 || !has_prefix(line, DEV_INPUT@),
                }
            },
{
    let len = stdout.len();
    let mut n: usize = 0;
    while n < len && stdout[n] != 10
        invariant
            n <= len,
            len == stdout@.len(),
            forall|i: int| 0 <= i < n ==> stdout@[i] != 10,
        decreases len - n,
    {
        n = n + 1;
    }
    let ghost nn = n as int;
    assert(first_line_end(stdout@, nn));
    assert forall|m: int| first_line_end(stdout@, m) implies m == nn by {
        if m < nn {
            assert(stdout@[m] != 10);
        } else if m > nn {
            assert(stdout@[nn] != 10);
        }
    }
    if len == 0 {
        return None;
    }
    let end = if n > 0 && n < len && stdout[n - 1] == 13 {
        n - 1
    } else {
        n
    };
    let mut line: Vec<u8> = Vec::new();
    let mut i: usize = 0;
    while i < end
        invariant
            i <= end,
            end <= n,
            n <= stdout@.len(),
            line@ == stdout@.take(i as int),
        decreases end - i,
    {
        line.push(stdout[i]);
        i = i + 1;
        assert(line@ =~= stdout@.take(i as int));
    }
    assert(line@ =~= strip_cr(stdout@.take(nn), nn < stdout@.len()));
    if starts_with(line.as_slice(), &DEV_INPUT) {
        Some(line)
    } else {
        None
    }
}

/// Whether SSH's error output says key authentication failed, so the
/// status line can say how to set it up.
pub fn mentions_permission_denied(stderr: &[u8]) -> (r: bool)
    ensures
        r == exists|i: int|
            0 <= i && i + PERMISSION_DENIED@.len() <= stderr@.len() && #[trigger] stderr@.subrange(
                i,
                i + PERMISSION_DENIED@.len(),
            ) == PERMISSION_DENIED@,
{
    let p: &[u8] = &PERMISSION_DENIED;
    let len = stderr.len();
    if len < p.len() {
        assert forall|i: int|
            0 <= i && i + PERMISSION_DENIED@.len() <= stderr@.len() implies #[trigger] stderr@.subrange(
            i,
            i + PERMISSION_DENIED@.len(),
        ) != PERMISSION_DENIED@ by {}
        return false;
    }
    let last = len - p.len();
    let mut i: usize = 0;
    while i <= last
        invariant
            p@ == PERMISSION_DENIED@,
            last + p@.len() == stderr@.len(),
            len == stderr@.len(),
            forall|k: int|
                0 <= k < i ==> #[trigger] stderr@.subrange(k, k + PERMISSION_DENIED@.len())
                    != PERMISSION_DENIED@,
        decreases last + 1 - i,
    {
        let mut j: usize = 0;
        let mut same = true;
        while j < p.len()
            invariant
                p@ == PERMISSION_DENIED@,
                i <= last,
                last + p@.len() == stderr@.len(),
                len == stderr@.len(),
                j <= p@.len(),
                same == forall|k: int| 0 <= k < j ==> stderr@[i + k] == p@[k],
            decreases p@.len() - j,
        {
            if stderr[i + j] != p[j] {
                same = false;
            }
            j = j + 1;
        }
        if same {
            assert(stderr@.subrange(i as int, i + PERMISSION_DENIED@.len()) =~= PERMISSION_DENIED@);
            return true;
        }
        assert(stderr@.subrange(i as int, i + PERMISSION_DENIED@.len()) != PERMISSION_DENIED@) by {
            let k = choose|k: int| 0 <= k < p@.len() && stderr@[i + k] != p@[k];
            assert(stderr@.subrange(i as int, i + PERMISSION_DENIED@.len())[k] != PERMISSION_DENIED@[k]);
        }
        i = i + 1;
    }
    assert forall|k: int|
        0 <= k && k + PERMISSION_DENIED@.len() <= stderr@.len() implies #[trigger] stderr@.subrange(
        k,
        k + PERMISSION_DENIED@.len(),
    ) != PERMISSION_DENIED@ by {
        assert(k < i);
    }
    false
}

} // verus!
