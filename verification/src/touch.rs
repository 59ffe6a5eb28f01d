//! Touch frames of the on-device daemon: multitouch slot bookkeeping
//! (`ABS_MT_SLOT` / `TRACKING_ID` / `POSITION_*`, with a positional fallback
//! for drivers that omit slot events), the per-frame contact list reported to
//! the host, and the palm-rejection and change-detection decisions.
//!
//! Contact ids are per touch, not per slot: the panel driver reuses a slot
//! for the next finger and may deliver one finger's release and the next
//! one's press in the same frame. A contact that goes away is reported once
//! with its tip cleared (hosts keep a contact that just vanishes down), and
//! the contacts down are packed first, since hosts read only the first
//! `count` entries.
//!
//! Orientation is applied by the caller between [`raw_contacts`] and
//! [`ContactTracker::next_report`].

use vstd::prelude::*;

use crate::bytes::{clamp_i32, clamp_spec};

verus! {

pub const ABS_MT_SLOT: u16 = 0x2f;
pub const ABS_MT_POSITION_X: u16 = 0x35;
pub const ABS_MT_POSITION_Y: u16 = 0x36;
pub const ABS_MT_TRACKING_ID: u16 = 0x39;

/// Device-side slot count tracked (the panel driver uses low slots first).
pub const MT_SLOTS: usize = 16;

/// Contacts reported to the host per frame (gestures need at most four).
pub const MAX_CONTACTS: usize = 5;

/// Axis ranges of the oriented touch space, for the HID descriptor.
#[derive(Debug, Clone, Copy)]
pub struct TouchGeometry {
    pub x_max: i32,
    pub y_max: i32,
    /// Units per millimetre.
    pub resolution: i32,
}

#[derive(Debug, Clone, Copy, PartialEq, Eq, Structural)]
pub struct Contact {
    /// Per-touch identifier: kept while the touch stays down; a new touch,
    /// also one in a reused slot, never gets the id of a touch that the
    /// previous report held.
    pub id: u8,
    pub tip: bool,
    pub x: i32,
    pub y: i32,
}

/// The released contact with id 0.
pub open spec fn empty_contact() -> Contact {
    Contact { id: 0, tip: false, x: 0, y: 0 }
}

impl Default for Contact {
    fn default() -> (r: Self)
        ensures
            r == empty_contact(),
    {
        Contact { id: 0, tip: false, x: 0, y: 0 }
    }
}

/// One oriented touch snapshot, emitted per device frame.
#[derive(Debug, Clone, Copy, PartialEq, Eq)]
pub struct TouchFrame {
    pub contacts: [Contact; MAX_CONTACTS],
    /// Number of contacts reported: those down, then those lifted since the
    /// previous report.
    pub count: u8,
}

impl Default for TouchFrame {
    fn default() -> (r: Self)
        ensures
            r.count == 0,
            forall|i: int| 0 <= i < MAX_CONTACTS ==> #[trigger] r.contacts@[i] == empty_contact(),
    {
        let c = Contact { id: 0, tip: false, x: 0, y: 0 };
        TouchFrame { contacts: [c, c, c, c, c], count: 0 }
    }
}

/// Number of `true` entries among the first `n` of `s`.
pub open spec fn count_true(s: Seq<bool>, n: int) -> nat
    decreases n,
{
    if n <= 0 {
        0
    } else {
        count_true(s, n - 1) + (if s[n - 1] { 1nat } else { 0nat })
    }
}

/// Position, activity and touch identity of every device slot.
pub struct SlotState {
    pub x: [Option<i32>; MT_SLOTS],
    pub y: [Option<i32>; MT_SLOTS],
    pub active: [bool; MT_SLOTS],
    /// The evdev tracking id of the touch in each slot: every new touch gets
    /// a fresh one, so it tells a new touch in a reused slot from the old.
    pub tracking: [Option<i32>; MT_SLOTS],
}

impl SlotState {
    /// No slot active, no position or touch known.
    pub fn new() -> (r: Self)
        ensures
            forall|s: int|
                0 <= s < MT_SLOTS ==> #[trigger] r.x@[s] == None::<i32> && r.y@[s] == None::<i32>
                    && !r.active@[s] && r.tracking@[s] == None::<i32>,
    {
        Self {
            x: [None; MT_SLOTS],
            y: [None; MT_SLOTS],
            active: [false; MT_SLOTS],
            tracking: [None; MT_SLOTS],
        }
    }

    /// Number of active slots.
    pub fn active_count(&self) -> (r: usize)
        ensures
            r == count_true(self.active@, MT_SLOTS as int),
            r <= MT_SLOTS,
    {
        let mut n: usize = 0;
        let mut s: usize = 0;
        while s < MT_SLOTS
            invariant
                s <= MT_SLOTS,
                n == count_true(self.active@, s as int),
                n <= s,
            decreases MT_SLOTS - s,
        {
            if self.active[s] {
                n = n + 1;
            }
            s = s + 1;
        }
        n
    }
}

/// Per-frame bookkeeping: the slot that position events refer to, and the
/// (x, y) pairs seen this frame for the positional fallback.
pub struct FrameState {
    pub current_slot: usize,
    pub pending_positions: Vec<(i32, i32)>,
}

impl FrameState {
    /// Slot 0 selected, nothing pending.
    pub fn new() -> (r: Self)
        ensures
            r.current_slot == 0,
            r.pending_positions@.len() == 0,
    {
        FrameState { current_slot: 0, pending_positions: Vec::new() }
    }
}

/// Apply one `EV_ABS` event to the slot table.
///
/// `ABS_MT_SLOT` selects the slot (clamped to the tracked range); a tracking
/// id of -1 releases the current slot and forgets its position and touch,
/// any other id activates it and records the touch; a position event stores
/// the coordinate and activates the slot, and a Y position completes an
/// (x, y) pair for the fallback.
pub fn process_abs_event(slots: &mut SlotState, frame: &mut FrameState, code: u16, value: i32)
    requires
        old(frame).current_slot < MT_SLOTS,
    ensures
        final(frame).current_slot < MT_SLOTS,
        ({
            let s = old(frame).current_slot as int;
            let o = *old(slots);
            let n = *final(slots);
            let op = old(frame).pending_positions@;
            let np = final(frame).pending_positions@;
            &&& code != ABS_MT_TRACKING_ID ==> n.tracking@ == o.tracking@
            &&& if code == ABS_MT_SLOT {
                &&& final(frame).current_slot == clamp_spec(value as int, 0, MT_SLOTS - 1)
                &&& n.x@ == o.x@ && n.y@ == o.y@ && n.active@ == o.active@
                &&& np == op
            } else if code == ABS_MT_TRACKING_ID {
                &&& final(frame).current_slot == s
                &&& np == op
                &&& if value >= 0 {
                    &&& n.active@ == o.active@.update(s, true) && n.x@ == o.x@ && n.y@ == o.y@
                    &&& n.tracking@ == o.tracking@.update(s, Some(value))
                } else {
                    &&& n.active@ == o.active@.update(s, false)
                    &&& n.x@ == o.x@.update(s, None)
                    &&& n.y@ == o.y@.update(s, None)
                    &&& n.tracking@ == o.tracking@.update(s, None)
                }
            } else if code == ABS_MT_POSITION_X {
                &&& final(frame).current_slot == s
                &&& np == op
                &&& n.x@ == o.x@.update(s, Some(value))
                &&& n.y@ == o.y@
                &&& n.active@ == o.active@.update(s, true)
            } else if code == ABS_MT_POSITION_Y {
                &&& final(frame).current_slot == s
                &&& n.y@ == o.y@.update(s, Some(value))
                &&& n.x@ == o.x@
                &&& n.active@ == o.active@.update(s, true)
                &&& np == match o.x@[s] {
                    Some(x) => op.push((x, value)),
                    None => op,
                }
            } else {
                &&& final(frame).current_slot == s
                &&& n.x@ == o.x@ && n.y@ == o.y@ && n.active@ == o.active@
                &&& np == op
            }
        }),
{
    if code == ABS_MT_SLOT {
        let v = if value < 0 {
            0
        } else {
            value
        };
        frame.current_slot = if (v as usize) < MT_SLOTS - 1 {
            v as usize
        } else {
            MT_SLOTS - 1
        };
    } else if code == ABS_MT_TRACKING_ID {
        let slot = frame.current_slot;
        if value >= 0 {
            slots.active[slot] = true;
            slots.tracking[slot] = Some(value);
        } else {
            slots.active[slot] = false;
            slots.x[slot] = None;
            slots.y[slot] = None;
            slots.tracking[slot] = None;
        }
    } else if code == ABS_MT_POSITION_X {
        let slot = frame.current_slot;
        slots.x[slot] = Some(value);
        slots.active[slot] = true;
    } else if code == ABS_MT_POSITION_Y {
        let slot = frame.current_slot;
        slots.y[slot] = Some(value);
        slots.active[slot] = true;
        if let Some(x) = slots.x[slot] {
            frame.pending_positions.push((x, value));
        }
    }
}

/// When a frame carried exactly one position per active slot, assign them
/// in slot order (covers drivers that omit `ABS_MT_SLOT` between contacts):
/// the k-th active slot takes the k-th pending pair. Otherwise nothing
/// changes.
pub fn resolve_pending_positions(slots: &mut SlotState, frame: &FrameState)
    ensures
        final(slots).active@ == old(slots).active@,
        final(slots).tracking@ == old(slots).tracking@,
        ({
            let o = *old(slots);
            let n = *final(slots);
            let p = frame.pending_positions@;
            let k = count_true(o.active@, MT_SLOTS as int);
            if k > 0 && p.len() == k {
                forall|s: int|
                    0 <= s < MT_SLOTS ==> if o.active@[s] {
                        #[trigger] n.x@[s] == Some(p[count_true(o.active@, s) as int].0) && n.y@[s]
                            == Some(p[count_true(o.active@, s) as int].1)
                    } else {
                        n.x@[s] == o.x@[s] && n.y@[s] == o.y@[s]
                    }
            } else {
                n.x@ == o.x@ && n.y@ == o.y@
            }
        }),
{
    let active = slots.active_count();
    if active == 0 || frame.pending_positions.len() != active {
        return ;
    }
    let ghost o = *slots;
    let mut k: usize = 0;
    let mut s: usize = 0;
    while s < MT_SLOTS
        invariant
            s <= MT_SLOTS,
            k == count_true(o.active@, s as int),
            k <= s,
            count_true(o.active@, MT_SLOTS as int) == frame.pending_positions@.len(),
            slots.active@ == o.active@,
            slots.tracking@ == o.tracking@,
            forall|t: int| s <= t < MT_SLOTS ==> #[trigger] slots.x@[t] == o.x@[t],
            forall|t: int| s <= t < MT_SLOTS ==> #[trigger] slots.y@[t] == o.y@[t],
            forall|t: int|
                0 <= t < s ==> #[trigger] slots.x@[t] == if o.active@[t] {
                    Some(frame.pending_positions@[count_true(o.active@, t) as int].0)
                } else {
                    o.x@[t]
                },
            forall|t: int|
                0 <= t < s ==> #[trigger] slots.y@[t] == if o.active@[t] {
                    Some(frame.pending_positions@[count_true(o.active@, t) as int].1)
                } else {
                    o.y@[t]
                },
        decreases MT_SLOTS - s,
    {
        if slots.active[s] {
            proof {
                lemma_count_true_mono(o.active@, s as int + 1, MT_SLOTS as int);
            }
            let (x, y) = frame.pending_positions[k];
            slots.x[s] = Some(x);
            slots.y[s] = Some(y);
            k = k + 1;
        }
        s = s + 1;
    }
}

proof fn lemma_count_true_mono(s: Seq<bool>, a: int, b: int)
    requires
        a <= b,
    ensures
        count_true(s, a) <= count_true(s, b),
    decreases b - a,
{
    if a < b {
        lemma_count_true_mono(s, a, b - 1);
    }
}

/// The clamped device position of an active slot with both coordinates.
pub open spec fn raw_contact(slots: SlotState, s: int, x_max: i32, y_max: i32) -> Option<(i32, i32)> {
    match (slots.x@[s], slots.y@[s]) {
        (Some(x), Some(y)) => if slots.active@[s] {
            Some(
                (
                    clamp_spec(x as int, 0, x_max as int) as i32,
                    clamp_spec(y as int, 0, y_max as int) as i32,
                ),
            )
        } else {
            None
        },
        _ => None,
    }
}

/// Device positions, clamped to the panel, of the first `MAX_CONTACTS`
/// slots that are active and have both coordinates; `None` for the others.
pub fn raw_contacts(slots: &SlotState, x_max: i32, y_max: i32) -> (r: [Option<(i32, i32)>; MAX_CONTACTS])
    requires
        x_max >= 0,
        y_max >= 0,
    ensures
        forall|s: int| 0 <= s < MAX_CONTACTS ==> #[trigger] r@[s] == raw_contact(*slots, s, x_max, y_max),
{
    let mut r: [Option<(i32, i32)>; MAX_CONTACTS] = [None; MAX_CONTACTS];
    let mut s: usize = 0;
    while s < MAX_CONTACTS
        invariant
            s <= MAX_CONTACTS,
            x_max >= 0,
            y_max >= 0,
            forall|t: int| 0 <= t < s ==> #[trigger] r@[t] == raw_contact(*slots, t, x_max, y_max),
        decreases MAX_CONTACTS - s,
    {
        if let (Some(x), Some(y)) = (slots.x[s], slots.y[s]) {
            if slots.active[s] {
                r[s] = Some((clamp_i32(x, 0, x_max), clamp_i32(y, 0, y_max)));
            } else {
                r[s] = None;
            }
        } else {
            r[s] = None;
        }
        s = s + 1;
    }
    r
}

/// The contact reported for the touch with contact id `id` down at oriented
/// position `p`: tip set, position clamped to the geometry.
pub open spec fn contact_for(id: u8, p: (i32, i32), geo: TouchGeometry) -> Contact {
    Contact {
        id,
        tip: true,
        x: clamp_spec(p.0 as int, 0, geo.x_max as int) as i32,
        y: clamp_spec(p.1 as int, 0, geo.y_max as int) as i32,
    }
}

/// Per reported slot, the contact of the touch down there: present when the
/// slot has an oriented position and its touch has a contact id.
pub open spec fn down_contacts(
    oriented: Seq<Option<(i32, i32)>>,
    ids: Seq<Option<u8>>,
    geo: TouchGeometry,
) -> Seq<Option<Contact>> {
    Seq::new(
        MAX_CONTACTS as nat,
        |s: int|
            match (oriented[s], ids[s]) {
                (Some(p), Some(id)) => Some(contact_for(id, p, geo)),
                _ => None,
            },
    )
}

/// The contacts of `s` in order, leaving out the empty entries.
pub open spec fn somes(s: Seq<Option<Contact>>) -> Seq<Contact>
    decreases s.len(),
{
    if s.len() == 0 {
        Seq::empty()
    } else {
        let rest = somes(s.drop_last());
        match s.last() {
            Some(c) => rest.push(c),
            None => rest,
        }
    }
}

/// `f` reports exactly the contacts `cs`, in order, packed to the front;
/// the entries after them are released.
pub open spec fn reports(f: TouchFrame, cs: Seq<Contact>) -> bool {
    &&& f.count == cs.len()
    &&& forall|i: int|
        0 <= i < MAX_CONTACTS ==> #[trigger] f.contacts@[i] == if i < cs.len() {
            cs[i]
        } else {
            empty_contact()
        }
}

/// Whether entry `e` holds a contact with id `id`.
pub open spec fn has_id(e: Option<Contact>, id: int) -> bool {
    e matches Some(c) && c.id == id
}

/// The entries of `s` hold contacts with ids below `MAX_CONTACTS`, no id
/// twice.
pub open spec fn distinct_small_ids(s: Seq<Option<Contact>>) -> bool {
    &&& forall|p: int| 0 <= p < s.len() && (#[trigger] s[p]) is Some ==> s[p]->0.id < MAX_CONTACTS
    &&& forall|p: int, q: int|
        0 <= p < q < s.len() && (#[trigger] s[p]) is Some && (#[trigger] s[q]) is Some ==> s[p]->0.id
            != s[q]->0.id
}

/// One more entry of `x` adds its contact, if any, to the end.
proof fn lemma_somes_step(x: Seq<Option<Contact>>, s: int)
    requires
        0 <= s < x.len(),
    ensures
        somes(x.take(s + 1)) == match x[s] {
            Some(c) => somes(x.take(s)).push(c),
            None => somes(x.take(s)),
        },
{
    assert(x.take(s + 1).drop_last() =~= x.take(s));
    assert(x.take(s + 1).last() == x[s]);
}

/// Dropping the empty entries of two sequences one after the other.
proof fn lemma_somes_concat(a: Seq<Option<Contact>>, b: Seq<Option<Contact>>)
    ensures
        somes(a + b) == somes(a) + somes(b),
    decreases b.len(),
{
    if b.len() == 0 {
        assert(a + b =~= a);
        assert(somes(a) + somes(b) =~= somes(a));
    } else {
        lemma_somes_concat(a, b.drop_last());
        assert((a + b).drop_last() =~= a + b.drop_last());
        assert((a + b).last() == b.last());
        match b.last() {
            Some(c) => {
                assert(somes(a) + somes(b.drop_last()).push(c) =~= (somes(a) + somes(
                    b.drop_last(),
                )).push(c));
            },
            None => {},
        }
    }
}

/// Every contact that `somes` keeps stands in an entry of `x`.
proof fn lemma_somes_from(x: Seq<Option<Contact>>)
    ensures
        somes(x).len() <= x.len(),
        forall|i: int|
            0 <= i < somes(x).len() ==> exists|p: int|
                0 <= p < x.len() && #[trigger] x[p] == Some(#[trigger] somes(x)[i]),
    decreases x.len(),
{
    if x.len() > 0 {
        let y = x.drop_last();
        lemma_somes_from(y);
        assert forall|i: int| 0 <= i < somes(x).len() implies exists|p: int|
            0 <= p < x.len() && #[trigger] x[p] == Some(#[trigger] somes(x)[i]) by {
            if i < somes(y).len() {
                assert(somes(x)[i] == somes(y)[i]);
                let p = choose|p: int| 0 <= p < y.len() && #[trigger] y[p] == Some(somes(y)[i]);
                assert(x[p] == y[p]);
            } else {
                assert(x[x.len() - 1] == Some(somes(x)[i]));
            }
        }
    }
}

/// Distinct small ids among the entries stay distinct and small among the
/// contacts kept.
proof fn lemma_somes_distinct(x: Seq<Option<Contact>>)
    requires
        distinct_small_ids(x),
    ensures
        forall|i: int| 0 <= i < somes(x).len() ==> (#[trigger] somes(x)[i]).id < MAX_CONTACTS,
        forall|i: int, j: int|
            0 <= i < j < somes(x).len() ==> (#[trigger] somes(x)[i]).id != (#[trigger] somes(
                x,
            )[j]).id,
    decreases x.len(),
{
    lemma_somes_from(x);
    assert forall|i: int| 0 <= i < somes(x).len() implies (#[trigger] somes(x)[i]).id
        < MAX_CONTACTS by {
        let p = choose|p: int| 0 <= p < x.len() && #[trigger] x[p] == Some(somes(x)[i]);
        assert(x[p] is Some);
    }
    if x.len() > 0 {
        let y = x.drop_last();
        assert(distinct_small_ids(y)) by {
            assert forall|p: int| 0 <= p < y.len() && (#[trigger] y[p]) is Some implies y[p]->0.id
                < MAX_CONTACTS by {
                assert(x[p] == y[p]);
            }
            assert forall|p: int, q: int|
                0 <= p < q < y.len() && (#[trigger] y[p]) is Some && (#[trigger] y[q]) is Some implies y[p]->0.id
                != y[q]->0.id by {
                assert(x[p] == y[p] && x[q] == y[q]);
            }
        }
        lemma_somes_distinct(y);
        lemma_somes_from(y);
        match x.last() {
            Some(c) => {
                assert forall|i: int, j: int|
                    0 <= i < j < somes(x).len() implies (#[trigger] somes(x)[i]).id != (#[trigger] somes(
                    x,
                )[j]).id by {
                    if j < somes(y).len() {
                        assert(somes(x)[i] == somes(y)[i] && somes(x)[j] == somes(y)[j]);
                    } else {
                        assert(somes(x)[i] == somes(y)[i]);
                        let p = choose|p: int|
                            0 <= p < y.len() && #[trigger] y[p] == Some(somes(y)[i]);
                        assert(x[p] == y[p]);
                        assert(x[x.len() - 1] is Some);
                    }
                }
            },
            None => {},
        }
    }
}

/// Contacts with ids below `MAX_CONTACTS`, no id twice, are at most
/// `MAX_CONTACTS` many.
proof fn lemma_distinct_ids_fit(cs: Seq<Contact>)
    requires
        forall|i: int| 0 <= i < cs.len() ==> (#[trigger] cs[i]).id < MAX_CONTACTS,
        forall|i: int, j: int| 0 <= i < j < cs.len() ==> (#[trigger] cs[i]).id != (#[trigger] cs[j]).id,
    ensures
        cs.len() <= MAX_CONTACTS,
{
    let ids = cs.map_values(|c: Contact| c.id as int);
    assert(ids.no_duplicates()) by {
        assert forall|i: int, j: int|
            0 <= i < ids.len() && 0 <= j < ids.len() && i != j implies ids[i] != ids[j] by {
            if i < j {
                assert(cs[i].id != cs[j].id);
            } else {
                assert(cs[j].id != cs[i].id);
            }
        }
    }
    ids.unique_seq_to_set();
    vstd::set_lib::lemma_int_range(0, MAX_CONTACTS as int);
    assert(ids.to_set().subset_of(vstd::set_lib::set_int_range(0, MAX_CONTACTS as int))) by {
        assert forall|v: int| ids.to_set().contains(v) implies vstd::set_lib::set_int_range(
            0,
            MAX_CONTACTS as int,
        ).contains(v) by {
            let i = choose|i: int| 0 <= i < ids.len() && ids[i] == v;
            assert(cs[i].id < MAX_CONTACTS);
        }
    }
    vstd::set_lib::lemma_len_subset(ids.to_set(), vstd::set_lib::set_int_range(0, MAX_CONTACTS as int));
}

/// Add `c` after the reported contacts `cs`.
fn push_contact(frame: &mut TouchFrame, c: Contact, Ghost(cs): Ghost<Seq<Contact>>)
    requires
        old(frame).count < MAX_CONTACTS,
        reports(*old(frame), cs),
    ensures
        reports(*final(frame), cs.push(c)),
        final(frame).count == old(frame).count + 1,
        final(frame).contacts@ == old(frame).contacts@.update(old(frame).count as int, c),
{
    let n = frame.count as usize;
    frame.contacts[n] = c;
    frame.count = frame.count + 1;
    assert forall|i: int| 0 <= i < MAX_CONTACTS implies #[trigger] frame.contacts@[i] == if i
        < cs.push(c).len() {
        cs.push(c)[i]
    } else {
        empty_contact()
    } by {
        if i < n {
            assert(cs.push(c)[i] == cs[i]);
        }
    }
}

/// Build the frame of the touches now down: the contact of every slot that
/// has an oriented position and a contact id, in slot order and packed to
/// the front, positions clamped to the geometry; the entries after them are
/// released, so contact `i` is down exactly when `i < count`.
pub fn frame_from_oriented(
    oriented: &[Option<(i32, i32)>; MAX_CONTACTS],
    ids: &[Option<u8>; MAX_CONTACTS],
    geo: &TouchGeometry,
) -> (r: TouchFrame)
    requires
        geo.x_max >= 0,
        geo.y_max >= 0,
    ensures
        reports(r, somes(down_contacts(oriented@, ids@, *geo))),
        r.count <= MAX_CONTACTS,
        forall|i: int| 0 <= i < MAX_CONTACTS ==> (#[trigger] r.contacts@[i]).tip == (i < r.count),
{
    let ghost downs = down_contacts(oriented@, ids@, *geo);
    let mut frame = TouchFrame::default();
    assert(reports(frame, somes(downs.take(0)))) by {
        assert(downs.take(0).len() == 0);
    }
    let mut s: usize = 0;
    while s < MAX_CONTACTS
        invariant
            s <= MAX_CONTACTS,
            geo.x_max >= 0,
            geo.y_max >= 0,
            downs == down_contacts(oriented@, ids@, *geo),
            reports(frame, somes(downs.take(s as int))),
            frame.count <= s,
            forall|i: int|
                0 <= i < MAX_CONTACTS ==> (#[trigger] frame.contacts@[i]).tip == (i < frame.count),
        decreases MAX_CONTACTS - s,
    {
        proof {
            lemma_somes_step(downs, s as int);
        }
        if let (Some((ox, oy)), Some(id)) = (oriented[s], ids[s]) {
            let c = Contact {
                id,
                tip: true,
                x: clamp_i32(ox, 0, geo.x_max),
                y: clamp_i32(oy, 0, geo.y_max),
            };
            assert(downs[s as int] == Some(c));
            push_contact(&mut frame, c, Ghost(somes(downs.take(s as int))));
        } else {
            assert(downs[s as int] is None);
        }
        s = s + 1;
    }
    assert(downs.take(MAX_CONTACTS as int) =~= downs);
    frame
}

/// A touch reported down in the last report: which touch it is (its evdev
/// tracking id, `None` for drivers that send none) and the contact reported
/// for it.
#[derive(Debug, Clone, Copy)]
pub struct ReportedTouch {
    pub key: Option<i32>,
    pub contact: Contact,
}

/// What the host has been told: per reported slot, the touch it last saw
/// down there, and the last frame sent.
pub struct ContactTracker {
    pub down: [Option<ReportedTouch>; MAX_CONTACTS],
    pub last_sent: TouchFrame,
}

/// Whether `d` holds a touch with contact id `id`.
pub open spec fn holds_id(d: Option<ReportedTouch>, id: int) -> bool {
    d matches Some(t) && t.contact.id == id
}

/// Whether some touch of `down` has contact id `id`.
pub open spec fn held(down: Seq<Option<ReportedTouch>>, id: int) -> bool {
    exists|s: int| 0 <= s < MAX_CONTACTS && #[trigger] holds_id(down[s], id)
}

/// The contact id of the touch in `d` (0 when there is none).
pub open spec fn id_of(d: Option<ReportedTouch>) -> u8 {
    match d {
        Some(t) => t.contact.id,
        None => 0,
    }
}

/// The touches held have contact ids below `MAX_CONTACTS`, no id twice.
pub open spec fn tracker_wf(down: Seq<Option<ReportedTouch>>) -> bool {
    &&& down.len() == MAX_CONTACTS
    &&& forall|s: int| 0 <= s < MAX_CONTACTS && (#[trigger] down[s]) is Some ==> id_of(down[s]) < MAX_CONTACTS
    &&& forall|a: int, b: int|
        0 <= a < b < MAX_CONTACTS && (#[trigger] down[a]) is Some && (#[trigger] down[b]) is Some
            ==> id_of(down[a]) != id_of(down[b])
}

/// Slot `s` reports a touch this frame: touch is not suppressed and the
/// slot has a position.
pub open spec fn present(oriented: Seq<Option<(i32, i32)>>, suppressed: bool, s: int) -> bool {
    !suppressed && oriented[s] is Some
}

/// The touch down in slot `s` at the last report is still down: the slot
/// reports a touch and it is the same touch (same tracking id).
pub open spec fn continues(
    down: Seq<Option<ReportedTouch>>,
    keys: Seq<Option<i32>>,
    oriented: Seq<Option<(i32, i32)>>,
    suppressed: bool,
    s: int,
) -> bool {
    down[s] matches Some(t) && present(oriented, suppressed, s) && t.key == keys[s]
}

/// The lowest contact id not marked in `used`.
pub open spec fn first_unused(used: Seq<bool>) -> Option<u8> {
    if !used[0] {
        Some(0u8)
    } else if !used[1] {
        Some(1u8)
    } else if !used[2] {
        Some(2u8)
    } else if !used[3] {
        Some(3u8)
    } else if !used[4] {
        Some(4u8)
    } else {
        None
    }
}

/// Contact ids for the touches of the first `n` slots, with the ids in use
/// after them. A continuing touch keeps its id; a new touch takes the lowest
/// id that neither a touch of the last report nor an earlier new touch has,
/// and waits for a later frame when none is left; a slot without a touch
/// has none.
pub open spec fn touch_ids(
    down: Seq<Option<ReportedTouch>>,
    keys: Seq<Option<i32>>,
    oriented: Seq<Option<(i32, i32)>>,
    suppressed: bool,
    n: nat,
) -> (Seq<bool>, Seq<Option<u8>>)
    decreases n,
{
    if n == 0 {
        (Seq::new(MAX_CONTACTS as nat, |i: int| held(down, i)), Seq::empty())
    } else {
        let prev = touch_ids(down, keys, oriented, suppressed, (n - 1) as nat);
        let used = prev.0;
        let ids = prev.1;
        let s = n - 1;
        if continues(down, keys, oriented, suppressed, s) {
            (used, ids.push(Some(id_of(down[s]))))
        } else if present(oriented, suppressed, s) {
            match first_unused(used) {
                Some(i) => (used.update(i as int, true), ids.push(Some(i))),
                None => (used, ids.push(None)),
            }
        } else {
            (used, ids.push(None))
        }
    }
}

/// Per reported slot, the lifted contact to report: the touch of the last
/// report that is no longer down, with its tip cleared.
pub open spec fn lifted_contacts(
    down: Seq<Option<ReportedTouch>>,
    keys: Seq<Option<i32>>,
    oriented: Seq<Option<(i32, i32)>>,
    suppressed: bool,
) -> Seq<Option<Contact>> {
    Seq::new(
        MAX_CONTACTS as nat,
        |s: int|
            match down[s] {
                Some(t) => if continues(down, keys, oriented, suppressed, s) {
                    None
                } else {
                    Some(Contact { tip: false, ..t.contact })
                },
                None => None,
            },
    )
}

/// What the contact ids handed out guarantee: each is below
/// `MAX_CONTACTS`; a continuing touch keeps its id; a new touch gets an id
/// that no touch of the last report had; no id is given twice; only slots
/// that report a touch get one.
proof fn lemma_touch_ids(
    down: Seq<Option<ReportedTouch>>,
    keys: Seq<Option<i32>>,
    oriented: Seq<Option<(i32, i32)>>,
    suppressed: bool,
    n: nat,
)
    requires
        tracker_wf(down),
        n <= MAX_CONTACTS,
    ensures
        ({
            let used = touch_ids(down, keys, oriented, suppressed, n).0;
            let ids = touch_ids(down, keys, oriented, suppressed, n).1;
            &&& used.len() == MAX_CONTACTS
            &&& ids.len() == n
            &&& forall|i: int| 0 <= i < MAX_CONTACTS && held(down, i) ==> #[trigger] used[i]
            &&& forall|s: int|
                0 <= s < n && (#[trigger] ids[s]) is Some ==> ids[s]->0 < MAX_CONTACTS
                    && used[ids[s]->0 as int] && present(oriented, suppressed, s)
            &&& forall|s: int|
                0 <= s < n && continues(down, keys, oriented, suppressed, s) ==> #[trigger] ids[s]
                    == Some(id_of(down[s]))
            &&& forall|s: int|
                0 <= s < n && !continues(down, keys, oriented, suppressed, s) && (#[trigger] ids[s]) is Some
                    ==> !held(down, ids[s]->0 as int)
            &&& forall|a: int, b: int|
                0 <= a < b < n && (#[trigger] ids[a]) is Some && (#[trigger] ids[b]) is Some ==> ids[a]
                    != ids[b]
        }),
    decreases n,
{
    if n > 0 {
        let m = (n - 1) as nat;
        lemma_touch_ids(down, keys, oriented, suppressed, m);
        let used = touch_ids(down, keys, oriented, suppressed, m).0;
        let ids = touch_ids(down, keys, oriented, suppressed, m).1;
        let s = m as int;
        if continues(down, keys, oriented, suppressed, s) {
            let v = id_of(down[s]);
            assert(holds_id(down[s], v as int));
            assert(held(down, v as int));
            assert forall|a: int| 0 <= a < s && (#[trigger] ids[a]) is Some implies ids[a] != Some(v) by {
                if continues(down, keys, oriented, suppressed, a) {
                    assert(down[a] is Some && down[s] is Some);
                }
            }
        } else if present(oriented, suppressed, s) {
            match first_unused(used) {
                Some(i) => {
                    assert(!used[i as int]);
                    assert forall|a: int| 0 <= a < s && (#[trigger] ids[a]) is Some implies ids[a] != Some(i) by {
                    }
                },
                None => {},
            }
        }
    }
}

impl ContactTracker {
    /// The tracker's touches are well formed.
    pub open spec fn wf(&self) -> bool {
        tracker_wf(self.down@)
    }

    /// No touch down, nothing reported yet.
    pub fn new() -> (r: Self)
        ensures
            r.wf(),
            forall|s: int| 0 <= s < MAX_CONTACTS ==> #[trigger] r.down@[s] is None,
            reports(r.last_sent, Seq::empty()),
    {
        let t = ContactTracker { down: [None; MAX_CONTACTS], last_sent: TouchFrame::default() };
        assert(reports(t.last_sent, Seq::empty()));
        t
    }

    fn continues_at(
        &self,
        s: usize,
        slots: &SlotState,
        oriented: &[Option<(i32, i32)>; MAX_CONTACTS],
        suppressed: bool,
    ) -> (r: bool)
        requires
            s < MAX_CONTACTS,
        ensures
            r == continues(self.down@, slots.tracking@, oriented@, suppressed, s as int),
    {
        match self.down[s] {
            Some(t) => {
                if suppressed {
                    return false;
                }
                if oriented[s].is_none() {
                    return false;
                }
                match (t.key, slots.tracking[s]) {
                    (Some(a), Some(b)) => a == b,
                    (None, None) => true,
                    _ => false,
                }
            },
            None => false,
        }
    }

    /// The contact id of the touch now down in each reported slot.
    fn assign_ids(
        &self,
        slots: &SlotState,
        oriented: &[Option<(i32, i32)>; MAX_CONTACTS],
        suppressed: bool,
    ) -> (r: [Option<u8>; MAX_CONTACTS])
        requires
            self.wf(),
        ensures
            r@ == touch_ids(self.down@, slots.tracking@, oriented@, suppressed, MAX_CONTACTS as nat).1,
    {
        let ghost down = self.down@;
        let ghost keys = slots.tracking@;
        let mut used: [bool; MAX_CONTACTS] = [false; MAX_CONTACTS];
        let mut s: usize = 0;
        while s < MAX_CONTACTS
            invariant
                s <= MAX_CONTACTS,
                down == self.down@,
                tracker_wf(down),
                forall|i: int|
                    0 <= i < MAX_CONTACTS ==> #[trigger] used@[i] == exists|t: int|
                        0 <= t < s && #[trigger] holds_id(down[t], i),
            decreases MAX_CONTACTS - s,
        {
            let ghost before = used@;
            if let Some(t) = self.down[s] {
                let v = t.contact.id;
                assert(down[s as int] is Some);
                used[v as usize] = true;
                assert forall|i: int| 0 <= i < MAX_CONTACTS implies #[trigger] used@[i] == exists|u: int|
                    0 <= u < s + 1 && #[trigger] holds_id(down[u], i) by {
                    if i == v {
                        assert(holds_id(down[s as int], i));
                    } else {
                        assert(used@[i] == before[i]);
                        if exists|u: int| 0 <= u < s + 1 && #[trigger] holds_id(down[u], i) {
                            let u = choose|u: int| 0 <= u < s + 1 && #[trigger] holds_id(down[u], i);
                            assert(u != s);
                        }
                    }
                }
            } else {
                assert forall|i: int| 0 <= i < MAX_CONTACTS implies #[trigger] used@[i] == exists|u: int|
                    0 <= u < s + 1 && #[trigger] holds_id(down[u], i) by {
                    if exists|u: int| 0 <= u < s + 1 && #[trigger] holds_id(down[u], i) {
                        let u = choose|u: int| 0 <= u < s + 1 && #[trigger] holds_id(down[u], i);
                        assert(u != s);
                    }
                }
            }
            s = s + 1;
        }
        assert(used@ =~= touch_ids(down, keys, oriented@, suppressed, 0).0);
        let mut ids: [Option<u8>; MAX_CONTACTS] = [None; MAX_CONTACTS];
        s = 0;
        while s < MAX_CONTACTS
            invariant
                s <= MAX_CONTACTS,
                down == self.down@,
                keys == slots.tracking@,
                used@ == touch_ids(down, keys, oriented@, suppressed, s as nat).0,
                ids@.take(s as int) == touch_ids(down, keys, oriented@, suppressed, s as nat).1,
            decreases MAX_CONTACTS - s,
        {
            let ghost prev = touch_ids(down, keys, oriented@, suppressed, s as nat);
            let ghost before = ids@;
            if self.continues_at(s, slots, oriented, suppressed) {
                if let Some(t) = self.down[s] {
                    ids[s] = Some(t.contact.id);
                }
            } else if !suppressed && oriented[s].is_some() {
                let f = if !used[0] {
                    Some(0u8)
                } else if !used[1] {
                    Some(1u8)
                } else if !used[2] {
                    Some(2u8)
                } else if !used[3] {
                    Some(3u8)
                } else if !used[4] {
                    Some(4u8)
                } else {
                    None
                };
                assert(f == first_unused(prev.0));
                match f {
                    Some(i) => {
                        used[i as usize] = true;
                        ids[s] = Some(i);
                    },
                    None => {
                        ids[s] = None;
                    },
                }
            } else {
                ids[s] = None;
            }
            assert(ids@.take(s + 1) =~= touch_ids(down, keys, oriented@, suppressed, (s + 1) as nat).1) by {
                assert(ids@.take(s as int) =~= before.take(s as int));
            }
            s = s + 1;
        }
        assert(ids@.take(MAX_CONTACTS as int) =~= ids@);
        ids
    }
}

/// Every contact of a report, down or lifted, has its own id below
/// `MAX_CONTACTS`.
proof fn lemma_report_ids(
    down: Seq<Option<ReportedTouch>>,
    keys: Seq<Option<i32>>,
    oriented: Seq<Option<(i32, i32)>>,
    suppressed: bool,
    geo: TouchGeometry,
)
    requires
        tracker_wf(down),
    ensures
        distinct_small_ids(
            down_contacts(oriented, touch_ids(down, keys, oriented, suppressed, MAX_CONTACTS as nat).1, geo)
                + lifted_contacts(down, keys, oriented, suppressed),
        ),
{
    let ids = touch_ids(down, keys, oriented, suppressed, MAX_CONTACTS as nat).1;
    let downs = down_contacts(oriented, ids, geo);
    let lifts = lifted_contacts(down, keys, oriented, suppressed);
    let x = downs + lifts;
    lemma_touch_ids(down, keys, oriented, suppressed, MAX_CONTACTS as nat);
    assert forall|p: int| 0 <= p < x.len() && (#[trigger] x[p]) is Some implies x[p]->0.id < MAX_CONTACTS by {
        if p < MAX_CONTACTS {
            assert(x[p] == downs[p]);
            assert(ids[p] is Some);
        } else {
            assert(x[p] == lifts[p - MAX_CONTACTS]);
            assert(down[p - MAX_CONTACTS] is Some);
        }
    }
    assert forall|p: int, q: int|
        0 <= p < q < x.len() && (#[trigger] x[p]) is Some && (#[trigger] x[q]) is Some implies x[p]->0.id
        != x[q]->0.id by {
        if q < MAX_CONTACTS {
            assert(x[p] == downs[p] && x[q] == downs[q]);
            assert(ids[p] is Some && ids[q] is Some);
        } else if p >= MAX_CONTACTS {
            let a = p - MAX_CONTACTS;
            let b = q - MAX_CONTACTS;
            assert(x[p] == lifts[a] && x[q] == lifts[b]);
            assert(down[a] is Some && down[b] is Some);
        } else {
            let b = q - MAX_CONTACTS;
            assert(x[p] == downs[p] && x[q] == lifts[b]);
            assert(ids[p] is Some);
            assert(down[b] is Some);
            assert(!continues(down, keys, oriented, suppressed, b));
            assert(holds_id(down[b], id_of(down[b]) as int));
            if continues(down, keys, oriented, suppressed, p) {
                assert(p != b);
                assert(down[p] is Some);
            }
        }
    }
}

/// The touches the tracker holds after a report: per reported slot, the
/// touch down there with its contact, or none.
pub open spec fn next_down(
    down: Seq<Option<ReportedTouch>>,
    keys: Seq<Option<i32>>,
    oriented: Seq<Option<(i32, i32)>>,
    suppressed: bool,
    geo: TouchGeometry,
) -> Seq<Option<ReportedTouch>> {
    let downs = down_contacts(
        oriented,
        touch_ids(down, keys, oriented, suppressed, MAX_CONTACTS as nat).1,
        geo,
    );
    Seq::new(
        MAX_CONTACTS as nat,
        |s: int|
            match downs[s] {
                Some(c) => Some(ReportedTouch { key: keys[s], contact: c }),
                None => None,
            },
    )
}

/// Every entry of `x` that holds a contact is kept by `somes`.
proof fn lemma_somes_keeps(x: Seq<Option<Contact>>)
    ensures
        forall|p: int|
            0 <= p < x.len() && (#[trigger] x[p]) is Some ==> exists|i: int|
                0 <= i < somes(x).len() && somes(x)[i] == x[p]->0,
    decreases x.len(),
{
    if x.len() > 0 {
        let y = x.drop_last();
        lemma_somes_keeps(y);
        assert forall|p: int| 0 <= p < x.len() && (#[trigger] x[p]) is Some implies exists|i: int|
            0 <= i < somes(x).len() && somes(x)[i] == x[p]->0 by {
            if p < y.len() {
                assert(x[p] == y[p]);
                let i = choose|i: int| 0 <= i < somes(y).len() && somes(y)[i] == y[p]->0;
                assert(somes(x)[i] == somes(y)[i]);
            } else {
                assert(somes(x)[somes(y).len() as int] == x[p]->0);
            }
        }
    }
}

/// A lifted touch is reported exactly once: the report lists it with its
/// tip cleared (so the report is sent), and afterwards no touch the
/// tracker holds has its contact id, so no later report lifts it again.
pub proof fn lemma_lift_reported_once(
    down: Seq<Option<ReportedTouch>>,
    keys: Seq<Option<i32>>,
    oriented: Seq<Option<(i32, i32)>>,
    suppressed: bool,
    geo: TouchGeometry,
    s: int,
)
    requires
        tracker_wf(down),
        0 <= s < MAX_CONTACTS,
        down[s] is Some,
        !continues(down, keys, oriented, suppressed, s),
    ensures
        ({
            let lifts = lifted_contacts(down, keys, oriented, suppressed);
            let c = Contact { tip: false, ..down[s]->0.contact };
            &&& lifts[s] == Some(c)
            &&& exists|i: int| 0 <= i < somes(lifts).len() && somes(lifts)[i] == c
            &&& !held(next_down(down, keys, oriented, suppressed, geo), c.id as int)
        }),
{
    let lifts = lifted_contacts(down, keys, oriented, suppressed);
    let ids = touch_ids(down, keys, oriented, suppressed, MAX_CONTACTS as nat).1;
    let nd = next_down(down, keys, oriented, suppressed, geo);
    let c = Contact { tip: false, ..down[s]->0.contact };
    lemma_somes_keeps(lifts);
    assert(lifts[s] is Some);
    lemma_touch_ids(down, keys, oriented, suppressed, MAX_CONTACTS as nat);
    assert(holds_id(down[s], c.id as int));
    assert forall|t: int| 0 <= t < MAX_CONTACTS implies !#[trigger] holds_id(nd[t], c.id as int) by {
        if nd[t] is Some {
            assert(ids[t] is Some);
            if continues(down, keys, oriented, suppressed, t) {
                assert(t != s);
                assert(down[t] is Some);
            }
        }
    }
}

impl ContactTracker {
    /// The end-of-frame decision. Each touch keeps one contact id while it
    /// stays down, and a new touch, also one in a reused slot, gets an id
    /// that no touch of the last report had. The report lists the touches
    /// down, in slot order, then each touch of the last report that is down
    /// no more (lifted, replaced, or suppressed by the palm rule), once,
    /// with its tip cleared; `count` covers both. It goes to the host when
    /// it differs from the last one sent, and always when it reports a lift.
    pub fn next_report(
        &mut self,
        slots: &SlotState,
        oriented: &[Option<(i32, i32)>; MAX_CONTACTS],
        geo: &TouchGeometry,
        suppressed: bool,
    ) -> (r: Option<TouchFrame>)
        requires
            old(self).wf(),
            geo.x_max >= 0,
            geo.y_max >= 0,
        ensures
            final(self).wf(),
            ({
                let ids = touch_ids(
                    old(self).down@,
                    slots.tracking@,
                    oriented@,
                    suppressed,
                    MAX_CONTACTS as nat,
                ).1;
                let downs = down_contacts(oriented@, ids, *geo);
                let lifts = lifted_contacts(old(self).down@, slots.tracking@, oriented@, suppressed);
                let f = final(self).last_sent;
                &&& reports(f, somes(downs) + somes(lifts))
                &&& final(self).down@ == next_down(
                    old(self).down@,
                    slots.tracking@,
                    oriented@,
                    suppressed,
                    *geo,
                )
                &&& r == if f != old(self).last_sent || somes(lifts).len() > 0 {
                    Some(f)
                } else {
                    None
                }
                &&& f.count <= MAX_CONTACTS
                &&& forall|i: int|
                    0 <= i < MAX_CONTACTS ==> (#[trigger] f.contacts@[i]).tip == (i < somes(downs).len())
                &&& forall|i: int, j: int|
                    0 <= i < j < f.count ==> (#[trigger] f.contacts@[i]).id != (#[trigger] f.contacts@[j]).id
                &&& forall|s: int|
                    0 <= s < MAX_CONTACTS && (#[trigger] ids[s]) is Some && !continues(
                        old(self).down@,
                        slots.tracking@,
                        oriented@,
                        suppressed,
                        s,
                    ) ==> !held(old(self).down@, ids[s]->0 as int)
            }),
    {
        let ids = self.assign_ids(slots, oriented, suppressed);
        let ghost down = self.down@;
        let ghost keys = slots.tracking@;
        let ghost downs = down_contacts(oriented@, ids@, *geo);
        let ghost lifts = lifted_contacts(down, keys, oriented@, suppressed);
        proof {
            lemma_touch_ids(down, keys, oriented@, suppressed, MAX_CONTACTS as nat);
            lemma_report_ids(down, keys, oriented@, suppressed, *geo);
            lemma_somes_concat(downs, lifts);
            lemma_somes_distinct(downs + lifts);
            lemma_distinct_ids_fit(somes(downs + lifts));
        }
        let mut frame = frame_from_oriented(oriented, &ids, geo);
        let ghost nd = somes(downs).len();
        let mut has_lift = false;
        assert(somes(downs) + somes(lifts.take(0)) =~= somes(downs)) by {
            assert(lifts.take(0).len() == 0);
        }
        let mut s: usize = 0;
        while s < MAX_CONTACTS
            invariant
                s <= MAX_CONTACTS,
                self.down@ == down,
                keys == slots.tracking@,
                lifts == lifted_contacts(down, keys, oriented@, suppressed),
                nd == somes(downs).len(),
                nd + somes(lifts).len() <= MAX_CONTACTS,
                reports(frame, somes(downs) + somes(lifts.take(s as int))),
                has_lift == (somes(lifts.take(s as int)).len() > 0),
                forall|i: int| 0 <= i < MAX_CONTACTS ==> (#[trigger] frame.contacts@[i]).tip == (i < nd),
            decreases MAX_CONTACTS - s,
        {
            proof {
                lemma_somes_step(lifts, s as int);
                lemma_somes_concat(lifts.take(s as int + 1), lifts.skip(s as int + 1));
                assert(lifts.take(s as int + 1) + lifts.skip(s as int + 1) =~= lifts);
            }
            let ghost cs = somes(downs) + somes(lifts.take(s as int));
            if let Some(t) = self.down[s] {
                if !self.continues_at(s, slots, oriented, suppressed) {
                    let c = Contact { tip: false, ..t.contact };
                    assert(lifts[s as int] == Some(c));
                    push_contact(&mut frame, c, Ghost(cs));
                    assert(cs.push(c) =~= somes(downs) + somes(lifts.take(s as int + 1)));
                    has_lift = true;
                } else {
                    assert(lifts[s as int] is None);
                }
            } else {
                assert(lifts[s as int] is None);
            }
            s = s + 1;
        }
        assert(lifts.take(MAX_CONTACTS as int) =~= lifts);
        let mut new_down: [Option<ReportedTouch>; MAX_CONTACTS] = [None; MAX_CONTACTS];
        s = 0;
        while s < MAX_CONTACTS
            invariant
                s <= MAX_CONTACTS,
                geo.x_max >= 0,
                geo.y_max >= 0,
                keys == slots.tracking@,
                downs == down_contacts(oriented@, ids@, *geo),
                forall|t: int|
                    0 <= t < s ==> #[trigger] new_down@[t] == match downs[t] {
                        Some(c) => Some(ReportedTouch { key: keys[t], contact: c }),
                        None => None::<ReportedTouch>,
                    },
            decreases MAX_CONTACTS - s,
        {
            if let (Some((ox, oy)), Some(id)) = (oriented[s], ids[s]) {
                let c = Contact {
                    id,
                    tip: true,
                    x: clamp_i32(ox, 0, geo.x_max),
                    y: clamp_i32(oy, 0, geo.y_max),
                };
                new_down[s] = Some(ReportedTouch { key: slots.tracking[s], contact: c });
            } else {
                new_down[s] = None;
            }
            s = s + 1;
        }
        assert(tracker_wf(new_down@)) by {
            assert forall|a: int| 0 <= a < MAX_CONTACTS && (#[trigger] new_down@[a]) is Some implies id_of(
                new_down@[a],
            ) < MAX_CONTACTS by {
                assert(ids@[a] is Some);
            }
            assert forall|a: int, b: int|
                0 <= a < b < MAX_CONTACTS && (#[trigger] new_down@[a]) is Some && (#[trigger] new_down@[b]) is Some implies id_of(
                new_down@[a],
            ) != id_of(new_down@[b]) by {
                assert(ids@[a] is Some && ids@[b] is Some);
            }
        }
        assert(new_down@ =~= next_down(down, keys, oriented@, suppressed, *geo));
        let changed = frames_differ(&frame, &self.last_sent);
        let send = changed || has_lift;
        self.down = new_down;
        self.last_sent = frame;
        assert forall|i: int, j: int| 0 <= i < j < frame.count implies (#[trigger] frame.contacts@[i]).id
            != (#[trigger] frame.contacts@[j]).id by {
            assert(frame.contacts@[i] == somes(downs + lifts)[i]);
            assert(frame.contacts@[j] == somes(downs + lifts)[j]);
        }
        if send {
            Some(frame)
        } else {
            None
        }
    }
}

/// What the pen tells the touch loop: whether it is down, and how long ago
/// it was last lifted.
#[derive(Debug, Clone, Copy)]
pub struct PalmReading {
    pub pen_down: bool,
    pub ms_since_pen_up: Option<u128>,
}

/// Palm rejection: touch is suppressed while the pen is down and for
/// `grace_ms` after it was lifted; with no reading (palm rejection off, or
/// the shared state unavailable) touch is never suppressed.
pub fn should_suppress_palm(palm: Option<PalmReading>, grace_ms: u64) -> (r: bool)
    ensures
        r == match palm {
            None => false,
            Some(p) => p.pen_down || match p.ms_since_pen_up {
                Some(ms) => ms < grace_ms,
                None => false,
            },
        },
{
    match palm {
        None => false,
        Some(p) => {
            if p.pen_down {
                return true;
            }
            match p.ms_since_pen_up {
                Some(ms) => ms < grace_ms as u128,
                None => false,
            }
        },
    }
}

/// Whether two frames differ in any contact or in the count.
pub fn frames_differ(a: &TouchFrame, b: &TouchFrame) -> (r: bool)
    ensures
        r == (*a != *b),
{
    if a.count != b.count {
        return true;
    }
    let mut i: usize = 0;
    while i < MAX_CONTACTS
        invariant
            i <= MAX_CONTACTS,
            a.count == b.count,
            forall|t: int| 0 <= t < i ==> #[trigger] a.contacts@[t] == b.contacts@[t],
        decreases MAX_CONTACTS - i,
    {
        if a.contacts[i] != b.contacts[i] {
            return true;
        }
        i = i + 1;
    }
    assert(a.contacts =~= b.contacts);
    false
}

} // verus!
