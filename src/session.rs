//! One capture session: the slots of a reward screen, filled in over
//! repeated attempts, and the snapshots that report them.

use vstd::prelude::*;

use crate::catalog::Item;
use crate::geometry::{
    frame_bottom_for, frame_width_for, offsets_for, offsets_view, region_geometry, text_height_for,
};
use crate::recognizer::{Phase, RegionRecognizer};

verus! {

/// The most capture attempts one session makes.
pub const MAX_ATTEMPTS: u32 = 10;

/// What one snapshot reports: for each slot, in slot order, the recognized
/// item with its price, or `None` while the slot is unresolved or unpriced.
#[derive(Debug, Clone)]
pub struct State {
    pub relic_rewards: Vec<Option<(Item, u32)>>,
}

/// The slots of one reward screen and the attempts made on it.
#[derive(Debug, Clone)]
pub struct CaptureSession {
    pub squad_size: usize,
    pub slots: Vec<Option<Item>>,
    pub attempt: u32,
}

/// The indices of the unresolved slots, ascending.
pub open spec fn pending_of(slots: Seq<Option<Item>>) -> Seq<usize>
    decreases slots.len(),
{
    if slots.len() == 0 {
        Seq::empty()
    } else if slots.last() is None {
        pending_of(slots.drop_last()).push((slots.len() - 1) as usize)
    } else {
        pending_of(slots.drop_last())
    }
}

/// Slot by slot, a resolved slot stays as it is and an unresolved one takes
/// the new result.
pub open spec fn merged(slots: Seq<Option<Item>>, results: Seq<Option<Item>>) -> Seq<Option<Item>> {
    Seq::new(
        slots.len(),
        |i: int|
            if slots[i] is Some {
                slots[i]
            } else {
                results[i]
            },
    )
}

/// Every slot is resolved.
pub open spec fn all_resolved(slots: Seq<Option<Item>>) -> bool {
    forall|i: int| 0 <= i < slots.len() ==> #[trigger] slots[i] is Some
}

/// A session ends when every slot is resolved or the attempts run out.
pub open spec fn session_over(slots: Seq<Option<Item>>, attempt: u32) -> bool {
    all_resolved(slots) || attempt >= MAX_ATTEMPTS
}

/// A slot's entry in a snapshot: the item with its price when both are known.
pub open spec fn reward_entry(slot: Option<Item>, price: Option<u32>) -> Option<(Item, u32)> {
    match (slot, price) {
        (Some(item), Some(p)) => Some((item, p)),
        _ => None,
    }
}

impl CaptureSession {
    /// A session has a slot per squad member, 1 to 4, and makes at most
    /// `MAX_ATTEMPTS` attempts.
    pub open spec fn wf(&self) -> bool {
        &&& 1 <= self.squad_size <= 4
        &&& self.slots@.len() == self.squad_size
        &&& self.attempt <= MAX_ATTEMPTS
    }

    /// A new session for a squad of `squad_size`: every slot unresolved, no
    /// attempt made.
    pub fn new(squad_size: usize) -> (r: CaptureSession)
        requires
            1 <= squad_size <= 4,
        ensures
            r.wf(),
            r.squad_size == squad_size,
            r.slots@ == Seq::new(squad_size as nat, |i: int| None::<Item>),
            r.attempt == 0,
    {
        let mut slots: Vec<Option<Item>> = Vec::new();
        let mut i: usize = 0;
        while i < squad_size
            invariant
                i <= squad_size,
                slots@ == Seq::new(i as nat, |k: int| None::<Item>),
            decreases squad_size - i,
        {
            slots.push(None);
            i = i + 1;
            assert(slots@ =~= Seq::new(i as nat, |k: int| None::<Item>));
        }
        CaptureSession { squad_size, slots, attempt: 0 }
    }

    /// The indices of the slots still unresolved, ascending.
    pub fn pending_slots(&self) -> (r: Vec<usize>)
        ensures
            r@ == pending_of(self.slots@),
    {
        let mut r: Vec<usize> = Vec::new();
        let mut i: usize = 0;
        while i < self.slots.len()
            invariant
                i <= self.slots@.len(),
                r@ == pending_of(self.slots@.take(i as int)),
            decreases self.slots@.len() - i,
        {
            assert(self.slots@.take(i + 1).drop_last() =~= self.slots@.take(i as int));
            if self.slots[i].is_none() {
                r.push(i);
            }
            i = i + 1;
        }
        assert(self.slots@.take(i as int) =~= self.slots@);
        r
    }

    /// The recognizers for this attempt: one per unresolved slot, in slot
    /// order, each on its slot's region of a `width` × `height` frame.
    pub fn recognizers(&self, width: u32, height: u32) -> (r: Vec<(usize, RegionRecognizer)>)
        requires
            self.wf(),
        ensures
            r@.len() == pending_of(self.slots@).len(),
            forall|k: int|
                0 <= k < r@.len() ==> {
                    let (slot, rec) = #[trigger] r@[k];
                    &&& slot == pending_of(self.slots@)[k]
                    &&& rec.wf()
                    &&& rec.x == offsets_for(width, self.squad_size as int)[slot as int]
                    &&& rec.frame_width == frame_width_for(width)
                    &&& rec.frame_bottom == frame_bottom_for(height)
                    &&& rec.text_height == text_height_for(height)
                    &&& rec.phase == (Phase::Fixed { lines: 3 })
                    &&& rec.buffer@.len() == 0
                },
    {
        let g = region_geometry(width, height, self.squad_size);
        let pending = self.pending_slots();
        proof {
            lemma_pending_in_range(self.slots@);
            assert(offsets_view(g.offsets@).len() == g.offsets@.len());
        }
        let mut r: Vec<(usize, RegionRecognizer)> = Vec::new();
        let mut k: usize = 0;
        while k < pending.len()
            invariant
                self.wf(),
                k <= pending@.len(),
                pending@ == pending_of(self.slots@),
                forall|j: int| 0 <= j < pending@.len() ==> pending@[j] < self.slots@.len(),
                g.offsets@.len() == self.squad_size,
                offsets_view(g.offsets@) == offsets_for(width, self.squad_size as int),
                g.text_height * 3 <= g.frame_bottom,
                g.frame_width == frame_width_for(width),
                g.frame_bottom == frame_bottom_for(height),
                g.text_height == text_height_for(height),
                r@.len() == k,
                forall|j: int|
                    0 <= j < k ==> {
                        let (slot, rec) = #[trigger] r@[j];
                        &&& slot == pending@[j]
                        &&& rec.wf()
                        &&& rec.x == offsets_for(width, self.squad_size as int)[slot as int]
                        &&& rec.frame_width == frame_width_for(width)
                        &&& rec.frame_bottom == frame_bottom_for(height)
                        &&& rec.text_height == text_height_for(height)
                        &&& rec.phase == (Phase::Fixed { lines: 3 })
                        &&& rec.buffer@.len() == 0
                    },
            decreases pending@.len() - k,
        {
            let slot = pending[k];
            let x = g.offsets[slot];
            assert(offsets_view(g.offsets@)[slot as int] == x as int);
            let rec = RegionRecognizer::new(x, g.frame_width, g.frame_bottom, g.text_height);
            r.push((slot, rec));
            k = k + 1;
        }
        r
    }

    /// Records the results of one attempt, indexed by slot: an unresolved
    /// slot takes its result, a resolved one stays as it is.
    pub fn record_attempt(&mut self, results: Vec<Option<Item>>)
        requires
            old(self).wf(),
            results@.len() == old(self).squad_size,
            old(self).attempt < MAX_ATTEMPTS,
        ensures
            final(self).wf(),
            final(self).squad_size == old(self).squad_size,
            final(self).slots@ == merged(old(self).slots@, results@),
            final(self).attempt == old(self).attempt + 1,
    {
        let ghost start = self.slots@;
        let ghost given = results@;
        let mut results = results;
        let mut i: usize = 0;
        while i < self.slots.len()
            invariant
                self.squad_size == old(self).squad_size,
                self.attempt == old(self).attempt,
                start == old(self).slots@,
                self.slots@.len() == start.len(),
                given.len() == start.len(),
                i <= start.len(),
                results@ == given.skip(i as int),
                forall|k: int| 0 <= k < i ==> self.slots@[k] == merged(start, given)[k],
                forall|k: int| i <= k < start.len() ==> self.slots@[k] == start[k],
            decreases start.len() - i,
        {
            let next = results.remove(0);
            assert(next == given[i as int]);
            if self.slots[i].is_none() {
                self.slots.set(i, next);
            }
            i = i + 1;
            assert(results@ =~= given.skip(i as int));
        }
        assert(self.slots@ =~= merged(start, given));
        self.attempt = self.attempt + 1;
    }

    /// Whether the session is over: every slot resolved, or no attempts left.
    pub fn is_finished(&self) -> (r: bool)
        ensures
            r == session_over(self.slots@, self.attempt),
    {
        if self.attempt >= MAX_ATTEMPTS {
            return true;
        }
        let mut i: usize = 0;
        while i < self.slots.len()
            invariant
                i <= self.slots@.len(),
                self.attempt < MAX_ATTEMPTS,
                forall|k: int| 0 <= k < i ==> #[trigger] self.slots@[k] is Some,
            decreases self.slots@.len() - i,
        {
            if self.slots[i].is_none() {
                assert(!(self.slots@[i as int] is Some));
                return false;
            }
            i = i + 1;
        }
        true
    }

    /// The snapshot of the session, given the price found for each slot
    /// (`None` where there is no item or its price lookup failed).
    pub fn snapshot(&self, prices: &Vec<Option<u32>>) -> (r: State)
        requires
            prices@.len() == self.slots@.len(),
        ensures
            r.relic_rewards@.len() == self.slots@.len(),
            forall|i: int|
                0 <= i < self.slots@.len() ==> #[trigger] r.relic_rewards@[i] == reward_entry(
                    self.slots@[i],
                    prices@[i],
                ),
    {
        let mut out: Vec<Option<(Item, u32)>> = Vec::new();
        let mut i: usize = 0;
        while i < self.slots.len()
            invariant
                prices@.len() == self.slots@.len(),
                i <= self.slots@.len(),
                out@.len() == i,
                forall|k: int|
                    0 <= k < i ==> #[trigger] out@[k] == reward_entry(self.slots@[k], prices@[k]),
            decreases self.slots@.len() - i,
        {
            let entry = match (&self.slots[i], prices[i]) {
                (Some(item), Some(p)) => Some((item.clone(), p)),
                _ => None,
            };
            out.push(entry);
            i = i + 1;
        }
        State { relic_rewards: out }
    }
}

proof fn lemma_pending_in_range(slots: Seq<Option<Item>>)
    requires
        slots.len() <= usize::MAX,
    ensures
        forall|j: int|
            0 <= j < pending_of(slots).len() ==> #[trigger] pending_of(slots)[j] < slots.len()
                && slots[pending_of(slots)[j] as int] is None,
    decreases slots.len(),
{
    if slots.len() > 0 {
        let d = slots.drop_last();
        lemma_pending_in_range(d);
        if slots.last() is None {
            assert(pending_of(slots) == pending_of(d).push((slots.len() - 1) as usize));
        } else {
            assert(pending_of(slots) == pending_of(d));
        }
        assert forall|j: int| 0 <= j < pending_of(slots).len() implies #[trigger] pending_of(
            slots,
        )[j] < slots.len() && slots[pending_of(slots)[j] as int] is None by {
            if j < pending_of(d).len() {
                assert(pending_of(slots)[j] == pending_of(d)[j]);
                assert(d[pending_of(d)[j] as int] == slots[pending_of(d)[j] as int]);
            }
        }
    }
}

/// A session for a single player reads one region per attempt while its slot
/// is unresolved and none once it is; it ends as soon as the slot is
/// resolved, and at the latest after `MAX_ATTEMPTS` attempts.
pub proof fn lemma_single_slot_session(slots: Seq<Option<Item>>, attempt: u32)
    requires
        slots.len() == 1,
    ensures
        slots[0] is None ==> pending_of(slots) == seq![0usize],
        slots[0] is Some ==> pending_of(slots).len() == 0,
        slots[0] is Some ==> session_over(slots, attempt),
        attempt >= MAX_ATTEMPTS ==> session_over(slots, attempt),
        !session_over(slots, attempt) ==> pending_of(slots).len() == 1,
{
    assert(slots.drop_last().len() == 0);
    assert(pending_of(slots.drop_last()) == Seq::<usize>::empty());
    if slots[0] is None {
        assert(pending_of(slots) =~= seq![0usize]);
    }
    if slots[0] is Some {
        assert(all_resolved(slots));
    }
}

/// Merging never loses a recognized item: a resolved slot keeps its item.
pub proof fn lemma_merge_keeps_resolved(slots: Seq<Option<Item>>, results: Seq<Option<Item>>)
    requires
        results.len() == slots.len(),
    ensures
        merged(slots, results).len() == slots.len(),
        forall|i: int|
            0 <= i < slots.len() && slots[i] is Some ==> #[trigger] merged(slots, results)[i]
                == slots[i],
{
}

} // verus!
