//! Page texture slots: the pool is the single owner of every page texture
//! handle. A slot holds at most one handle; teardown hands back every live
//! handle exactly once (for freeing) and leaves no slot behind.

use vstd::prelude::*;

verus! {

/// The live handles of a slot sequence, in slot order.
pub open spec fn live_handles(s: Seq<Option<u64>>) -> Seq<u64>
    decreases s.len(),
{
    if s.len() == 0 {
        Seq::empty()
    } else {
        live_handles(s.drop_last()) + match s.last() {
            Some(h) => seq![h],
            None => Seq::empty(),
        }
    }
}

/// Number of occupied slots.
pub open spec fn occupied(s: Seq<Option<u64>>) -> nat
    decreases s.len(),
{
    if s.len() == 0 {
        0
    } else {
        occupied(s.drop_last()) + if s.last() is Some {
            1nat
        } else {
            0nat
        }
    }
}

/// Texture handle per page slot (`None` for an empty slot).
pub struct SlotTable {
    slots: Vec<Option<u64>>,
}

impl View for SlotTable {
    type V = Seq<Option<u64>>;

    closed spec fn view(&self) -> Seq<Option<u64>> {
        self.slots@
    }
}

impl SlotTable {
    /// `capacity` empty slots.
    pub fn with_capacity(capacity: usize) -> (t: Self)
        ensures
            t@ == Seq::new(capacity as nat, |i: int| None::<u64>),
    {
        let mut slots: Vec<Option<u64>> = Vec::new();
        let mut i: usize = 0;
        while i < capacity
            invariant
                i <= capacity,
                slots@ == Seq::new(i as nat, |j: int| None::<u64>),
            decreases capacity - i,
        {
            slots.push(None);
            proof {
                assert(slots@ =~= Seq::new((i + 1) as nat, |j: int| None::<u64>));
            }
            i = i + 1;
        }
        SlotTable { slots }
    }

    /// Number of slots.
    pub fn len(&self) -> (n: usize)
        ensures
            n == self@.len(),
    {
        self.slots.len()
    }

    /// The handle in `slot`, if any.
    pub fn get(&self, slot: usize) -> (h: Option<u64>)
        requires
            slot < self@.len(),
        ensures
            h == self@[slot as int],
    {
        self.slots[slot]
    }

    /// Put a freshly created handle in `slot`; returns the handle it displaced.
    pub fn install(&mut self, slot: usize, handle: u64) -> (displaced: Option<u64>)
        requires
            slot < old(self)@.len(),
        ensures
            displaced == old(self)@[slot as int],
            final(self)@ == old(self)@.update(slot as int, Some(handle)),
    {
        let displaced = self.slots[slot];
        self.slots.set(slot, Some(handle));
        displaced
    }

    /// Empty `slot`, handing back its handle (to be freed).
    pub fn take(&mut self, slot: usize) -> (h: Option<u64>)
        requires
            slot < old(self)@.len(),
        ensures
            h == old(self)@[slot as int],
            final(self)@ == old(self)@.update(slot as int, None),
    {
        let h = self.slots[slot];
        self.slots.set(slot, None);
        h
    }

    /// Teardown: hand back every live handle in slot order and drop all slots.
    pub fn drain_all(&mut self) -> (freed: Vec<u64>)
        ensures
            freed@ == live_handles(old(self)@),
            final(self)@ == Seq::<Option<u64>>::empty(),
    {
        let mut freed: Vec<u64> = Vec::new();
        let mut i: usize = 0;
        while i < self.slots.len()
            invariant
                i <= self.slots@.len(),
                self.slots@ == old(self)@,
                freed@ == live_handles(self.slots@.subrange(0, i as int)),
            decreases self.slots@.len() - i,
        {
            proof {
                assert(self.slots@.subrange(0, i + 1).drop_last() =~= self.slots@.subrange(0, i as int));
            }
            if let Some(h) = self.slots[i] {
                freed.push(h);
            }
            proof {
                assert(freed@ =~= live_handles(self.slots@.subrange(0, i + 1)));
            }
            i = i + 1;
        }
        proof {
            assert(self.slots@.subrange(0, self.slots@.len() as int) =~= self.slots@);
        }
        self.slots = Vec::new();
        freed
    }
}

/// Teardown frees each occupied slot's handle once: as many handles come back
/// as slots were occupied, each of them the handle of an occupied slot.
pub proof fn lemma_drain_frees_each_once(s: Seq<Option<u64>>)
    ensures
        live_handles(s).len() == occupied(s),
        forall|k: int| 0 <= k < live_handles(s).len() ==> exists|i: int|
            0 <= i < s.len() && s[i] == Some(#[trigger] live_handles(s)[k]),
    decreases s.len(),
{
    if s.len() > 0 {
        let p = s.drop_last();
        lemma_drain_frees_each_once(p);
        assert forall|k: int| 0 <= k < live_handles(s).len() implies exists|i: int|
            0 <= i < s.len() && s[i] == Some(#[trigger] live_handles(s)[k]) by {
            if k < live_handles(p).len() {
                let i = choose|i: int| 0 <= i < p.len() && p[i] == Some(live_handles(p)[k]);
                assert(s[i] == p[i]);
                assert(live_handles(s)[k] == live_handles(p)[k]);
            } else {
                assert(s[s.len() - 1] == Some(live_handles(s)[k]));
            }
        }
    }
}

/// A table without occupied slots hands back nothing: a second teardown frees
/// nothing.
pub proof fn lemma_empty_drain(s: Seq<Option<u64>>)
    requires
        forall|i: int| 0 <= i < s.len() ==> s[i] is None,
    ensures
        live_handles(s) == Seq::<u64>::empty(),
    decreases s.len(),
{
    if s.len() > 0 {
        lemma_empty_drain(s.drop_last());
        assert(live_handles(s) =~= Seq::<u64>::empty());
    }
}

} // verus!
