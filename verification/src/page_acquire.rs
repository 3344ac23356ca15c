//! The page pool's acquire and configure decisions as a state machine: the
//! acquire guard, what one policy decision does to the slot table and the
//! counters once the texture creation and the compute dispatch have answered,
//! and the teardown and install steps of a (re)configuration. The engine side
//! creates, fills and frees the textures the effects name.

use vstd::prelude::*;
use crate::pool_state::{
    configured_spec, installed_spec, reset_spec, stats_after, PageDecision,
    PoolConfig, PoolStats, ProducerKind,
};
use crate::slot_table::{lemma_drain_frees_each_once, live_handles, occupied, SlotTable};

verus! {

/// What the engine does after an acquisition step.
#[derive(Clone, Copy, Debug, PartialEq, Eq, Structural)]
pub enum AcquireEffect {
    /// Hand out the page texture of this slot.
    Page(usize),
    /// Production failed: free this texture handle (if any), roll the policy
    /// back for the requested key and hand out nothing.
    RollBack { free: Option<u64> },
    /// Every slot is protected: hand out nothing.
    Nothing,
}

/// Whether producing the page succeeded: for `Allocate` a texture was created
/// and the compute into it succeeded, for `AllocateEvicting` the recompute into
/// the slot's texture succeeded; `Reuse` and `Full` produce nothing.
pub open spec fn produced_spec(decision: PageDecision, new_texture: Option<u64>, compute_ok: bool) -> bool {
    match decision {
        PageDecision::Allocate(_) => new_texture is Some && compute_ok,
        PageDecision::AllocateEvicting(_) => compute_ok,
        _ => false,
    }
}

/// The slot a decision names (none for `Full`).
pub open spec fn decision_slot(decision: PageDecision) -> Option<usize> {
    match decision {
        PageDecision::Reuse(s) => Some(s),
        PageDecision::Allocate(s) => Some(s),
        PageDecision::AllocateEvicting(s) => Some(s),
        PageDecision::Full => None,
    }
}

/// The decision is one the slot table can carry out: its slot exists, and an
/// evicting decision names an occupied slot.
pub open spec fn decision_fits(slots: Seq<Option<u64>>, decision: PageDecision) -> bool {
    match decision {
        PageDecision::Reuse(s) => s < slots.len(),
        PageDecision::Allocate(s) => s < slots.len(),
        PageDecision::AllocateEvicting(s) => s < slots.len() && slots[s as int] is Some,
        PageDecision::Full => true,
    }
}

/// The effect of an acquisition step.
pub open spec fn effect_spec(
    slots: Seq<Option<u64>>,
    decision: PageDecision,
    new_texture: Option<u64>,
    compute_ok: bool,
) -> AcquireEffect {
    match decision {
        PageDecision::Reuse(s) => AcquireEffect::Page(s),
        PageDecision::Allocate(s) => match new_texture {
            None => AcquireEffect::RollBack { free: None },
            Some(h) => if compute_ok {
                AcquireEffect::Page(s)
            } else {
                AcquireEffect::RollBack { free: Some(h) }
            },
        },
        PageDecision::AllocateEvicting(s) => if compute_ok {
            AcquireEffect::Page(s)
        } else {
            AcquireEffect::RollBack { free: slots[s as int] }
        },
        PageDecision::Full => AcquireEffect::Nothing,
    }
}

/// The slot table after an acquisition step: a produced `Allocate` installs the
/// new texture in its slot, a failed `AllocateEvicting` empties its slot, every
/// other step leaves the table as it was.
pub open spec fn slots_after(
    slots: Seq<Option<u64>>,
    decision: PageDecision,
    new_texture: Option<u64>,
    compute_ok: bool,
) -> Seq<Option<u64>> {
    match decision {
        PageDecision::Allocate(s) => if new_texture is Some && compute_ok {
            slots.update(s as int, new_texture)
        } else {
            slots
        },
        PageDecision::AllocateEvicting(s) => if compute_ok {
            slots
        } else {
            slots.update(s as int, None)
        },
        _ => slots,
    }
}

/// Where a page's static-reference material texture comes from.
#[derive(Clone, Copy, Debug, PartialEq, Eq, Structural)]
pub enum MaterialTarget {
    /// The producer writes no materials: nothing to do.
    Skip,
    /// Write into the slot's existing material texture.
    Existing(u64),
    /// Create a material texture for the slot, then write into it.
    Create,
}

/// The pool state the acquire and configure decisions read and change: the
/// page texture of each slot and, for static-reference presentation, the
/// material texture of each slot.
pub struct PagePoolCore {
    pub config: PoolConfig,
    pub stats: PoolStats,
    pub slots: SlotTable,
    pub material_slots: SlotTable,
}

impl PagePoolCore {
    /// A freshly created pool: unconfigured, no slots, zero counters.
    pub fn new() -> (p: Self)
        ensures
            p.config == crate::pool_state::unconfigured_spec(),
            p.stats == (PoolStats { created: 0, reused: 0, recomputed: 0, full_events: 0 }),
            p.slots@ == Seq::<Option<u64>>::empty(),
            p.material_slots@ == Seq::<Option<u64>>::empty(),
    {
        let slots = SlotTable::with_capacity(0);
        let material_slots = SlotTable::with_capacity(0);
        proof {
            assert(slots@ =~= Seq::<Option<u64>>::empty());
            assert(material_slots@ =~= Seq::<Option<u64>>::empty());
        }
        PagePoolCore {
            config: PoolConfig::unconfigured(),
            stats: PoolStats::new(),
            slots,
            material_slots,
        }
    }

    /// The material texture a freshly produced page of `slot` is presented
    /// with (`refresh_static_material_texture`): none unless the producer
    /// writes materials, else the slot's own, created on first use.
    pub fn material_target(&self, slot: usize, wants_material: bool) -> (t: MaterialTarget)
        requires
            slot < self.material_slots@.len(),
        ensures
            t == (if !wants_material {
                MaterialTarget::Skip
            } else {
                match self.material_slots@[slot as int] {
                    Some(h) => MaterialTarget::Existing(h),
                    None => MaterialTarget::Create,
                }
            }),
    {
        if !wants_material {
            return MaterialTarget::Skip;
        }
        match self.material_slots.get(slot) {
            Some(h) => MaterialTarget::Existing(h),
            None => MaterialTarget::Create,
        }
    }

    /// Record the material texture created for `slot`.
    pub fn record_material_texture(&mut self, slot: usize, handle: u64)
        requires
            slot < old(self).material_slots@.len(),
        ensures
            final(self).material_slots@ == old(self).material_slots@.update(slot as int, Some(handle)),
            final(self).slots@ == old(self).slots@,
            final(self).config == old(self).config,
            final(self).stats == old(self).stats,
    {
        let _ = self.material_slots.install(slot, handle);
    }

    /// The acquire guard: an acquisition goes ahead only on a configured pool
    /// with a rendering device.
    pub fn begin_acquire(&self, device_available: bool) -> (go: bool)
        ensures
            go == (configured_spec(self.config) && device_available),
    {
        self.config.is_configured() && device_available
    }

    /// The texture an evicting decision recomputes into: the slot's handle.
    pub fn evicting_texture(&self, slot: usize) -> (h: Option<u64>)
        requires
            slot < self.slots@.len(),
        ensures
            h == self.slots@[slot as int],
    {
        self.slots.get(slot)
    }

    /// Carry out a policy decision once the engine has answered: `new_texture`
    /// is the texture created for an `Allocate` (`None` when creation failed),
    /// `compute_ok` whether the compute dispatch into the page's texture
    /// succeeded. Returns what the engine does next.
    pub fn finish_acquire(
        &mut self,
        decision: PageDecision,
        new_texture: Option<u64>,
        compute_ok: bool,
    ) -> (e: AcquireEffect)
        requires
            decision_fits(old(self).slots@, decision),
            old(self).stats.created < i64::MAX,
            old(self).stats.reused < i64::MAX,
            old(self).stats.recomputed < i64::MAX,
            old(self).stats.full_events < i64::MAX,
        ensures
            e == effect_spec(old(self).slots@, decision, new_texture, compute_ok),
            final(self).slots@ == slots_after(old(self).slots@, decision, new_texture, compute_ok),
            final(self).stats == stats_after(
                old(self).stats,
                decision,
                produced_spec(decision, new_texture, compute_ok),
            ),
            final(self).config == old(self).config,
            final(self).material_slots@ == old(self).material_slots@,
    {
        let produced = match decision {
            PageDecision::Allocate(_) => new_texture.is_some() && compute_ok,
            PageDecision::AllocateEvicting(_) => compute_ok,
            _ => false,
        };
        let _ = self.stats.record_acquire(decision, produced);
        match decision {
            PageDecision::Reuse(slot) => AcquireEffect::Page(slot),
            PageDecision::Allocate(slot) => match new_texture {
                None => AcquireEffect::RollBack { free: None },
                Some(h) => {
                    if compute_ok {
                        let _ = self.slots.install(slot, h);
                        AcquireEffect::Page(slot)
                    } else {
                        AcquireEffect::RollBack { free: Some(h) }
                    }
                },
            },
            PageDecision::AllocateEvicting(slot) => {
                if compute_ok {
                    AcquireEffect::Page(slot)
                } else {
                    let old_handle = self.slots.take(slot);
                    AcquireEffect::RollBack { free: old_handle }
                }
            },
            PageDecision::Full => AcquireEffect::Nothing,
        }
    }

    /// Free everything configured (`free_all_impl`): hand back every live page
    /// texture in slot order, then every live material texture in slot order,
    /// drop both slot tables and reset the configured state. The counters stay.
    pub fn teardown(&mut self) -> (freed: Vec<u64>)
        ensures
            freed@ == live_handles(old(self).slots@) + live_handles(old(self).material_slots@),
            final(self).slots@ == Seq::<Option<u64>>::empty(),
            final(self).material_slots@ == Seq::<Option<u64>>::empty(),
            final(self).config == reset_spec(old(self).config),
            final(self).stats == old(self).stats,
    {
        let mut freed = self.slots.drain_all();
        let mut materials = self.material_slots.drain_all();
        freed.append(&mut materials);
        self.config.reset();
        freed
    }

    /// Release a configured pool before a new configuration is applied
    /// (`free_before_reconfigure`): a teardown when the pool is configured,
    /// nothing otherwise.
    pub fn prepare_reconfigure(&mut self) -> (freed: Vec<u64>)
        ensures
            configured_spec(old(self).config) ==> {
                &&& freed@ == live_handles(old(self).slots@) + live_handles(old(self).material_slots@)
                &&& final(self).slots@ == Seq::<Option<u64>>::empty()
                &&& final(self).material_slots@ == Seq::<Option<u64>>::empty()
                &&& final(self).config == reset_spec(old(self).config)
            },
            !configured_spec(old(self).config) ==> {
                &&& freed@ == Seq::<u64>::empty()
                &&& final(self).slots@ == old(self).slots@
                &&& final(self).material_slots@ == old(self).material_slots@
                &&& final(self).config == old(self).config
            },
            final(self).stats == old(self).stats,
    {
        if self.config.is_configured() {
            self.teardown()
        } else {
            Vec::new()
        }
    }

    /// Install a producer (`install_*_configuration`): that producer's parts
    /// and a policy, `capacity` empty page and material slots, zero counters.
    pub fn install_producer(&mut self, kind: ProducerKind, capacity: usize)
        ensures
            final(self).config == installed_spec(kind),
            final(self).slots@ == Seq::new(capacity as nat, |i: int| None::<u64>),
            final(self).material_slots@ == Seq::new(capacity as nat, |i: int| None::<u64>),
            final(self).stats == (PoolStats { created: 0, reused: 0, recomputed: 0, full_events: 0 }),
    {
        self.config.install(kind);
        self.slots = SlotTable::with_capacity(capacity);
        self.material_slots = SlotTable::with_capacity(capacity);
        self.stats = PoolStats::new();
    }
}

/// An acquisition that hands out a page it produced leaves a texture in that
/// page's slot; one that rolls back leaves the counters unchanged, never
/// installs the texture it frees, and after a failed recompute empties the
/// evicted slot and frees exactly the handle that slot held. No other slot is
/// touched.
pub proof fn lemma_acquire_effect_consistent(
    slots: Seq<Option<u64>>,
    stats: PoolStats,
    decision: PageDecision,
    new_texture: Option<u64>,
    compute_ok: bool,
)
    requires
        decision_fits(slots, decision),
    ensures
        ({
            let e = effect_spec(slots, decision, new_texture, compute_ok);
            let after = slots_after(slots, decision, new_texture, compute_ok);
            let produced = produced_spec(decision, new_texture, compute_ok);
            &&& after.len() == slots.len()
            &&& produced ==> e == AcquireEffect::Page(decision_slot(decision)->0)
                && after[decision_slot(decision)->0 as int] is Some
            &&& e is RollBack ==> stats_after(stats, decision, produced) == stats
            &&& (decision is Allocate && e is RollBack) ==> after == slots
            &&& (decision is AllocateEvicting && e is RollBack) ==> {
                &&& after[decision_slot(decision)->0 as int] is None
                &&& e == (AcquireEffect::RollBack { free: slots[decision_slot(decision)->0 as int] })
            }
            &&& forall|i: int|
                0 <= i < slots.len() && Some(i as usize) != decision_slot(decision) ==> after[i]
                    == slots[i]
        }),
{
}

/// A teardown hands back each occupied page and material slot's handle
/// exactly once: as many handles as occupied slots, each from an occupied slot
/// of the matching table; and a teardown of a torn-down pool frees nothing.
pub proof fn lemma_teardown_frees_each_once(pages: Seq<Option<u64>>, materials: Seq<Option<u64>>)
    ensures
        (live_handles(pages) + live_handles(materials)).len() == occupied(pages) + occupied(materials),
        forall|k: int|
            0 <= k < live_handles(pages).len() ==> exists|i: int|
                0 <= i < pages.len() && pages[i] == Some(#[trigger] live_handles(pages)[k]),
        forall|k: int|
            0 <= k < live_handles(materials).len() ==> exists|i: int|
                0 <= i < materials.len() && materials[i] == Some(
                    #[trigger] live_handles(materials)[k],
                ),
        live_handles(Seq::<Option<u64>>::empty()) + live_handles(Seq::<Option<u64>>::empty())
            == Seq::<u64>::empty(),
{
    lemma_drain_frees_each_once(pages);
    lemma_drain_frees_each_once(materials);
    assert(live_handles(Seq::<Option<u64>>::empty()) + live_handles(Seq::<Option<u64>>::empty())
        =~= Seq::<u64>::empty());
}

} // verus!
