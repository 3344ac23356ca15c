//! Page-pool configuration state: which producer contexts are installed, which
//! producer is active, the acquire guard, configuration reset and install, and
//! the acquisition counters. The GPU handles themselves live with the engine
//! glue; this module holds what the decisions read.

use vstd::prelude::*;

verus! {

/// The page producer the pool dispatches to.
#[derive(Clone, Copy, Debug, PartialEq, Eq, Structural)]
pub enum ProducerKind {
    /// The closed-form plumbing producer whose every texel a gate can predict.
    Analytic,
    Legacy,
    SingleBiome,
    World,
    StaticReference,
}

/// Diagnostic label of a producer kind.
pub open spec fn runtime_mode_spec(kind: ProducerKind) -> Seq<char> {
    match kind {
        ProducerKind::Analytic => "analytic"@,
        ProducerKind::Legacy => "legacy"@,
        ProducerKind::SingleBiome => "single"@,
        ProducerKind::World => "world"@,
        ProducerKind::StaticReference => "static_reference"@,
    }
}

impl ProducerKind {
    /// Diagnostic label: `analytic`, `legacy`, `single`, `world` or `static_reference`.
    pub fn runtime_mode(self) -> (s: &'static str)
        ensures
            s@ == runtime_mode_spec(self),
    {
        match self {
            ProducerKind::Analytic => "analytic",
            ProducerKind::Legacy => "legacy",
            ProducerKind::SingleBiome => "single",
            ProducerKind::World => "world",
            ProducerKind::StaticReference => "static_reference",
        }
    }

    /// Every producer but the legacy kernel atlas runs on the GPU biome path.
    pub fn uses_biome_path(self) -> (b: bool)
        ensures
            b == !(self is Legacy),
    {
        !matches!(self, ProducerKind::Legacy)
    }
}

/// Presence of each configured pool component.
#[derive(Clone, Copy, Debug, PartialEq, Eq, Structural)]
pub struct PoolConfig {
    pub policy: bool,
    pub pack: bool,
    pub pack_buffers: bool,
    pub glsl_source: bool,
    pub compute_ctx: bool,
    pub biome_ctx: bool,
    pub biome_world: bool,
    pub static_ref: bool,
    pub analytic: bool,
}

/// The legacy kernel-atlas producer has all four of its parts.
pub open spec fn legacy_complete(c: PoolConfig) -> bool {
    c.pack && c.pack_buffers && c.glsl_source && c.compute_ctx
}

/// The acquire guard: a policy and at least one complete producer (legacy
/// atlas, single biome, WORLD, static reference or analytic).
pub open spec fn configured_spec(c: PoolConfig) -> bool {
    c.policy && (legacy_complete(c) || c.biome_ctx || c.biome_world || c.static_ref || c.analytic)
}

/// The active producer: analytic first, then static reference, then WORLD, then
/// single biome, then the complete legacy atlas.
pub open spec fn active_kind_spec(c: PoolConfig) -> Option<ProducerKind> {
    if c.analytic {
        Some(ProducerKind::Analytic)
    } else if c.static_ref {
        Some(ProducerKind::StaticReference)
    } else if c.biome_world {
        Some(ProducerKind::World)
    } else if c.biome_ctx {
        Some(ProducerKind::SingleBiome)
    } else if legacy_complete(c) {
        Some(ProducerKind::Legacy)
    } else {
        None
    }
}

/// The configuration an `install_*` of `kind` leaves: the policy and exactly the
/// parts of that producer.
pub open spec fn installed_spec(kind: ProducerKind) -> PoolConfig {
    PoolConfig {
        policy: true,
        pack: kind is Legacy,
        pack_buffers: kind is Legacy,
        glsl_source: kind is Legacy,
        compute_ctx: kind is Legacy,
        biome_ctx: kind is SingleBiome,
        biome_world: kind is World,
        static_ref: kind is StaticReference,
        analytic: kind is Analytic,
    }
}

/// A freshly created (or fully reset) pool: nothing present.
pub open spec fn unconfigured_spec() -> PoolConfig {
    PoolConfig {
        policy: false,
        pack: false,
        pack_buffers: false,
        glsl_source: false,
        compute_ctx: false,
        biome_ctx: false,
        biome_world: false,
        static_ref: false,
        analytic: false,
    }
}

/// What a reset of the configured state leaves: the policy and the legacy,
/// single-biome, WORLD and static-reference parts cleared; the analytic
/// producer is not among the parts a reset clears.
pub open spec fn reset_spec(c: PoolConfig) -> PoolConfig {
    PoolConfig { analytic: c.analytic, ..unconfigured_spec() }
}

impl PoolConfig {
    /// The state of a freshly created pool.
    pub fn unconfigured() -> (c: Self)
        ensures
            c == unconfigured_spec(),
    {
        PoolConfig {
            policy: false,
            pack: false,
            pack_buffers: false,
            glsl_source: false,
            compute_ctx: false,
            biome_ctx: false,
            biome_world: false,
            static_ref: false,
            analytic: false,
        }
    }

    /// The acquire guard: true only with a policy and a complete producer.
    pub fn is_configured(&self) -> (b: bool)
        ensures
            b == configured_spec(*self),
    {
        self.policy && ((self.pack && self.pack_buffers && self.glsl_source && self.compute_ctx)
            || self.biome_ctx || self.biome_world || self.static_ref || self.analytic)
    }

    /// Which producer a page acquisition dispatches to, if any.
    pub fn active_producer_kind(&self) -> (k: Option<ProducerKind>)
        ensures
            k == active_kind_spec(*self),
    {
        if self.analytic {
            Some(ProducerKind::Analytic)
        } else if self.static_ref {
            Some(ProducerKind::StaticReference)
        } else if self.biome_world {
            Some(ProducerKind::World)
        } else if self.biome_ctx {
            Some(ProducerKind::SingleBiome)
        } else if self.pack && self.pack_buffers && self.glsl_source && self.compute_ctx {
            Some(ProducerKind::Legacy)
        } else {
            None
        }
    }

    /// Label of the active producer; `legacy` when none is active.
    pub fn active_runtime_mode_label(&self) -> (s: &'static str)
        ensures
            s@ == match active_kind_spec(*self) {
                Some(k) => runtime_mode_spec(k),
                None => "legacy"@,
            },
    {
        match self.active_producer_kind() {
            Some(k) => k.runtime_mode(),
            None => "legacy",
        }
    }

    /// True when the active producer runs on the GPU biome path.
    pub fn uses_active_biome_path(&self) -> (b: bool)
        ensures
            b == match active_kind_spec(*self) {
                Some(k) => !(k is Legacy),
                None => false,
            },
    {
        match self.active_producer_kind() {
            Some(k) => k.uses_biome_path(),
            None => false,
        }
    }

    /// The live source transform applies only to the single-biome and WORLD producers.
    pub fn accepts_live_source_transform(&self) -> (b: bool)
        ensures
            b == (active_kind_spec(*self) == Some(ProducerKind::SingleBiome) || active_kind_spec(
                *self,
            ) == Some(ProducerKind::World)),
    {
        match self.active_producer_kind() {
            Some(ProducerKind::SingleBiome) => true,
            Some(ProducerKind::World) => true,
            _ => false,
        }
    }

    /// A mountain world-layer reference can be bound beside the single-biome producer only.
    pub fn can_bind_mountain_layer_reference(&self) -> (b: bool)
        ensures
            b == (active_kind_spec(*self) == Some(ProducerKind::SingleBiome)),
    {
        matches!(self.active_producer_kind(), Some(ProducerKind::SingleBiome))
    }

    /// A WORLD preview reference can be bound beside the WORLD producer only.
    pub fn can_bind_world_preview_reference(&self) -> (b: bool)
        ensures
            b == (active_kind_spec(*self) == Some(ProducerKind::World)),
    {
        matches!(self.active_producer_kind(), Some(ProducerKind::World))
    }

    /// Clear the configured components (`reset_configured_state`); the analytic
    /// producer stays as it was.
    pub fn reset(&mut self)
        ensures
            *final(self) == reset_spec(*old(self)),
    {
        self.policy = false;
        self.pack = false;
        self.pack_buffers = false;
        self.glsl_source = false;
        self.compute_ctx = false;
        self.biome_ctx = false;
        self.biome_world = false;
        self.static_ref = false;
    }

    /// Install a producer (`install_*_configuration`): set the policy and that
    /// producer's parts, clear every other producer.
    pub fn install(&mut self, kind: ProducerKind)
        ensures
            *final(self) == installed_spec(kind),
    {
        let legacy = matches!(kind, ProducerKind::Legacy);
        self.policy = true;
        self.pack = legacy;
        self.pack_buffers = legacy;
        self.glsl_source = legacy;
        self.compute_ctx = legacy;
        self.biome_ctx = matches!(kind, ProducerKind::SingleBiome);
        self.biome_world = matches!(kind, ProducerKind::World);
        self.static_ref = matches!(kind, ProducerKind::StaticReference);
        self.analytic = matches!(kind, ProducerKind::Analytic);
    }
}

/// The acquire guard and the dispatcher agree: a configured pool always has an
/// active producer, and a pool with a policy and an active producer is configured.
pub proof fn lemma_guard_matches_dispatch(c: PoolConfig)
    ensures
        configured_spec(c) <==> (c.policy && active_kind_spec(c).is_some()),
{
}

/// After a reset the pool is unconfigured; the only producer that can still be
/// active is the analytic one, and a freshly created pool has none.
pub proof fn lemma_reset_unconfigures(c: PoolConfig)
    ensures
        !configured_spec(reset_spec(c)),
        active_kind_spec(reset_spec(c)) == (if c.analytic {
            Some(ProducerKind::Analytic)
        } else {
            None::<ProducerKind>
        }),
        active_kind_spec(unconfigured_spec()) is None,
{
}

/// After installing a producer the pool is configured and that producer is the
/// active one.
pub proof fn lemma_install_activates(kind: ProducerKind)
    ensures
        configured_spec(installed_spec(kind)),
        active_kind_spec(installed_spec(kind)) == Some(kind),
{
}

// ---------------------------------------------------------------------------
// Acquisition counters
// ---------------------------------------------------------------------------

/// The page policy's answer for a requested page key.
#[derive(Clone, Copy, Debug, PartialEq, Eq, Structural)]
pub enum PageDecision {
    /// The page is resident in this slot.
    Reuse(usize),
    /// A free slot: create its texture and compute the page.
    Allocate(usize),
    /// An LRU victim's slot: recompute the page into its texture.
    AllocateEvicting(usize),
    /// Every slot is protected.
    Full,
}

/// What an acquisition returned.
#[derive(Clone, Copy, Debug, PartialEq, Eq, Structural)]
pub enum AcquireOutcome {
    /// The resident page of this slot.
    Resident(usize),
    /// A freshly produced page in this slot.
    Produced(usize),
    /// Production failed; the policy is rolled back and nothing is returned.
    RolledBack,
    /// No slot available; nothing is returned.
    Full,
}

/// Pool counters.
#[derive(Clone, Copy, Debug, PartialEq, Eq, Structural)]
pub struct PoolStats {
    pub created: i64,
    pub reused: i64,
    pub recomputed: i64,
    pub full_events: i64,
}

/// The outcome of a decision, given whether producing the page succeeded
/// (texture creation and compute dispatch; ignored for `Reuse` and `Full`).
pub open spec fn outcome_spec(decision: PageDecision, produced: bool) -> AcquireOutcome {
    match decision {
        PageDecision::Reuse(slot) => AcquireOutcome::Resident(slot),
        PageDecision::Allocate(slot) => if produced {
            AcquireOutcome::Produced(slot)
        } else {
            AcquireOutcome::RolledBack
        },
        PageDecision::AllocateEvicting(slot) => if produced {
            AcquireOutcome::Produced(slot)
        } else {
            AcquireOutcome::RolledBack
        },
        PageDecision::Full => AcquireOutcome::Full,
    }
}

/// The counters after an acquisition: `Reuse` counts a reuse, a successful
/// `Allocate` a creation, a successful `AllocateEvicting` a recompute, `Full` a
/// full event; a rolled-back acquisition counts nothing.
pub open spec fn stats_after(s: PoolStats, decision: PageDecision, produced: bool) -> PoolStats {
    match decision {
        PageDecision::Reuse(_) => PoolStats { reused: (s.reused + 1) as i64, ..s },
        PageDecision::Allocate(_) => if produced {
            PoolStats { created: (s.created + 1) as i64, ..s }
        } else {
            s
        },
        PageDecision::AllocateEvicting(_) => if produced {
            PoolStats { recomputed: (s.recomputed + 1) as i64, ..s }
        } else {
            s
        },
        PageDecision::Full => PoolStats { full_events: (s.full_events + 1) as i64, ..s },
    }
}

impl PoolStats {
    /// All counters zero (`reset_stats`).
    pub fn new() -> (s: Self)
        ensures
            s == (PoolStats { created: 0, reused: 0, recomputed: 0, full_events: 0 }),
    {
        PoolStats { created: 0, reused: 0, recomputed: 0, full_events: 0 }
    }

    /// Account for one acquisition with a policy `decision`; `produced` tells
    /// whether creating and computing the page succeeded.
    pub fn record_acquire(&mut self, decision: PageDecision, produced: bool) -> (r: AcquireOutcome)
        requires
            old(self).created < i64::MAX,
            old(self).reused < i64::MAX,
            old(self).recomputed < i64::MAX,
            old(self).full_events < i64::MAX,
        ensures
            r == outcome_spec(decision, produced),
            *final(self) == stats_after(*old(self), decision, produced),
    {
        match decision {
            PageDecision::Reuse(slot) => {
                self.reused = self.reused + 1;
                AcquireOutcome::Resident(slot)
            },
            PageDecision::Allocate(slot) => {
                if produced {
                    self.created = self.created + 1;
                    AcquireOutcome::Produced(slot)
                } else {
                    AcquireOutcome::RolledBack
                }
            },
            PageDecision::AllocateEvicting(slot) => {
                if produced {
                    self.recomputed = self.recomputed + 1;
                    AcquireOutcome::Produced(slot)
                } else {
                    AcquireOutcome::RolledBack
                }
            },
            PageDecision::Full => {
                self.full_events = self.full_events + 1;
                AcquireOutcome::Full
            },
        }
    }
}

/// Every acquisition that returns a page or reports `Full` raises exactly one
/// counter by one; a rolled-back acquisition leaves all counters unchanged.
pub proof fn lemma_acquire_counts_once(s: PoolStats, decision: PageDecision, produced: bool)
    requires
        s.created < i64::MAX,
        s.reused < i64::MAX,
        s.recomputed < i64::MAX,
        s.full_events < i64::MAX,
    ensures
        ({
            let t = stats_after(s, decision, produced);
            let total_before = s.created + s.reused + s.recomputed + s.full_events;
            let total_after = t.created + t.reused + t.recomputed + t.full_events;
            &&& outcome_spec(decision, produced) is RolledBack ==> t == s
            &&& !(outcome_spec(decision, produced) is RolledBack) ==> total_after == total_before + 1
            &&& t.created >= s.created && t.reused >= s.reused
            &&& t.recomputed >= s.recomputed && t.full_events >= s.full_events
        }),
{
}

// ---------------------------------------------------------------------------
// WORLD limit and region-fact super keys
// ---------------------------------------------------------------------------

/// The WORLD active-biome limit a request sets: non-positive means unlimited.
pub open spec fn world_active_limit_spec(requested: i64) -> usize {
    if requested <= 0 {
        usize::MAX
    } else {
        requested as usize
    }
}

/// `set_biome_world_active_limit`'s mapping of the requested limit.
pub fn world_active_limit(requested: i64) -> (limit: usize)
    ensures
        limit == world_active_limit_spec(requested),
{
    if requested <= 0 {
        usize::MAX
    } else {
        requested as usize
    }
}

/// The super-region key of region `(rx, rz)` for `k x k` super-regions:
/// Euclidean (floor) division of each coordinate by `k`.
pub open spec fn super_key_spec(rx: i64, rz: i64, k: i64) -> (i64, i64) {
    ((rx as int / k as int) as i64, (rz as int / k as int) as i64)
}

/// `(rx.div_euclid(k), rz.div_euclid(k))`.
pub fn super_key_of(rx: i64, rz: i64, k: i64) -> (key: (i64, i64))
    requires
        k >= 1,
    ensures
        key == super_key_spec(rx, rz, k),
{
    let sx = match rx.checked_div_euclid(k) {
        Some(q) => q,
        None => 0,
    };
    let sz = match rz.checked_div_euclid(k) {
        Some(q) => q,
        None => 0,
    };
    proof {
        assert(i64::MIN <= rx as int / k as int <= i64::MAX) by (nonlinear_arith)
            requires
                k >= 1,
                i64::MIN <= rx <= i64::MAX,
        ;
        assert(i64::MIN <= rz as int / k as int <= i64::MAX) by (nonlinear_arith)
            requires
                k >= 1,
                i64::MIN <= rz <= i64::MAX,
        ;
    }
    (sx, sz)
}

/// A region lies inside the super-region block its key names:
/// `k * key <= r < k * key + k` on each axis.
pub proof fn lemma_super_key_contains(rx: i64, rz: i64, k: i64)
    requires
        k >= 1,
    ensures
        k * super_key_spec(rx, rz, k).0 <= rx < k * super_key_spec(rx, rz, k).0 + k,
        k * super_key_spec(rx, rz, k).1 <= rz < k * super_key_spec(rx, rz, k).1 + k,
{
    let qx = rx as int / k as int;
    let qz = rz as int / k as int;
    assert(k * qx <= rx < k * qx + k) by (nonlinear_arith)
        requires
            qx == rx as int / k as int,
            k >= 1,
    ;
    assert(k * qz <= rz < k * qz + k) by (nonlinear_arith)
        requires
            qz == rz as int / k as int,
            k >= 1,
    ;
    assert(i64::MIN <= qx <= i64::MAX) by (nonlinear_arith)
        requires
            qx == rx as int / k as int,
            k >= 1,
            i64::MIN <= rx <= i64::MAX,
    ;
    assert(i64::MIN <= qz <= i64::MAX) by (nonlinear_arith)
        requires
            qz == rz as int / k as int,
            k >= 1,
            i64::MIN <= rz <= i64::MAX,
    ;
}

} // verus!
