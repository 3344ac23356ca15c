use wg10_terrain::page_acquire::{AcquireEffect, PagePoolCore};
use wg10_terrain::pool_state::{
    world_active_limit, super_key_of, AcquireOutcome, PageDecision, PoolConfig, PoolStats,
    ProducerKind,
};

fn config(
    policy: bool,
    pack: bool,
    pack_buffers: bool,
    glsl: bool,
    compute_ctx: bool,
    biome_ctx: bool,
    biome_world: bool,
    static_ref: bool,
) -> PoolConfig {
    PoolConfig {
        policy,
        pack,
        pack_buffers,
        glsl_source: glsl,
        compute_ctx,
        biome_ctx,
        biome_world,
        static_ref,
        analytic: false,
    }
}

#[test]
fn configured_predicate_requires_all_four_config_options() {
    // The legacy guard over policy/pack/pack_buffers/glsl_source (compute context built).
    fn guard(p: bool, pk: bool, pb: bool, g: bool) -> bool {
        config(p, pk, pb, g, true, false, false, false).is_configured()
    }

    assert!(guard(true, true, true, true), "all Some => configured");
    assert!(!guard(false, true, true, true), "missing policy => unconfigured");
    assert!(!guard(true, false, true, true), "missing pack => unconfigured");
    assert!(!guard(true, true, false, true), "missing pack_buffers => unconfigured");
    assert!(!guard(true, true, true, false), "missing glsl_source => unconfigured");
    assert!(!guard(false, false, false, false), "all None => unconfigured");
}

#[test]
fn fresh_pool_not_configured_either_path() {
    let is_configured = |policy: bool,
                         pack: bool,
                         pack_buffers: bool,
                         glsl: bool,
                         compute_ctx: bool,
                         biome_ctx: bool,
                         biome_world: bool,
                         static_ref: bool| {
        config(policy, pack, pack_buffers, glsl, compute_ctx, biome_ctx, biome_world, static_ref)
            .is_configured()
    };

    assert!(
        !is_configured(false, false, false, false, false, false, false, false),
        "fresh pool must be unconfigured on both paths"
    );
    assert!(!is_configured(true, false, false, false, false, false, false, false), "policy alone => unconfigured");
    assert!(is_configured(true, true, true, true, true, false, false, false), "full legacy => configured");
    assert!(!is_configured(true, true, true, true, false, false, false, false), "legacy w/o compute_ctx => unconfigured");
    assert!(is_configured(true, false, false, false, false, true, false, false), "biome path => configured");
    assert!(!is_configured(false, false, false, false, false, true, false, false), "biome ctx w/o policy => unconfigured");
    assert!(is_configured(true, false, false, false, false, false, true, false), "biome world => configured");
    assert!(!is_configured(false, false, false, false, false, false, true, false), "biome world w/o policy => unconfigured");
    assert!(is_configured(true, false, false, false, false, false, false, true), "static reference => configured");
    assert!(!is_configured(false, false, false, false, false, false, false, true), "static reference w/o policy => unconfigured");
}

#[test]
fn reset_clears_all_configured_state_no_half_configured_residue() {
    // A fully configured legacy pool with two resident page textures and two
    // static material textures.
    let mut p = PagePoolCore::new();
    p.install_producer(ProducerKind::Legacy, 4);
    assert_eq!(p.finish_acquire(PageDecision::Allocate(0), Some(1), true), AcquireEffect::Page(0));
    assert_eq!(p.finish_acquire(PageDecision::Allocate(2), Some(2), true), AcquireEffect::Page(2));
    p.record_material_texture(0, 11);
    p.record_material_texture(2, 12);
    assert_eq!(p.slots.len(), 4);
    assert_eq!(p.material_slots.len(), 4);

    assert_eq!(p.teardown(), vec![1, 2, 11, 12]);

    let c = p.config;
    assert!(!c.policy, "policy must be cleared");
    assert!(!c.pack, "pack must be cleared");
    assert!(!c.pack_buffers, "pack_buffers must be cleared");
    assert!(!c.glsl_source, "glsl_source must be cleared");
    assert!(!c.compute_ctx, "compute_ctx must be cleared");
    assert!(!c.biome_ctx, "biome_ctx must be cleared");
    assert!(!c.biome_world, "biome_world must be cleared");
    assert!(!c.static_ref, "static_ref must be cleared");
    // Slot tables emptied: no stale slot indexable by a stale policy.
    assert_eq!(p.slots.len(), 0, "page slots must be empty");
    assert_eq!(p.material_slots.len(), 0, "material slots must be empty");
    let guard_passes = c.policy && c.pack && c.pack_buffers && c.glsl_source;
    assert!(!guard_passes, "acquire guard must FAIL after reset (unconfigured)");
    assert_eq!(
        guard_passes, c.compute_ctx,
        "F7: acquire guard and compute_ctx presence must never disagree"
    );
    assert!(!c.is_configured());
    assert!(!p.begin_acquire(true));
    assert_eq!(c.active_producer_kind(), None);
}

#[test]
fn reset_is_idempotent_on_unconfigured_state() {
    let mut p = PagePoolCore::new();
    assert!(p.teardown().is_empty());
    let c = p.config;
    assert!(!c.policy && !c.pack && !c.pack_buffers && !c.glsl_source && !c.compute_ctx);
    assert!(!c.biome_ctx && !c.biome_world && !c.static_ref);
    assert_eq!(c, PoolConfig::unconfigured());
    assert!(p.slots.len() == 0 && p.material_slots.len() == 0);
    // A second teardown changes nothing.
    assert!(p.teardown().is_empty());
    assert_eq!(p.config, PoolConfig::unconfigured());
    assert!(p.slots.len() == 0 && p.material_slots.len() == 0);
}

#[test]
fn active_producer_priority_and_labels() {
    let all = config(true, true, true, true, true, true, true, true);
    assert_eq!(all.active_producer_kind(), Some(ProducerKind::StaticReference));
    assert_eq!(all.active_runtime_mode_label(), "static_reference");
    let world = config(true, true, true, true, true, true, true, false);
    assert_eq!(world.active_producer_kind(), Some(ProducerKind::World));
    assert_eq!(world.active_runtime_mode_label(), "world");
    let single = config(true, false, false, false, false, true, false, false);
    assert_eq!(single.active_producer_kind(), Some(ProducerKind::SingleBiome));
    assert_eq!(single.active_runtime_mode_label(), "single");
    assert!(single.uses_active_biome_path());
    assert!(single.accepts_live_source_transform());
    let legacy = config(true, true, true, true, true, false, false, false);
    assert_eq!(legacy.active_producer_kind(), Some(ProducerKind::Legacy));
    assert_eq!(legacy.active_runtime_mode_label(), "legacy");
    assert!(!legacy.uses_active_biome_path());
    assert!(!legacy.accepts_live_source_transform());
    let none = PoolConfig::unconfigured();
    assert_eq!(none.active_runtime_mode_label(), "legacy");
    assert!(!none.uses_active_biome_path());
}

#[test]
fn install_configures_exactly_one_producer() {
    for kind in [
        ProducerKind::Legacy,
        ProducerKind::SingleBiome,
        ProducerKind::World,
        ProducerKind::StaticReference,
    ] {
        let mut c = config(true, true, true, true, true, true, true, true);
        c.install(kind);
        assert!(c.is_configured());
        assert_eq!(c.active_producer_kind(), Some(kind));
        assert_eq!(c.uses_active_biome_path(), kind.uses_biome_path());
    }
    assert_eq!(ProducerKind::Legacy.runtime_mode(), "legacy");
    assert!(!ProducerKind::Legacy.uses_biome_path());
    assert!(ProducerKind::World.uses_biome_path());
}

#[test]
fn acquire_counters_follow_decisions() {
    let mut s = PoolStats::new();
    assert_eq!(s.record_acquire(PageDecision::Reuse(3), false), AcquireOutcome::Resident(3));
    assert_eq!(s.record_acquire(PageDecision::Allocate(1), true), AcquireOutcome::Produced(1));
    assert_eq!(s.record_acquire(PageDecision::Allocate(2), false), AcquireOutcome::RolledBack);
    assert_eq!(s.record_acquire(PageDecision::AllocateEvicting(0), true), AcquireOutcome::Produced(0));
    assert_eq!(s.record_acquire(PageDecision::AllocateEvicting(0), false), AcquireOutcome::RolledBack);
    assert_eq!(s.record_acquire(PageDecision::Full, true), AcquireOutcome::Full);
    assert_eq!(
        s,
        PoolStats { created: 1, reused: 1, recomputed: 1, full_events: 1 }
    );
}

#[test]
fn world_limit_and_super_keys() {
    assert_eq!(world_active_limit(0), usize::MAX);
    assert_eq!(world_active_limit(-3), usize::MAX);
    assert_eq!(world_active_limit(2), 2);
    assert_eq!(super_key_of(5, -1, 2), (2, -1));
    assert_eq!(super_key_of(-4, -5, 2), (-2, -3));
    assert_eq!(super_key_of(7, 0, 1), (7, 0));
}

#[test]
fn analytic_producer_is_checked_first() {
    let mut all = config(true, true, true, true, true, true, true, true);
    all.analytic = true;
    assert_eq!(all.active_producer_kind(), Some(ProducerKind::Analytic));
    assert_eq!(all.active_runtime_mode_label(), "analytic");
    assert!(all.uses_active_biome_path());
    assert!(!all.accepts_live_source_transform());

    let mut c = config(true, true, true, true, true, true, true, true);
    c.install(ProducerKind::Analytic);
    assert_eq!(c.active_producer_kind(), Some(ProducerKind::Analytic));
    assert!(c.policy && c.analytic);
    assert!(!c.pack && !c.biome_ctx && !c.biome_world && !c.static_ref);
    assert!(c.is_configured());

    c.install(ProducerKind::World);
    assert!(!c.analytic);
    assert_eq!(c.active_producer_kind(), Some(ProducerKind::World));
}

#[test]
fn reset_leaves_the_analytic_producer() {
    let mut c = PoolConfig::unconfigured();
    c.install(ProducerKind::Analytic);
    c.reset();
    assert!(!c.policy);
    assert!(c.analytic);
    assert_eq!(c.active_producer_kind(), Some(ProducerKind::Analytic));
    // Without a policy the pool is not configured.
    assert!(!c.is_configured());
}
