use wg10_terrain::page_acquire::{AcquireEffect, MaterialTarget, PagePoolCore};
use wg10_terrain::pool_state::{PageDecision, PoolStats, ProducerKind};

fn world_pool(capacity: usize) -> PagePoolCore {
    let mut p = PagePoolCore::new();
    p.install_producer(ProducerKind::World, capacity);
    p
}

#[test]
fn acquire_guard_needs_configuration_and_device() {
    let fresh = PagePoolCore::new();
    assert!(!fresh.begin_acquire(true));
    let p = world_pool(2);
    assert!(p.begin_acquire(true));
    assert!(!p.begin_acquire(false));
    let mut analytic = PagePoolCore::new();
    analytic.install_producer(ProducerKind::Analytic, 2);
    assert!(analytic.begin_acquire(true));
}

#[test]
fn allocate_installs_texture_and_counts_creation() {
    let mut p = world_pool(3);
    assert_eq!(p.finish_acquire(PageDecision::Allocate(1), Some(41), true), AcquireEffect::Page(1));
    assert_eq!(p.slots.get(1), Some(41));
    assert_eq!(p.stats, PoolStats { created: 1, reused: 0, recomputed: 0, full_events: 0 });
    assert_eq!(p.finish_acquire(PageDecision::Reuse(1), None, false), AcquireEffect::Page(1));
    assert_eq!(p.stats.reused, 1);
}

#[test]
fn failed_allocate_rolls_back_without_installing() {
    let mut p = world_pool(2);
    assert_eq!(
        p.finish_acquire(PageDecision::Allocate(0), None, true),
        AcquireEffect::RollBack { free: None }
    );
    assert_eq!(
        p.finish_acquire(PageDecision::Allocate(0), Some(9), false),
        AcquireEffect::RollBack { free: Some(9) }
    );
    assert_eq!(p.slots.get(0), None);
    assert_eq!(p.stats, PoolStats::new());
}

#[test]
fn eviction_recomputes_or_frees_the_slot() {
    let mut p = world_pool(2);
    p.finish_acquire(PageDecision::Allocate(0), Some(5), true);
    assert_eq!(p.evicting_texture(0), Some(5));
    assert_eq!(p.finish_acquire(PageDecision::AllocateEvicting(0), None, true), AcquireEffect::Page(0));
    assert_eq!(p.stats.recomputed, 1);
    assert_eq!(
        p.finish_acquire(PageDecision::AllocateEvicting(0), None, false),
        AcquireEffect::RollBack { free: Some(5) }
    );
    assert_eq!(p.slots.get(0), None);
    assert_eq!(p.stats.recomputed, 1);
}

#[test]
fn full_counts_a_full_event() {
    let mut p = world_pool(1);
    assert_eq!(p.finish_acquire(PageDecision::Full, None, false), AcquireEffect::Nothing);
    assert_eq!(p.stats.full_events, 1);
}

#[test]
fn reconfigure_frees_live_textures_once() {
    let mut p = world_pool(3);
    p.finish_acquire(PageDecision::Allocate(2), Some(7), true);
    p.finish_acquire(PageDecision::Allocate(0), Some(8), true);
    assert_eq!(p.prepare_reconfigure(), vec![8, 7]);
    assert!(!p.begin_acquire(true));
    assert_eq!(p.slots.len(), 0);
    assert_eq!(p.stats.created, 2);
    assert!(p.prepare_reconfigure().is_empty());
    p.install_producer(ProducerKind::StaticReference, 4);
    assert_eq!(p.slots.len(), 4);
    assert_eq!(p.stats, PoolStats::new());
    assert!(p.begin_acquire(true));
}

#[test]
fn material_textures_are_created_once_and_freed_with_the_pool() {
    let mut p = world_pool(2);
    assert_eq!(p.material_target(1, false), MaterialTarget::Skip);
    assert_eq!(p.material_target(1, true), MaterialTarget::Create);
    p.record_material_texture(1, 30);
    assert_eq!(p.material_target(1, true), MaterialTarget::Existing(30));
    assert_eq!(p.material_target(0, true), MaterialTarget::Create);
    p.finish_acquire(PageDecision::Allocate(0), Some(4), true);
    // A failed recompute frees the page texture only.
    assert_eq!(
        p.finish_acquire(PageDecision::AllocateEvicting(0), None, false),
        AcquireEffect::RollBack { free: Some(4) }
    );
    assert_eq!(p.material_slots.get(1), Some(30));
    assert_eq!(p.teardown(), vec![30]);
    assert!(p.teardown().is_empty());
}
