use wg10_terrain::pool_state::{PoolConfig, ProducerKind};
use wg10_terrain::region_queue::SuperBakeQueue;
use wg10_terrain::slot_table::SlotTable;
use wg10_terrain::static_stitch::{
    chunk_cell_index, corridor_mask, count_nonzero, first_unfilled, stitch_corridor_cell,
    stitched_grid_dims, GridDimError,
};
use wg10_terrain::world_layer_contract::{
    mountain_world_layer_contract_report, BlockingGap, ContractKind, HeightSource, ReferenceFacts,
    SourceScope,
};

fn installed(kind: ProducerKind) -> PoolConfig {
    let mut c = PoolConfig::unconfigured();
    c.install(kind);
    c
}

fn facts(routes: i64) -> ReferenceFacts {
    ReferenceFacts {
        pass_network_routes: routes,
        has_route_carving: true,
        has_conditioning: true,
        has_source_display_mapping: true,
        has_material_hints: false,
    }
}

#[test]
fn static_reference_is_the_accepted_visual_baseline() {
    let r = mountain_world_layer_contract_report(
        &installed(ProducerKind::StaticReference),
        Some(facts(12)),
        None,
        None,
    );
    assert_eq!(r.runtime_mode, "static_reference");
    assert_eq!(r.facts.contract_kind, ContractKind::AcceptedStaticReferenceVisualBaseline);
    assert_eq!(r.facts.contract_kind.label(), "accepted_static_reference_visual_baseline");
    assert_eq!(r.facts.source_scope, SourceScope::StaticReferenceScope);
    assert_eq!(r.facts.source_scope.label(), None);
    assert!(r.facts.accepted_visual_baseline);
    assert!(r.facts.has_pass_network_routes);
    assert!(r.facts.has_route_carving);
    assert!(r.facts.has_page_stable_conditioning);
    assert!(!r.facts.has_material_hints);
    assert!(!r.facts.satisfies_mountain_world_layer_contract);
    assert_eq!(r.facts.blocking_gap, BlockingGap::LiveFactsAndSynthesisOpen);
}

#[test]
fn world_with_and_without_preview_reference() {
    let world = installed(ProducerKind::World);
    let bare = mountain_world_layer_contract_report(&world, None, None, None);
    assert_eq!(bare.runtime_mode, "world");
    assert_eq!(bare.facts.contract_kind.label(), "grammar_routed_runtime_biome_composition");
    assert_eq!(bare.facts.source_scope.label(), Some("grammar_routed_page_weight_field"));
    assert_eq!(bare.facts.has_world_preview_reference, Some(false));
    assert!(bare.facts.has_source_display_mapping);
    assert!(!bare.facts.has_pass_network_routes);
    let preview = mountain_world_layer_contract_report(&world, None, None, Some(facts(0)));
    assert_eq!(preview.facts.contract_kind, ContractKind::WorldRouteReferenceHeightPreview);
    assert_eq!(preview.facts.height_source, Some(HeightSource::AcceptedReferencePayloadForPreview));
    assert_eq!(preview.facts.procedural_world_layer_height, Some(false));
    assert!(!preview.facts.has_pass_network_routes);
    assert!(preview.facts.reports_reference_source_scope);
}

#[test]
fn single_biome_is_the_live_candidate() {
    let single = installed(ProducerKind::SingleBiome);
    let bare = mountain_world_layer_contract_report(&single, None, None, None);
    assert_eq!(bare.facts.contract_kind.label(), "single_seam_safe_mountain_page_recipe");
    assert!(bare.facts.explicit_live_candidate && bare.facts.live_world_layer_candidate);
    assert_eq!(bare.facts.has_bound_world_layer_reference, Some(false));
    assert_eq!(
        bare.facts.blocking_gap.label(),
        "missing pass-network routes, route carving, page-stable conditioning, material hints, and facts/collision story"
    );
    let bridged = mountain_world_layer_contract_report(&single, None, Some(facts(3)), None);
    assert_eq!(bridged.facts.contract_kind, ContractKind::SingleMountainWorldLayerReferenceBridge);
    assert_eq!(bridged.facts.height_source.map(|h| h.label()), Some("bound_world_layer_reference_payload"));
    assert_eq!(bridged.facts.height_consumes_world_layer_facts, Some(true));
    assert!(bridged.facts.has_pass_network_routes);
}

#[test]
fn legacy_and_unconfigured_report_the_atlas() {
    let r = mountain_world_layer_contract_report(&PoolConfig::unconfigured(), None, None, None);
    assert_eq!(r.runtime_mode, "legacy");
    assert_eq!(r.facts.contract_kind.label(), "legacy_dem_kernel_atlas");
    assert_eq!(r.facts.source_scope.label(), Some("legacy_kernel_sampling"));
    assert!(!r.facts.accepted_visual_baseline);
    assert_eq!(r.facts.has_world_preview_reference, None);
}

#[test]
fn analytic_producer_reports_the_atlas_under_its_own_label() {
    let r = mountain_world_layer_contract_report(&installed(ProducerKind::Analytic), None, None, None);
    assert_eq!(r.runtime_mode, "analytic");
    assert_eq!(r.facts.contract_kind.label(), "legacy_dem_kernel_atlas");
    assert!(!installed(ProducerKind::Analytic).can_bind_mountain_layer_reference());
}

#[test]
fn reference_binding_follows_producer() {
    assert!(installed(ProducerKind::SingleBiome).can_bind_mountain_layer_reference());
    assert!(!installed(ProducerKind::World).can_bind_mountain_layer_reference());
    assert!(installed(ProducerKind::World).can_bind_world_preview_reference());
    assert!(!installed(ProducerKind::StaticReference).can_bind_world_preview_reference());
}

#[test]
fn grid_dims_and_overflow() {
    assert_eq!(stitched_grid_dims(1, 2), Ok((2, 4)));
    assert_eq!(stitched_grid_dims(3, 5), Ok((13, 169)));
    assert_eq!(stitched_grid_dims(usize::MAX, 3), Err(GridDimError::GridN));
    assert_eq!(stitched_grid_dims(1usize << 40, 2), Err(GridDimError::GridLen));
}

#[test]
fn chunks_tile_the_grid_with_shared_edges() {
    // 2 x 2 chunks of 3 x 3 samples -> 5 x 5 grid.
    let (g, len) = stitched_grid_dims(2, 3).unwrap();
    let mut hits = vec![0u32; len];
    for cz in 0..2 {
        for cx in 0..2 {
            for z in 0..3 {
                for x in 0..3 {
                    hits[chunk_cell_index(2, 3, g, cx, cz, x, z)] += 1;
                }
            }
        }
    }
    assert!(hits.iter().all(|h| *h >= 1));
    assert_eq!(hits[2 * 5 + 2], 4); // the centre is shared by all four chunks
    assert_eq!(chunk_cell_index(2, 3, g, 0, 0, 2, 1), chunk_cell_index(2, 3, g, 1, 0, 0, 1));
}

#[test]
fn corridor_seams_must_agree() {
    let mut grid = vec![0u8; 4];
    let mut filled = vec![false; 4];
    assert!(stitch_corridor_cell(&mut grid, &mut filled, 1, 7));
    assert_eq!(grid, vec![0, 1, 0, 0]);
    assert!(stitch_corridor_cell(&mut grid, &mut filled, 1, -1));
    assert!(!stitch_corridor_cell(&mut grid, &mut filled, 1, 0));
    assert_eq!(grid, vec![0, 1, 0, 0]);
    assert_eq!(first_unfilled(&filled), Some(0));
    assert!(stitch_corridor_cell(&mut grid, &mut filled, 0, 0));
    assert!(stitch_corridor_cell(&mut grid, &mut filled, 2, 0));
    assert!(stitch_corridor_cell(&mut grid, &mut filled, 3, 5));
    assert_eq!(first_unfilled(&filled), None);
    assert_eq!(count_nonzero(&grid), 2);
}

#[test]
fn corridor_mask_marks_nonzero() {
    assert_eq!(corridor_mask(&[1, 0, -3, 0]), vec![1, 0, 1, 0]);
    assert_eq!(count_nonzero(&corridor_mask(&[1, 0, 1, 0])), 2);
    assert_eq!(count_nonzero(&[]), 0);
}

#[test]
fn super_bakes_are_enqueued_once() {
    let mut q = SuperBakeQueue::new();
    let key = q.needs_bake(5, -1, 2, false).unwrap();
    assert_eq!(key, (2, -1));
    q.mark_in_flight(key);
    assert!(q.contains((2, -1)));
    assert_eq!(q.needs_bake(4, -2, 2, false), None);
    assert_eq!(q.len(), 1);
    q.mark_in_flight(key);
    assert_eq!(q.len(), 1);
    q.complete(key);
    assert!(!q.contains(key));
    assert_eq!(q.needs_bake(5, -1, 2, false), Some((2, -1)));
    // A region already in the cache asks for nothing, in flight or not.
    assert_eq!(q.needs_bake(5, -1, 2, true), None);
    q.mark_in_flight((0, 0));
    q.clear();
    assert_eq!(q.len(), 0);
}

#[test]
fn slot_teardown_hands_back_each_handle_once() {
    let mut t = SlotTable::with_capacity(4);
    assert_eq!(t.len(), 4);
    assert_eq!(t.install(0, 11), None);
    assert_eq!(t.install(2, 12), None);
    assert_eq!(t.get(2), Some(12));
    assert_eq!(t.get(1), None);
    assert_eq!(t.install(2, 13), Some(12));
    assert_eq!(t.take(0), Some(11));
    assert_eq!(t.take(0), None);
    assert_eq!(t.install(3, 14), None);
    assert_eq!(t.drain_all(), vec![13, 14]);
    assert_eq!(t.len(), 0);
    assert!(t.drain_all().is_empty());
}
