//! The mountain world-layer contract report: which acceptance facts the active
//! producer owns, kept apart from which producer is active.

use vstd::prelude::*;
use crate::pool_state::{active_kind_spec, runtime_mode_spec, PoolConfig, ProducerKind};

verus! {

/// The facts a loaded world-layer reference payload carries, as the report reads them.
#[derive(Clone, Copy, Debug, PartialEq, Eq, Structural)]
pub struct ReferenceFacts {
    /// Number of pass-network routes in the payload.
    pub pass_network_routes: i64,
    /// The carved fraction of the pass network is positive.
    pub has_route_carving: bool,
    /// Conditioning stats are present with positive source and conditioned ranges.
    pub has_conditioning: bool,
    /// The source/display mapping is finite with positive spans and ratio.
    pub has_source_display_mapping: bool,
    /// Material hints are present.
    pub has_material_hints: bool,
}

/// Which contract the active producer offers.
#[derive(Clone, Copy, Debug, PartialEq, Eq, Structural)]
pub enum ContractKind {
    AcceptedStaticReferenceVisualBaseline,
    WorldRouteReferenceHeightPreview,
    GrammarRoutedRuntimeBiomeComposition,
    SingleMountainWorldLayerReferenceBridge,
    SingleSeamSafeMountainPageRecipe,
    LegacyDemKernelAtlas,
}

/// Where the report's source scope comes from.
#[derive(Clone, Copy, Debug, PartialEq, Eq, Structural)]
pub enum SourceScope {
    /// The static reference payload's own `source_scope`.
    StaticReferenceScope,
    GrammarRouteOverAcceptedReferenceHeight,
    GrammarRoutedPageWeightField,
    DisplayToSourceTransformPageSynthesis,
    LegacyKernelSampling,
}

/// Where page height comes from when a reference is bound.
#[derive(Clone, Copy, Debug, PartialEq, Eq, Structural)]
pub enum HeightSource {
    AcceptedReferencePayloadForPreview,
    BoundWorldLayerReferencePayload,
}

/// What still blocks the full world-layer contract.
#[derive(Clone, Copy, Debug, PartialEq, Eq, Structural)]
pub enum BlockingGap {
    LiveFactsAndSynthesisOpen,
    WorldPreviewUsesReferenceHeight,
    WorldDoesNotOwnFacts,
    ReferenceBackedRecovery,
    MissingAllFacts,
    LegacyAtlasNotAccepted,
}

/// Report text of a `ContractKind`.
pub open spec fn contract_kind_label(x: ContractKind) -> Seq<char> {
    match x {
        ContractKind::AcceptedStaticReferenceVisualBaseline => "accepted_static_reference_visual_baseline"@,
        ContractKind::WorldRouteReferenceHeightPreview => "world_route_reference_height_preview"@,
        ContractKind::GrammarRoutedRuntimeBiomeComposition => "grammar_routed_runtime_biome_composition"@,
        ContractKind::SingleMountainWorldLayerReferenceBridge => "single_mountain_world_layer_reference_bridge"@,
        ContractKind::SingleSeamSafeMountainPageRecipe => "single_seam_safe_mountain_page_recipe"@,
        ContractKind::LegacyDemKernelAtlas => "legacy_dem_kernel_atlas"@,
    }
}

impl ContractKind {
    /// Report text.
    pub fn label(self) -> (s: &'static str)
        ensures
            s@ == contract_kind_label(self),
    {
        match self {
            ContractKind::AcceptedStaticReferenceVisualBaseline => "accepted_static_reference_visual_baseline",
            ContractKind::WorldRouteReferenceHeightPreview => "world_route_reference_height_preview",
            ContractKind::GrammarRoutedRuntimeBiomeComposition => "grammar_routed_runtime_biome_composition",
            ContractKind::SingleMountainWorldLayerReferenceBridge => "single_mountain_world_layer_reference_bridge",
            ContractKind::SingleSeamSafeMountainPageRecipe => "single_seam_safe_mountain_page_recipe",
            ContractKind::LegacyDemKernelAtlas => "legacy_dem_kernel_atlas",
        }
    }
}

/// Report text of a `HeightSource`.
pub open spec fn height_source_label(x: HeightSource) -> Seq<char> {
    match x {
        HeightSource::AcceptedReferencePayloadForPreview => "accepted_reference_payload_for_preview"@,
        HeightSource::BoundWorldLayerReferencePayload => "bound_world_layer_reference_payload"@,
    }
}

impl HeightSource {
    /// Report text.
    pub fn label(self) -> (s: &'static str)
        ensures
            s@ == height_source_label(self),
    {
        match self {
            HeightSource::AcceptedReferencePayloadForPreview => "accepted_reference_payload_for_preview",
            HeightSource::BoundWorldLayerReferencePayload => "bound_world_layer_reference_payload",
        }
    }
}

/// Report text of a `BlockingGap`.
pub open spec fn blocking_gap_label(x: BlockingGap) -> Seq<char> {
    match x {
        BlockingGap::LiveFactsAndSynthesisOpen => "live facts/collision story and procedural world-layer synthesis remain open"@,
        BlockingGap::WorldPreviewUsesReferenceHeight => "WORLD route/weight diagnostics use accepted reference height for owner preview; full procedural WORLD height remains open until async/cache production"@,
        BlockingGap::WorldDoesNotOwnFacts => "WORLD composes runtime-biome pages but does not own the accepted mountain pass-network or conditioning facts"@,
        BlockingGap::ReferenceBackedRecovery => "height/material/facts are reference-backed for owner visual recovery; live procedural GPU height and facts/collision story remain open"@,
        BlockingGap::MissingAllFacts => "missing pass-network routes, route carving, page-stable conditioning, material hints, and facts/collision story"@,
        BlockingGap::LegacyAtlasNotAccepted => "legacy atlas path is not the accepted mountain world-layer producer"@,
    }
}

impl BlockingGap {
    /// Report text.
    pub fn label(self) -> (s: &'static str)
        ensures
            s@ == blocking_gap_label(self),
    {
        match self {
            BlockingGap::LiveFactsAndSynthesisOpen => "live facts/collision story and procedural world-layer synthesis remain open",
            BlockingGap::WorldPreviewUsesReferenceHeight => "WORLD route/weight diagnostics use accepted reference height for owner preview; full procedural WORLD height remains open until async/cache production",
            BlockingGap::WorldDoesNotOwnFacts => "WORLD composes runtime-biome pages but does not own the accepted mountain pass-network or conditioning facts",
            BlockingGap::ReferenceBackedRecovery => "height/material/facts are reference-backed for owner visual recovery; live procedural GPU height and facts/collision story remain open",
            BlockingGap::MissingAllFacts => "missing pass-network routes, route carving, page-stable conditioning, material hints, and facts/collision story",
            BlockingGap::LegacyAtlasNotAccepted => "legacy atlas path is not the accepted mountain world-layer producer",
        }
    }
}

/// Fixed report text of a `SourceScope`; `None` for the reference's own scope.
pub open spec fn source_scope_label(x: SourceScope) -> Option<Seq<char>> {
    match x {
        SourceScope::StaticReferenceScope => None,
        SourceScope::GrammarRouteOverAcceptedReferenceHeight => Some("grammar_route_over_accepted_reference_height"@),
        SourceScope::GrammarRoutedPageWeightField => Some("grammar_routed_page_weight_field"@),
        SourceScope::DisplayToSourceTransformPageSynthesis => Some("display_to_source_transform_page_synthesis"@),
        SourceScope::LegacyKernelSampling => Some("legacy_kernel_sampling"@),
    }
}

impl SourceScope {
    /// Fixed report text; `None` when the static reference payload's own scope is reported.
    pub fn label(self) -> (s: Option<&'static str>)
        ensures
            match s {
                Some(t) => source_scope_label(self) == Some(t@),
                None => source_scope_label(self) is None,
            },
    {
        match self {
            SourceScope::StaticReferenceScope => None,
            SourceScope::GrammarRouteOverAcceptedReferenceHeight => Some("grammar_route_over_accepted_reference_height"),
            SourceScope::GrammarRoutedPageWeightField => Some("grammar_routed_page_weight_field"),
            SourceScope::DisplayToSourceTransformPageSynthesis => Some("display_to_source_transform_page_synthesis"),
            SourceScope::LegacyKernelSampling => Some("legacy_kernel_sampling"),
        }
    }
}

/// The report entries (other than the runtime mode label).
#[derive(Clone, Copy, Debug, PartialEq, Eq, Structural)]
pub struct ContractFacts {
    pub contract_kind: ContractKind,
    pub source_scope: SourceScope,
    pub accepted_visual_baseline: bool,
    pub explicit_live_candidate: bool,
    pub live_world_layer_candidate: bool,
    pub has_source_display_mapping: bool,
    pub has_mountain_macro_field: bool,
    pub has_pass_network_routes: bool,
    pub has_route_carving: bool,
    pub has_page_stable_conditioning: bool,
    pub has_material_hints: bool,
    pub has_facts_collision_story: bool,
    pub satisfies_mountain_world_layer_contract: bool,
    /// Set (to whether a preview reference is bound) for the WORLD producer only.
    pub has_world_preview_reference: Option<bool>,
    /// Set (to whether a layer reference is bound) for the single-biome producer only.
    pub has_bound_world_layer_reference: Option<bool>,
    /// Set (to whether a layer reference is bound) for the single-biome producer only.
    pub height_consumes_world_layer_facts: Option<bool>,
    /// Set when a preview or layer reference supplies the height.
    pub height_source: Option<HeightSource>,
    /// `Some(false)` when a reference supplies the height.
    pub procedural_world_layer_height: Option<bool>,
    /// The bound reference's own source scope is reported.
    pub reports_reference_source_scope: bool,
    pub blocking_gap: BlockingGap,
}

/// The report.
pub struct ContractReport {
    pub runtime_mode: &'static str,
    pub facts: ContractFacts,
}

/// Everything false or unset: the entries every report starts from.
pub open spec fn base_facts(kind: ContractKind, scope: SourceScope, gap: BlockingGap) -> ContractFacts {
    ContractFacts {
        contract_kind: kind,
        source_scope: scope,
        accepted_visual_baseline: false,
        explicit_live_candidate: false,
        live_world_layer_candidate: false,
        has_source_display_mapping: false,
        has_mountain_macro_field: false,
        has_pass_network_routes: false,
        has_route_carving: false,
        has_page_stable_conditioning: false,
        has_material_hints: false,
        has_facts_collision_story: false,
        satisfies_mountain_world_layer_contract: false,
        has_world_preview_reference: None,
        has_bound_world_layer_reference: None,
        height_consumes_world_layer_facts: None,
        height_source: None,
        procedural_world_layer_height: None,
        reports_reference_source_scope: false,
        blocking_gap: gap,
    }
}

/// The report for a pool configuration and its loaded references: the static
/// reference producer owns the accepted visual baseline; WORLD composes
/// runtime biomes (optionally previewing a reference's height); the single-biome
/// producer is the live candidate (optionally bridged to a bound layer
/// reference); anything else is the legacy atlas.
pub open spec fn contract_facts_spec(
    config: PoolConfig,
    static_ref: Option<ReferenceFacts>,
    layer_ref: Option<ReferenceFacts>,
    preview_ref: Option<ReferenceFacts>,
) -> ContractFacts {
    if let Some(r) = static_ref {
        ContractFacts {
            accepted_visual_baseline: true,
            has_source_display_mapping: r.has_source_display_mapping,
            has_mountain_macro_field: true,
            has_pass_network_routes: r.pass_network_routes > 0,
            has_route_carving: r.has_route_carving,
            has_page_stable_conditioning: r.has_conditioning,
            has_material_hints: r.has_material_hints,
            ..base_facts(
                ContractKind::AcceptedStaticReferenceVisualBaseline,
                SourceScope::StaticReferenceScope,
                BlockingGap::LiveFactsAndSynthesisOpen,
            )
        }
    } else if active_kind_spec(config) == Some(ProducerKind::World) {
        match preview_ref {
            Some(r) => ContractFacts {
                has_source_display_mapping: r.has_source_display_mapping,
                has_mountain_macro_field: true,
                has_world_preview_reference: Some(true),
                height_source: Some(HeightSource::AcceptedReferencePayloadForPreview),
                procedural_world_layer_height: Some(false),
                reports_reference_source_scope: true,
                has_pass_network_routes: r.pass_network_routes > 0,
                has_route_carving: r.has_route_carving,
                has_page_stable_conditioning: r.has_conditioning,
                has_material_hints: r.has_material_hints,
                ..base_facts(
                    ContractKind::WorldRouteReferenceHeightPreview,
                    SourceScope::GrammarRouteOverAcceptedReferenceHeight,
                    BlockingGap::WorldPreviewUsesReferenceHeight,
                )
            },
            None => ContractFacts {
                has_source_display_mapping: true,
                has_mountain_macro_field: true,
                has_world_preview_reference: Some(false),
                ..base_facts(
                    ContractKind::GrammarRoutedRuntimeBiomeComposition,
                    SourceScope::GrammarRoutedPageWeightField,
                    BlockingGap::WorldDoesNotOwnFacts,
                )
            },
        }
    } else if active_kind_spec(config) == Some(ProducerKind::SingleBiome) {
        match layer_ref {
            Some(r) => ContractFacts {
                explicit_live_candidate: true,
                live_world_layer_candidate: true,
                has_source_display_mapping: r.has_source_display_mapping,
                has_mountain_macro_field: true,
                has_bound_world_layer_reference: Some(true),
                height_consumes_world_layer_facts: Some(true),
                height_source: Some(HeightSource::BoundWorldLayerReferencePayload),
                procedural_world_layer_height: Some(false),
                reports_reference_source_scope: true,
                has_pass_network_routes: r.pass_network_routes > 0,
                has_route_carving: r.has_route_carving,
                has_page_stable_conditioning: r.has_conditioning,
                has_material_hints: r.has_material_hints,
                ..base_facts(
                    ContractKind::SingleMountainWorldLayerReferenceBridge,
                    SourceScope::DisplayToSourceTransformPageSynthesis,
                    BlockingGap::ReferenceBackedRecovery,
                )
            },
            None => ContractFacts {
                explicit_live_candidate: true,
                live_world_layer_candidate: true,
                has_source_display_mapping: true,
                has_mountain_macro_field: true,
                has_bound_world_layer_reference: Some(false),
                height_consumes_world_layer_facts: Some(false),
                ..base_facts(
                    ContractKind::SingleSeamSafeMountainPageRecipe,
                    SourceScope::DisplayToSourceTransformPageSynthesis,
                    BlockingGap::MissingAllFacts,
                )
            },
        }
    } else {
        base_facts(
            ContractKind::LegacyDemKernelAtlas,
            SourceScope::LegacyKernelSampling,
            BlockingGap::LegacyAtlasNotAccepted,
        )
    }
}

fn base(kind: ContractKind, scope: SourceScope, gap: BlockingGap) -> (f: ContractFacts)
    ensures
        f == base_facts(kind, scope, gap),
{
    ContractFacts {
        contract_kind: kind,
        source_scope: scope,
        accepted_visual_baseline: false,
        explicit_live_candidate: false,
        live_world_layer_candidate: false,
        has_source_display_mapping: false,
        has_mountain_macro_field: false,
        has_pass_network_routes: false,
        has_route_carving: false,
        has_page_stable_conditioning: false,
        has_material_hints: false,
        has_facts_collision_story: false,
        satisfies_mountain_world_layer_contract: false,
        has_world_preview_reference: None,
        has_bound_world_layer_reference: None,
        height_consumes_world_layer_facts: None,
        height_source: None,
        procedural_world_layer_height: None,
        reports_reference_source_scope: false,
        blocking_gap: gap,
    }
}

/// Copy a bound reference's route, carving, conditioning, mapping and material facts.
fn with_reference(f: ContractFacts, r: ReferenceFacts) -> (g: ContractFacts)
    ensures
        g == (ContractFacts {
            has_source_display_mapping: r.has_source_display_mapping,
            has_pass_network_routes: r.pass_network_routes > 0,
            has_route_carving: r.has_route_carving,
            has_page_stable_conditioning: r.has_conditioning,
            has_material_hints: r.has_material_hints,
            ..f
        }),
{
    let mut g = f;
    g.has_source_display_mapping = r.has_source_display_mapping;
    g.has_pass_network_routes = r.pass_network_routes > 0;
    g.has_route_carving = r.has_route_carving;
    g.has_page_stable_conditioning = r.has_conditioning;
    g.has_material_hints = r.has_material_hints;
    g
}

/// `mountain_world_layer_contract_report`.
pub fn mountain_world_layer_contract_report(
    config: &PoolConfig,
    static_ref: Option<ReferenceFacts>,
    layer_ref: Option<ReferenceFacts>,
    preview_ref: Option<ReferenceFacts>,
) -> (report: ContractReport)
    ensures
        report.runtime_mode@ == match active_kind_spec(*config) {
            Some(k) => runtime_mode_spec(k),
            None => "legacy"@,
        },
        report.facts == contract_facts_spec(*config, static_ref, layer_ref, preview_ref),
{
    let runtime_mode = config.active_runtime_mode_label();
    let kind = config.active_producer_kind();
    let facts = match static_ref {
        Some(r) => {
            let mut f = with_reference(
                base(
                    ContractKind::AcceptedStaticReferenceVisualBaseline,
                    SourceScope::StaticReferenceScope,
                    BlockingGap::LiveFactsAndSynthesisOpen,
                ),
                r,
            );
            f.accepted_visual_baseline = true;
            f.has_mountain_macro_field = true;
            f
        },
        None => {
            if kind == Some(ProducerKind::World) {
                match preview_ref {
                    Some(r) => {
                        let mut f = with_reference(
                            base(
                                ContractKind::WorldRouteReferenceHeightPreview,
                                SourceScope::GrammarRouteOverAcceptedReferenceHeight,
                                BlockingGap::WorldPreviewUsesReferenceHeight,
                            ),
                            r,
                        );
                        f.has_mountain_macro_field = true;
                        f.has_world_preview_reference = Some(true);
                        f.height_source = Some(HeightSource::AcceptedReferencePayloadForPreview);
                        f.procedural_world_layer_height = Some(false);
                        f.reports_reference_source_scope = true;
                        f
                    },
                    None => {
                        let mut f = base(
                            ContractKind::GrammarRoutedRuntimeBiomeComposition,
                            SourceScope::GrammarRoutedPageWeightField,
                            BlockingGap::WorldDoesNotOwnFacts,
                        );
                        f.has_source_display_mapping = true;
                        f.has_mountain_macro_field = true;
                        f.has_world_preview_reference = Some(false);
                        f
                    },
                }
            } else if kind == Some(ProducerKind::SingleBiome) {
                match layer_ref {
                    Some(r) => {
                        let mut f = with_reference(
                            base(
                                ContractKind::SingleMountainWorldLayerReferenceBridge,
                                SourceScope::DisplayToSourceTransformPageSynthesis,
                                BlockingGap::ReferenceBackedRecovery,
                            ),
                            r,
                        );
                        f.explicit_live_candidate = true;
                        f.live_world_layer_candidate = true;
                        f.has_mountain_macro_field = true;
                        f.has_bound_world_layer_reference = Some(true);
                        f.height_consumes_world_layer_facts = Some(true);
                        f.height_source = Some(HeightSource::BoundWorldLayerReferencePayload);
                        f.procedural_world_layer_height = Some(false);
                        f.reports_reference_source_scope = true;
                        f
                    },
                    None => {
                        let mut f = base(
                            ContractKind::SingleSeamSafeMountainPageRecipe,
                            SourceScope::DisplayToSourceTransformPageSynthesis,
                            BlockingGap::MissingAllFacts,
                        );
                        f.explicit_live_candidate = true;
                        f.live_world_layer_candidate = true;
                        f.has_source_display_mapping = true;
                        f.has_mountain_macro_field = true;
                        f.has_bound_world_layer_reference = Some(false);
                        f.height_consumes_world_layer_facts = Some(false);
                        f
                    },
                }
            } else {
                base(
                    ContractKind::LegacyDemKernelAtlas,
                    SourceScope::LegacyKernelSampling,
                    BlockingGap::LegacyAtlasNotAccepted,
                )
            }
        },
    };
    ContractReport { runtime_mode, facts }
}

/// No producer claims the full mountain world-layer contract or a
/// facts/collision story yet, and only the static reference is the accepted
/// visual baseline.
pub proof fn lemma_no_producer_satisfies_contract(
    config: PoolConfig,
    static_ref: Option<ReferenceFacts>,
    layer_ref: Option<ReferenceFacts>,
    preview_ref: Option<ReferenceFacts>,
)
    ensures
        !contract_facts_spec(config, static_ref, layer_ref, preview_ref).satisfies_mountain_world_layer_contract,
        !contract_facts_spec(config, static_ref, layer_ref, preview_ref).has_facts_collision_story,
        contract_facts_spec(config, static_ref, layer_ref, preview_ref).accepted_visual_baseline
            <==> static_ref.is_some(),
{
}

/// The reference facts a report copies are those of the reference that
/// supplies the producer's facts: a loaded static reference; else, for the
/// WORLD producer, its preview reference; else, for the single-biome producer,
/// its bound layer reference. The route, carving, conditioning, material-hint
/// and display-mapping entries then equal that reference's own; with no such
/// reference, the report claims no routes, carving, conditioning or hints.
pub proof fn lemma_report_copies_supplying_reference(
    config: PoolConfig,
    static_ref: Option<ReferenceFacts>,
    layer_ref: Option<ReferenceFacts>,
    preview_ref: Option<ReferenceFacts>,
)
    ensures
        ({
            let f = contract_facts_spec(config, static_ref, layer_ref, preview_ref);
            let supplier = if static_ref is Some {
                static_ref
            } else if active_kind_spec(config) == Some(ProducerKind::World) {
                preview_ref
            } else if active_kind_spec(config) == Some(ProducerKind::SingleBiome) {
                layer_ref
            } else {
                None
            };
            &&& supplier matches Some(r) ==> {
                &&& f.has_route_carving == r.has_route_carving
                &&& f.has_pass_network_routes == (r.pass_network_routes > 0)
                &&& f.has_page_stable_conditioning == r.has_conditioning
                &&& f.has_material_hints == r.has_material_hints
                &&& f.has_source_display_mapping == r.has_source_display_mapping
            }
            &&& supplier is None ==> {
                &&& !f.has_route_carving
                &&& !f.has_pass_network_routes
                &&& !f.has_page_stable_conditioning
                &&& !f.has_material_hints
            }
        }),
{
}

/// Without a static reference, the WORLD producer reports whether a preview
/// reference is bound and the single-biome producer whether a layer reference
/// is bound (and whether its height consumes that reference's facts); other
/// producers report neither. A bound reference supplying the height makes
/// the height non-procedural and reports its own source scope.
pub proof fn lemma_report_binding_entries(
    config: PoolConfig,
    static_ref: Option<ReferenceFacts>,
    layer_ref: Option<ReferenceFacts>,
    preview_ref: Option<ReferenceFacts>,
)
    requires
        static_ref is None,
    ensures
        ({
            let f = contract_facts_spec(config, static_ref, layer_ref, preview_ref);
            let kind = active_kind_spec(config);
            &&& f.has_world_preview_reference == if kind == Some(ProducerKind::World) {
                Some(preview_ref is Some)
            } else {
                None
            }
            &&& f.has_bound_world_layer_reference == if kind == Some(ProducerKind::SingleBiome) {
                Some(layer_ref is Some)
            } else {
                None
            }
            &&& f.height_consumes_world_layer_facts == f.has_bound_world_layer_reference
            &&& f.reports_reference_source_scope <==> ((kind == Some(ProducerKind::World)
                && preview_ref is Some) || (kind == Some(ProducerKind::SingleBiome) && layer_ref is Some))
            &&& f.procedural_world_layer_height == if f.reports_reference_source_scope {
                Some(false)
            } else {
                None
            }
            &&& f.explicit_live_candidate <==> kind == Some(ProducerKind::SingleBiome)
        }),
{
}

} // verus!
