//! Layout checks of a static reference runtime-tile payload, in the order the
//! loader makes them: the payload header (chunk count and size, field size
//! agreeing with them, non-blank scope and version, positive finite spans),
//! the first tile's header against the payload's, and then the tile's field
//! sample counts. Float verdicts are taken as booleans.

use vstd::prelude::*;
use crate::payload_layout::{blank_spec, hint_layer_ok, is_blank, layer_rank, HintFacts, HintLayer};
use crate::static_stitch::grid_n_spec;

verus! {

/// What the checks read of the first tile's header. `span_matches` tells
/// whether its field span is within `0.01` of the payload's world span,
/// `height_scale_matches` whether its height scale is within `1e-6` of the
/// payload's.
pub struct TileHeader {
    pub source_scope: String,
    pub generator_version: String,
    pub chunk_count: usize,
    pub chunk_n: usize,
    pub field_n: usize,
    pub span_matches: bool,
    pub height_scale_matches: bool,
}

/// What the checks read of the tile's fields. `heights_finite` tells whether
/// every height sample is finite.
#[derive(Clone, Copy, Debug, PartialEq, Eq, Structural)]
pub struct TileFieldFacts {
    pub height_len: usize,
    pub heights_finite: bool,
    pub corridor_len: Option<usize>,
    pub low_pass: Option<HintFacts>,
    pub floor: Option<HintFacts>,
    pub rock: Option<HintFacts>,
    pub snow: Option<HintFacts>,
}

/// Why a runtime-tile payload was refused.
#[derive(Clone, Copy, Debug, PartialEq, Eq, Structural)]
pub enum TileLayoutError {
    ZeroChunkCount,
    ChunkNTooSmall,
    FieldNTooSmall,
    FieldNOverflow,
    FieldN { found: usize, expected: usize },
    BlankSourceScope,
    BlankGeneratorVersion,
    WorldSpan,
    HeightScale,
    NoTiles,
    BlankTileSourceScope,
    BlankTileGeneratorVersion,
    TileChunkCount { found: usize, expected: usize },
    TileChunkN { found: usize, expected: usize },
    TileFieldN { found: usize, expected: usize },
    TileSpan,
    TileHeightScale,
    GridLenOverflow,
    HeightLen { found: usize, expected: usize },
    HeightValues,
    CorridorLen { found: usize, expected: usize },
    PartialHints,
    MissingHint { layer: HintLayer },
    HintLen { layer: HintLayer, found: usize, expected: usize },
    HintValues { layer: HintLayer },
}

/// The tile's fields: the field's sample count and whether a corridor mask
/// and material hints come with it.
#[derive(Clone, Copy, Debug, PartialEq, Eq, Structural)]
pub struct TileFields {
    pub grid_len: usize,
    pub has_corridor: bool,
    pub has_hints: bool,
}

/// The header checks, first failure first. `world_span_ok` and
/// `height_scale_ok` tell whether the payload's world span and height scale
/// are finite and positive; `tile` is the first tile, if any.
pub open spec fn tile_header_spec(
    chunk_count: usize,
    chunk_n: usize,
    field_n: usize,
    source_scope: Seq<char>,
    generator_version: Seq<char>,
    world_span_ok: bool,
    height_scale_ok: bool,
    tile: Option<(Seq<char>, Seq<char>, usize, usize, usize, bool, bool)>,
) -> Result<(), TileLayoutError> {
    let g = grid_n_spec(chunk_count as nat, chunk_n as nat);
    if chunk_count == 0 {
        Err(TileLayoutError::ZeroChunkCount)
    } else if chunk_n < 2 {
        Err(TileLayoutError::ChunkNTooSmall)
    } else if field_n < 2 {
        Err(TileLayoutError::FieldNTooSmall)
    } else if g > usize::MAX {
        Err(TileLayoutError::FieldNOverflow)
    } else if field_n != g {
        Err(TileLayoutError::FieldN { found: field_n, expected: g as usize })
    } else if blank_spec(source_scope) {
        Err(TileLayoutError::BlankSourceScope)
    } else if blank_spec(generator_version) {
        Err(TileLayoutError::BlankGeneratorVersion)
    } else if !world_span_ok {
        Err(TileLayoutError::WorldSpan)
    } else if !height_scale_ok {
        Err(TileLayoutError::HeightScale)
    } else {
        match tile {
            None => Err(TileLayoutError::NoTiles),
            Some((scope, version, count, n, fnn, span, scale)) => if blank_spec(scope) {
                Err(TileLayoutError::BlankTileSourceScope)
            } else if blank_spec(version) {
                Err(TileLayoutError::BlankTileGeneratorVersion)
            } else if count != chunk_count {
                Err(TileLayoutError::TileChunkCount { found: count, expected: chunk_count })
            } else if n != chunk_n {
                Err(TileLayoutError::TileChunkN { found: n, expected: chunk_n })
            } else if fnn != field_n {
                Err(TileLayoutError::TileFieldN { found: fnn, expected: field_n })
            } else if !span {
                Err(TileLayoutError::TileSpan)
            } else if !scale {
                Err(TileLayoutError::TileHeightScale)
            } else {
                Ok(())
            },
        }
    }
}

/// A runtime-tile header is accepted exactly when: at least one chunk per side
/// and two samples per chunk side, a field of `chunk_count (chunk_n - 1) + 1`
/// samples a side (at least two, and a side that fits), non-blank scope and
/// version, a finite positive world span and height scale, and a first tile
/// with non-blank scope and version whose chunk count, chunk size and field
/// size equal the payload's and whose span and height scale match.
pub proof fn lemma_tile_header_accepted_iff_well_formed(
    chunk_count: usize,
    chunk_n: usize,
    field_n: usize,
    source_scope: Seq<char>,
    generator_version: Seq<char>,
    world_span_ok: bool,
    height_scale_ok: bool,
    tile: Option<(Seq<char>, Seq<char>, usize, usize, usize, bool, bool)>,
)
    ensures
        tile_header_spec(
            chunk_count,
            chunk_n,
            field_n,
            source_scope,
            generator_version,
            world_span_ok,
            height_scale_ok,
            tile,
        ) is Ok <==> {
            &&& chunk_count >= 1
            &&& chunk_n >= 2
            &&& field_n >= 2
            &&& field_n == chunk_count * (chunk_n - 1) + 1
            &&& !blank_spec(source_scope)
            &&& !blank_spec(generator_version)
            &&& world_span_ok
            &&& height_scale_ok
            &&& tile is Some
            &&& !blank_spec((tile->0).0)
            &&& !blank_spec((tile->0).1)
            &&& (tile->0).2 == chunk_count
            &&& (tile->0).3 == chunk_n
            &&& (tile->0).4 == field_n
            &&& (tile->0).5
            &&& (tile->0).6
        },
{
}

/// The fields of a tile header the checks read.
pub open spec fn tile_header_view(t: TileHeader) -> (Seq<char>, Seq<char>, usize, usize, usize, bool, bool) {
    (
        t.source_scope@,
        t.generator_version@,
        t.chunk_count,
        t.chunk_n,
        t.field_n,
        t.span_matches,
        t.height_scale_matches,
    )
}

/// `check_runtime_tile_header`'s checks, first failure first.
pub fn check_runtime_tile_header(
    chunk_count: usize,
    chunk_n: usize,
    field_n: usize,
    source_scope: &str,
    generator_version: &str,
    world_span_ok: bool,
    height_scale_ok: bool,
    tile: Option<&TileHeader>,
) -> (r: Result<(), TileLayoutError>)
    ensures
        r == tile_header_spec(
            chunk_count,
            chunk_n,
            field_n,
            source_scope@,
            generator_version@,
            world_span_ok,
            height_scale_ok,
            match tile {
                Some(t) => Some(tile_header_view(*t)),
                None => None,
            },
        ),
{
    if chunk_count == 0 {
        return Err(TileLayoutError::ZeroChunkCount);
    }
    if chunk_n < 2 {
        return Err(TileLayoutError::ChunkNTooSmall);
    }
    if field_n < 2 {
        return Err(TileLayoutError::FieldNTooSmall);
    }
    let expected = match chunk_count.checked_mul(chunk_n - 1) {
        Some(v) => match v.checked_add(1) {
            Some(g) => g,
            None => return Err(TileLayoutError::FieldNOverflow),
        },
        None => {
            proof {
                assert(chunk_count * (chunk_n - 1) + 1 > usize::MAX) by (nonlinear_arith)
                    requires
                        chunk_count * (chunk_n - 1) > usize::MAX,
                ;
            }
            return Err(TileLayoutError::FieldNOverflow);
        },
    };
    if field_n != expected {
        return Err(TileLayoutError::FieldN { found: field_n, expected });
    }
    if is_blank(source_scope) {
        return Err(TileLayoutError::BlankSourceScope);
    }
    if is_blank(generator_version) {
        return Err(TileLayoutError::BlankGeneratorVersion);
    }
    if !world_span_ok {
        return Err(TileLayoutError::WorldSpan);
    }
    if !height_scale_ok {
        return Err(TileLayoutError::HeightScale);
    }
    let t = match tile {
        Some(t) => t,
        None => return Err(TileLayoutError::NoTiles),
    };
    if is_blank(t.source_scope.as_str()) {
        return Err(TileLayoutError::BlankTileSourceScope);
    }
    if is_blank(t.generator_version.as_str()) {
        return Err(TileLayoutError::BlankTileGeneratorVersion);
    }
    if t.chunk_count != chunk_count {
        return Err(TileLayoutError::TileChunkCount { found: t.chunk_count, expected: chunk_count });
    }
    if t.chunk_n != chunk_n {
        return Err(TileLayoutError::TileChunkN { found: t.chunk_n, expected: chunk_n });
    }
    if t.field_n != field_n {
        return Err(TileLayoutError::TileFieldN { found: t.field_n, expected: field_n });
    }
    if !t.span_matches {
        return Err(TileLayoutError::TileSpan);
    }
    if !t.height_scale_matches {
        return Err(TileLayoutError::TileHeightScale);
    }
    Ok(())
}

/// The checks of one hint layer against `expected` samples.
pub open spec fn tile_hint_error_spec(h: Option<HintFacts>, layer: HintLayer, expected: usize) -> Option<
    TileLayoutError,
> {
    match h {
        None => Some(TileLayoutError::MissingHint { layer }),
        Some(f) => if f.len != expected {
            Some(TileLayoutError::HintLen { layer, found: f.len, expected })
        } else if !f.values_in_unit_range {
            Some(TileLayoutError::HintValues { layer })
        } else {
            None
        },
    }
}

/// The four hint layers, in order, first failure first.
pub open spec fn tile_hints_error_spec(f: TileFieldFacts, expected: usize) -> Option<TileLayoutError> {
    if tile_hint_error_spec(f.low_pass, HintLayer::LowPass, expected) is Some {
        tile_hint_error_spec(f.low_pass, HintLayer::LowPass, expected)
    } else if tile_hint_error_spec(f.floor, HintLayer::Floor, expected) is Some {
        tile_hint_error_spec(f.floor, HintLayer::Floor, expected)
    } else if tile_hint_error_spec(f.rock, HintLayer::Rock, expected) is Some {
        tile_hint_error_spec(f.rock, HintLayer::Rock, expected)
    } else {
        tile_hint_error_spec(f.snow, HintLayer::Snow, expected)
    }
}

pub open spec fn tile_all_hints(f: TileFieldFacts) -> bool {
    f.low_pass is Some && f.floor is Some && f.rock is Some && f.snow is Some
}

pub open spec fn tile_any_hint(f: TileFieldFacts) -> bool {
    f.low_pass is Some || f.floor is Some || f.rock is Some || f.snow is Some
}

/// The field checks of a tile with an accepted `field_n x field_n` header,
/// first failure first.
pub open spec fn tile_fields_spec(field_n: usize, f: TileFieldFacts) -> Result<TileFields, TileLayoutError> {
    let len = field_n * field_n;
    if len > usize::MAX {
        Err(TileLayoutError::GridLenOverflow)
    } else if f.height_len != len {
        Err(TileLayoutError::HeightLen { found: f.height_len, expected: len as usize })
    } else if !f.heights_finite {
        Err(TileLayoutError::HeightValues)
    } else if f.corridor_len is Some && f.corridor_len->0 != len {
        Err(TileLayoutError::CorridorLen { found: f.corridor_len->0, expected: len as usize })
    } else if tile_any_hint(f) && !tile_all_hints(f) {
        Err(TileLayoutError::PartialHints)
    } else if tile_all_hints(f) && tile_hints_error_spec(f, len as usize) is Some {
        Err(tile_hints_error_spec(f, len as usize)->0)
    } else {
        Ok(
            TileFields {
                grid_len: len as usize,
                has_corridor: f.corridor_len is Some,
                has_hints: tile_all_hints(f),
            },
        )
    }
}

/// A tile's fields the loader accepts, condition by condition: a
/// `field_n x field_n` sample count that fits, that many finite heights, a
/// corridor mask (if any) of as many samples, and material hints either absent
/// or all four present with that many samples, each in `[0, 1]`.
pub open spec fn tile_fields_well_formed(field_n: usize, f: TileFieldFacts) -> bool {
    let len = field_n * field_n;
    &&& len <= usize::MAX
    &&& f.height_len == len
    &&& f.heights_finite
    &&& (f.corridor_len is Some ==> f.corridor_len->0 == len)
    &&& (tile_any_hint(f) ==> {
        &&& hint_layer_ok(f.low_pass, len)
        &&& hint_layer_ok(f.floor, len)
        &&& hint_layer_ok(f.rock, len)
        &&& hint_layer_ok(f.snow, len)
    })
}

/// A tile's fields are accepted exactly when they are well formed; the
/// accepted layout counts `field_n * field_n` samples, has a corridor exactly
/// when a mask came with the tile, and has hints exactly when all four layers
/// came, each then holding `field_n * field_n` samples in `[0, 1]`.
pub proof fn lemma_tile_fields_accepted_iff_well_formed(field_n: usize, f: TileFieldFacts)
    ensures
        tile_fields_spec(field_n, f) is Ok <==> tile_fields_well_formed(field_n, f),
        tile_fields_spec(field_n, f) is Ok ==> tile_fields_spec(field_n, f)->Ok_0 == (TileFields {
            grid_len: (field_n * field_n) as usize,
            has_corridor: f.corridor_len is Some,
            has_hints: f.low_pass is Some && f.floor is Some && f.rock is Some && f.snow is Some,
        }),
        tile_fields_spec(field_n, f) is Ok && tile_fields_spec(field_n, f)->Ok_0.has_hints ==> {
            &&& f.low_pass->0.len == field_n * field_n && f.low_pass->0.values_in_unit_range
            &&& f.floor->0.len == field_n * field_n && f.floor->0.values_in_unit_range
            &&& f.rock->0.len == field_n * field_n && f.rock->0.values_in_unit_range
            &&& f.snow->0.len == field_n * field_n && f.snow->0.values_in_unit_range
        },
{
}

/// A tile's hint layer by name.
pub open spec fn tile_hint(f: TileFieldFacts, layer: HintLayer) -> Option<HintFacts> {
    match layer {
        HintLayer::LowPass => f.low_pass,
        HintLayer::Floor => f.floor,
        HintLayer::Rock => f.rock,
        HintLayer::Snow => f.snow,
    }
}

/// Every refusal of a tile's fields names a real defect: reported counts are
/// the tile's own against `field_n * field_n`, and a hint refusal names a
/// layer that is short or out of range while all four layers are present and
/// every layer checked before it is complete.
pub proof fn lemma_tile_refusal_names_its_defect(field_n: usize, f: TileFieldFacts)
    ensures
        ({
            let len = field_n * field_n;
            match tile_fields_spec(field_n, f) {
                Ok(_) => true,
                Err(TileLayoutError::GridLenOverflow) => len > usize::MAX,
                Err(TileLayoutError::HeightLen { found, expected }) => found == f.height_len
                    && expected == len && found != expected,
                Err(TileLayoutError::HeightValues) => f.height_len == len && !f.heights_finite,
                Err(TileLayoutError::CorridorLen { found, expected }) => f.heights_finite
                    && f.corridor_len == Some(found) && expected == len && found != expected,
                Err(TileLayoutError::PartialHints) => tile_any_hint(f) && !tile_all_hints(f),
                Err(TileLayoutError::HintLen { layer, found, expected }) => tile_all_hints(f)
                    && tile_hint(f, layer)->0.len == found && expected == len && found != expected && (
                forall|l: HintLayer|
                    layer_rank(l) < layer_rank(layer) ==> hint_layer_ok(#[trigger] tile_hint(f, l), len)),
                Err(TileLayoutError::HintValues { layer }) => tile_all_hints(f) && tile_hint(
                    f,
                    layer,
                )->0.len == len && !tile_hint(f, layer)->0.values_in_unit_range && (forall|
                    l: HintLayer,
                | layer_rank(l) < layer_rank(layer) ==> hint_layer_ok(#[trigger] tile_hint(f, l), len)),
                Err(_) => false,
            }
        }),
{
}

fn check_tile_hint(h: Option<HintFacts>, layer: HintLayer, expected: usize) -> (r: Option<
    TileLayoutError,
>)
    ensures
        r == tile_hint_error_spec(h, layer, expected),
{
    match h {
        None => Some(TileLayoutError::MissingHint { layer }),
        Some(f) => {
            if f.len != expected {
                Some(TileLayoutError::HintLen { layer, found: f.len, expected })
            } else if !f.values_in_unit_range {
                Some(TileLayoutError::HintValues { layer })
            } else {
                None
            }
        },
    }
}

/// The field checks of the first tile, made after its header and display
/// mapping were accepted.
pub fn check_runtime_tile_fields(field_n: usize, f: &TileFieldFacts) -> (r: Result<
    TileFields,
    TileLayoutError,
>)
    ensures
        r == tile_fields_spec(field_n, *f),
        r is Ok <==> tile_fields_well_formed(field_n, *f),
{
    proof {
        lemma_tile_fields_accepted_iff_well_formed(field_n, *f);
    }
    let len = match field_n.checked_mul(field_n) {
        Some(v) => v,
        None => return Err(TileLayoutError::GridLenOverflow),
    };
    if f.height_len != len {
        return Err(TileLayoutError::HeightLen { found: f.height_len, expected: len });
    }
    if !f.heights_finite {
        return Err(TileLayoutError::HeightValues);
    }
    if let Some(c) = f.corridor_len {
        if c != len {
            return Err(TileLayoutError::CorridorLen { found: c, expected: len });
        }
    }
    let all = f.low_pass.is_some() && f.floor.is_some() && f.rock.is_some() && f.snow.is_some();
    let any = f.low_pass.is_some() || f.floor.is_some() || f.rock.is_some() || f.snow.is_some();
    if any && !all {
        return Err(TileLayoutError::PartialHints);
    }
    if all {
        if let Some(e) = check_tile_hint(f.low_pass, HintLayer::LowPass, len) {
            return Err(e);
        }
        if let Some(e) = check_tile_hint(f.floor, HintLayer::Floor, len) {
            return Err(e);
        }
        if let Some(e) = check_tile_hint(f.rock, HintLayer::Rock, len) {
            return Err(e);
        }
        if let Some(e) = check_tile_hint(f.snow, HintLayer::Snow, len) {
            return Err(e);
        }
    }
    Ok(TileFields { grid_len: len, has_corridor: f.corridor_len.is_some(), has_hints: all })
}

/// An accepted tile's field is the stitched grid of its chunks: its side is
/// `chunk_count (chunk_n - 1) + 1`, and every field layer holds one sample per
/// cell of that grid.
pub proof fn lemma_accepted_tile_is_stitched_grid(
    chunk_count: usize,
    chunk_n: usize,
    field_n: usize,
    source_scope: Seq<char>,
    generator_version: Seq<char>,
    world_span_ok: bool,
    height_scale_ok: bool,
    tile: Option<(Seq<char>, Seq<char>, usize, usize, usize, bool, bool)>,
    f: TileFieldFacts,
)
    requires
        tile_header_spec(
            chunk_count,
            chunk_n,
            field_n,
            source_scope,
            generator_version,
            world_span_ok,
            height_scale_ok,
            tile,
        ) is Ok,
        tile_fields_spec(field_n, f) is Ok,
    ensures
        field_n == grid_n_spec(chunk_count as nat, chunk_n as nat),
        f.height_len == field_n * field_n,
        tile_fields_spec(field_n, f)->Ok_0.grid_len == field_n * field_n,
        f.corridor_len is Some ==> f.corridor_len->0 == field_n * field_n,
        tile_fields_spec(field_n, f)->Ok_0.has_hints ==> f.low_pass->0.len == field_n * field_n
            && f.snow->0.len == field_n * field_n,
        tile is Some && (tile->0).4 == field_n,
{
}

} // verus!
