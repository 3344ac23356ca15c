//! Layout checks of a static reference payload, in the order the loader makes
//! them: the header (chunk count and size, non-blank scope and version, a
//! seed, the chunk total, the stitched grid size, corridor masks and material
//! hints present on all chunks or none), then each chunk in turn before it is
//! stitched (size, sample counts, hint layers, span, index).

use vstd::prelude::*;
use vstd::string::StrSliceExecFns;
use crate::static_stitch::{grid_n_spec, stitched_grid_dims, GridDimError};

verus! {

/// A character with the Unicode `White_Space` property (what `char::is_whitespace`
/// tests, and so what `str::trim` strips).
pub open spec fn white_space_spec(c: char) -> bool {
    let u = c as u32;
    ||| 0x09 <= u <= 0x0d
    ||| u == 0x20
    ||| u == 0x85
    ||| u == 0xa0
    ||| u == 0x1680
    ||| 0x2000 <= u <= 0x200a
    ||| u == 0x2028
    ||| u == 0x2029
    ||| u == 0x202f
    ||| u == 0x205f
    ||| u == 0x3000
}

/// The text is empty once trimmed: every character is white space.
pub open spec fn blank_spec(s: Seq<char>) -> bool {
    forall|i: int| 0 <= i < s.len() ==> white_space_spec(#[trigger] s[i])
}

fn is_white_space(c: char) -> (b: bool)
    ensures
        b == white_space_spec(c),
{
    let u = c as u32;
    (0x09 <= u && u <= 0x0d) || u == 0x20 || u == 0x85 || u == 0xa0 || u == 0x1680 || (0x2000 <= u
        && u <= 0x200a) || u == 0x2028 || u == 0x2029 || u == 0x202f || u == 0x205f || u == 0x3000
}

/// `s.trim().is_empty()`.
pub fn is_blank(s: &str) -> (b: bool)
    ensures
        b == blank_spec(s@),
{
    let n = s.unicode_len();
    let mut i: usize = 0;
    while i < n
        invariant
            n == s@.len(),
            i <= n,
            forall|j: int| 0 <= j < i ==> white_space_spec(#[trigger] s@[j]),
        decreases n - i,
    {
        let c = s.get_char(i);
        if !is_white_space(c) {
            return false;
        }
        i = i + 1;
    }
    true
}

/// One of the four material hint layers, in the order they are checked.
#[derive(Clone, Copy, Debug, PartialEq, Eq, Structural)]
pub enum HintLayer {
    LowPass,
    Floor,
    Rock,
    Snow,
}

/// What the checks read of a present hint layer: its sample count and whether
/// every sample is finite and within `[0, 1]`.
#[derive(Clone, Copy, Debug, PartialEq, Eq, Structural)]
pub struct HintFacts {
    pub len: usize,
    pub values_in_unit_range: bool,
}

/// What the checks read of one chunk. `span_matches` tells whether the chunk's
/// span is within `1e-6` of the payload's chunk span.
#[derive(Clone, Copy, Debug, PartialEq, Eq, Structural)]
pub struct ChunkLayout {
    pub chunk_x: usize,
    pub chunk_z: usize,
    pub n: usize,
    pub height_len: usize,
    pub corridor_len: Option<usize>,
    pub low_pass: Option<HintFacts>,
    pub floor: Option<HintFacts>,
    pub rock: Option<HintFacts>,
    pub snow: Option<HintFacts>,
    pub span_matches: bool,
}

/// Why a payload layout was refused.
#[derive(Clone, Copy, Debug, PartialEq, Eq, Structural)]
pub enum LayoutError {
    ZeroChunkCount,
    ChunkNTooSmall,
    BlankSourceScope,
    BlankGeneratorVersion,
    NoSeeds,
    ChunkCountOverflow,
    ChunkTotal { found: usize, expected: usize },
    GridNOverflow,
    GridLenOverflow,
    PartialCorridor,
    PartialHints,
    ChunkSize { chunk_x: usize, chunk_z: usize, n: usize, expected: usize },
    HeightLenOverflow,
    HeightLen { chunk_x: usize, chunk_z: usize, found: usize, expected: usize },
    CorridorLen { chunk_x: usize, chunk_z: usize, found: usize, expected: usize },
    MissingHint { chunk_x: usize, chunk_z: usize, layer: HintLayer },
    HintLen { chunk_x: usize, chunk_z: usize, layer: HintLayer, found: usize, expected: usize },
    HintValues { chunk_x: usize, chunk_z: usize, layer: HintLayer },
    ChunkSpan { chunk_x: usize, chunk_z: usize },
    ChunkIndex { chunk_x: usize, chunk_z: usize },
}

/// An accepted header: the stitched grid's side and sample count, and whether
/// corridor masks and material hints are stitched.
#[derive(Clone, Copy, Debug, PartialEq, Eq, Structural)]
pub struct StitchLayout {
    pub grid_n: usize,
    pub grid_len: usize,
    pub has_corridor: bool,
    pub has_hints: bool,
}

pub open spec fn chunk_has_all_hints(c: ChunkLayout) -> bool {
    c.low_pass is Some && c.floor is Some && c.rock is Some && c.snow is Some
}

pub open spec fn chunk_has_any_hint(c: ChunkLayout) -> bool {
    c.low_pass is Some || c.floor is Some || c.rock is Some || c.snow is Some
}

pub open spec fn any_corridor_spec(chunks: Seq<ChunkLayout>) -> bool {
    exists|i: int| 0 <= i < chunks.len() && (#[trigger] chunks[i]).corridor_len is Some
}

pub open spec fn all_corridor_spec(chunks: Seq<ChunkLayout>) -> bool {
    forall|i: int| 0 <= i < chunks.len() ==> (#[trigger] chunks[i]).corridor_len is Some
}

pub open spec fn any_hints_spec(chunks: Seq<ChunkLayout>) -> bool {
    exists|i: int| 0 <= i < chunks.len() && chunk_has_any_hint(#[trigger] chunks[i])
}

pub open spec fn all_hints_spec(chunks: Seq<ChunkLayout>) -> bool {
    forall|i: int| 0 <= i < chunks.len() ==> chunk_has_all_hints(#[trigger] chunks[i])
}

/// The header checks, first failure first. `chunks` are the first seed's
/// chunks (empty when there is no seed).
pub open spec fn header_layout_spec(
    chunk_count: usize,
    chunk_n: usize,
    source_scope: Seq<char>,
    generator_version: Seq<char>,
    seed_count: usize,
    chunks: Seq<ChunkLayout>,
) -> Result<StitchLayout, LayoutError> {
    let g = grid_n_spec(chunk_count as nat, chunk_n as nat);
    if chunk_count == 0 {
        Err(LayoutError::ZeroChunkCount)
    } else if chunk_n < 2 {
        Err(LayoutError::ChunkNTooSmall)
    } else if blank_spec(source_scope) {
        Err(LayoutError::BlankSourceScope)
    } else if blank_spec(generator_version) {
        Err(LayoutError::BlankGeneratorVersion)
    } else if seed_count == 0 {
        Err(LayoutError::NoSeeds)
    } else if chunk_count * chunk_count > usize::MAX {
        Err(LayoutError::ChunkCountOverflow)
    } else if chunks.len() != chunk_count * chunk_count {
        Err(
            LayoutError::ChunkTotal {
                found: chunks.len() as usize,
                expected: (chunk_count * chunk_count) as usize,
            },
        )
    } else if g > usize::MAX {
        Err(LayoutError::GridNOverflow)
    } else if g * g > usize::MAX {
        Err(LayoutError::GridLenOverflow)
    } else if any_corridor_spec(chunks) && !all_corridor_spec(chunks) {
        Err(LayoutError::PartialCorridor)
    } else if any_hints_spec(chunks) && !all_hints_spec(chunks) {
        Err(LayoutError::PartialHints)
    } else {
        Ok(
            StitchLayout {
                grid_n: g as usize,
                grid_len: (g * g) as usize,
                has_corridor: all_corridor_spec(chunks),
                has_hints: all_hints_spec(chunks),
            },
        )
    }
}

/// The checks of one hint layer of chunk `(cx, cz)` against `expected` samples.
pub open spec fn hint_error_spec(
    h: Option<HintFacts>,
    layer: HintLayer,
    expected: usize,
    cx: usize,
    cz: usize,
) -> Option<LayoutError> {
    match h {
        None => Some(LayoutError::MissingHint { chunk_x: cx, chunk_z: cz, layer }),
        Some(f) => if f.len != expected {
            Some(
                LayoutError::HintLen { chunk_x: cx, chunk_z: cz, layer, found: f.len, expected },
            )
        } else if !f.values_in_unit_range {
            Some(LayoutError::HintValues { chunk_x: cx, chunk_z: cz, layer })
        } else {
            None
        },
    }
}

/// The four hint layers, in order, first failure first.
pub open spec fn hints_error_spec(c: ChunkLayout, expected: usize) -> Option<LayoutError> {
    if hint_error_spec(c.low_pass, HintLayer::LowPass, expected, c.chunk_x, c.chunk_z) is Some {
        hint_error_spec(c.low_pass, HintLayer::LowPass, expected, c.chunk_x, c.chunk_z)
    } else if hint_error_spec(c.floor, HintLayer::Floor, expected, c.chunk_x, c.chunk_z) is Some {
        hint_error_spec(c.floor, HintLayer::Floor, expected, c.chunk_x, c.chunk_z)
    } else if hint_error_spec(c.rock, HintLayer::Rock, expected, c.chunk_x, c.chunk_z) is Some {
        hint_error_spec(c.rock, HintLayer::Rock, expected, c.chunk_x, c.chunk_z)
    } else {
        hint_error_spec(c.snow, HintLayer::Snow, expected, c.chunk_x, c.chunk_z)
    }
}

/// The checks of one chunk before it is stitched, first failure first; on
/// success the number of samples each of its layers holds.
pub open spec fn chunk_layout_spec(
    chunk_count: usize,
    chunk_n: usize,
    all_hints: bool,
    c: ChunkLayout,
) -> Result<usize, LayoutError> {
    let e = chunk_n * chunk_n;
    if c.n != chunk_n {
        Err(
            LayoutError::ChunkSize { chunk_x: c.chunk_x, chunk_z: c.chunk_z, n: c.n, expected: chunk_n },
        )
    } else if e > usize::MAX {
        Err(LayoutError::HeightLenOverflow)
    } else if c.height_len != e {
        Err(
            LayoutError::HeightLen {
                chunk_x: c.chunk_x,
                chunk_z: c.chunk_z,
                found: c.height_len,
                expected: e as usize,
            },
        )
    } else if c.corridor_len is Some && c.corridor_len->0 != e {
        Err(
            LayoutError::CorridorLen {
                chunk_x: c.chunk_x,
                chunk_z: c.chunk_z,
                found: c.corridor_len->0,
                expected: e as usize,
            },
        )
    } else if all_hints && hints_error_spec(c, e as usize) is Some {
        Err(hints_error_spec(c, e as usize)->0)
    } else if !c.span_matches {
        Err(LayoutError::ChunkSpan { chunk_x: c.chunk_x, chunk_z: c.chunk_z })
    } else if c.chunk_x >= chunk_count || c.chunk_z >= chunk_count {
        Err(LayoutError::ChunkIndex { chunk_x: c.chunk_x, chunk_z: c.chunk_z })
    } else {
        Ok(e as usize)
    }
}

fn chunk_all_hints(c: &ChunkLayout) -> (b: bool)
    ensures
        b == chunk_has_all_hints(*c),
{
    c.low_pass.is_some() && c.floor.is_some() && c.rock.is_some() && c.snow.is_some()
}

fn chunk_any_hint(c: &ChunkLayout) -> (b: bool)
    ensures
        b == chunk_has_any_hint(*c),
{
    c.low_pass.is_some() || c.floor.is_some() || c.rock.is_some() || c.snow.is_some()
}

/// Whether any chunk, and whether every chunk, has a corridor mask and a
/// complete set of hint layers.
fn presence(chunks: &Vec<ChunkLayout>) -> (r: (bool, bool, bool, bool))
    ensures
        r.0 == any_corridor_spec(chunks@),
        r.1 == all_corridor_spec(chunks@),
        r.2 == any_hints_spec(chunks@),
        r.3 == all_hints_spec(chunks@),
{
    let mut any_c = false;
    let mut all_c = true;
    let mut any_h = false;
    let mut all_h = true;
    let mut i: usize = 0;
    while i < chunks.len()
        invariant
            i <= chunks@.len(),
            any_c == exists|j: int| 0 <= j < i && (#[trigger] chunks@[j]).corridor_len is Some,
            all_c == forall|j: int| 0 <= j < i ==> (#[trigger] chunks@[j]).corridor_len is Some,
            any_h == exists|j: int| 0 <= j < i && chunk_has_any_hint(#[trigger] chunks@[j]),
            all_h == forall|j: int| 0 <= j < i ==> chunk_has_all_hints(#[trigger] chunks@[j]),
        decreases chunks@.len() - i,
    {
        let c = &chunks[i];
        let has_c = c.corridor_len.is_some();
        let any_hint = chunk_any_hint(c);
        let all_hint = chunk_all_hints(c);
        proof {
            assert(chunks@[i as int] == *c);
        }
        any_c = any_c || has_c;
        all_c = all_c && has_c;
        any_h = any_h || any_hint;
        all_h = all_h && all_hint;
        i = i + 1;
    }
    (any_c, all_c, any_h, all_h)
}

/// The header checks of a payload (`from_payload` up to the chunk loop):
/// `chunks` are the first seed's chunks, `seed_count` the number of seeds.
pub fn check_payload_header(
    chunk_count: usize,
    chunk_n: usize,
    source_scope: &str,
    generator_version: &str,
    seed_count: usize,
    chunks: &Vec<ChunkLayout>,
) -> (r: Result<StitchLayout, LayoutError>)
    ensures
        r == header_layout_spec(
            chunk_count,
            chunk_n,
            source_scope@,
            generator_version@,
            seed_count,
            chunks@,
        ),
{
    if chunk_count == 0 {
        return Err(LayoutError::ZeroChunkCount);
    }
    if chunk_n < 2 {
        return Err(LayoutError::ChunkNTooSmall);
    }
    if is_blank(source_scope) {
        return Err(LayoutError::BlankSourceScope);
    }
    if is_blank(generator_version) {
        return Err(LayoutError::BlankGeneratorVersion);
    }
    if seed_count == 0 {
        return Err(LayoutError::NoSeeds);
    }
    let expected_chunks = match chunk_count.checked_mul(chunk_count) {
        Some(v) => v,
        None => return Err(LayoutError::ChunkCountOverflow),
    };
    if chunks.len() != expected_chunks {
        return Err(LayoutError::ChunkTotal { found: chunks.len(), expected: expected_chunks });
    }
    let (grid_n, grid_len) = match stitched_grid_dims(chunk_count, chunk_n) {
        Ok(d) => d,
        Err(GridDimError::GridN) => return Err(LayoutError::GridNOverflow),
        Err(GridDimError::GridLen) => return Err(LayoutError::GridLenOverflow),
    };
    let (any_c, all_c, any_h, all_h) = presence(chunks);
    if any_c && !all_c {
        return Err(LayoutError::PartialCorridor);
    }
    if any_h && !all_h {
        return Err(LayoutError::PartialHints);
    }
    Ok(StitchLayout { grid_n, grid_len, has_corridor: all_c, has_hints: all_h })
}

fn check_hint(h: Option<HintFacts>, layer: HintLayer, expected: usize, cx: usize, cz: usize) -> (r:
    Option<LayoutError>)
    ensures
        r == hint_error_spec(h, layer, expected, cx, cz),
{
    match h {
        None => Some(LayoutError::MissingHint { chunk_x: cx, chunk_z: cz, layer }),
        Some(f) => {
            if f.len != expected {
                Some(
                    LayoutError::HintLen {
                        chunk_x: cx,
                        chunk_z: cz,
                        layer,
                        found: f.len,
                        expected,
                    },
                )
            } else if !f.values_in_unit_range {
                Some(LayoutError::HintValues { chunk_x: cx, chunk_z: cz, layer })
            } else {
                None
            }
        },
    }
}

/// The checks of one chunk, made right before it is stitched: its size, its
/// height, corridor and (when the payload has hints) hint sample counts, its
/// span and its index. Returns the per-layer sample count `chunk_n * chunk_n`.
pub fn check_chunk_layout(chunk_count: usize, chunk_n: usize, all_hints: bool, c: &ChunkLayout) -> (r:
    Result<usize, LayoutError>)
    ensures
        r == chunk_layout_spec(chunk_count, chunk_n, all_hints, *c),
        r is Ok <==> chunk_well_formed(chunk_count, chunk_n, all_hints, *c),
        r is Ok ==> r->Ok_0 == chunk_n * chunk_n,
{
    proof {
        lemma_chunk_accepted_iff_well_formed(chunk_count, chunk_n, all_hints, *c);
    }
    if c.n != chunk_n {
        return Err(
            LayoutError::ChunkSize { chunk_x: c.chunk_x, chunk_z: c.chunk_z, n: c.n, expected: chunk_n },
        );
    }
    let e = match chunk_n.checked_mul(chunk_n) {
        Some(v) => v,
        None => return Err(LayoutError::HeightLenOverflow),
    };
    if c.height_len != e {
        return Err(
            LayoutError::HeightLen {
                chunk_x: c.chunk_x,
                chunk_z: c.chunk_z,
                found: c.height_len,
                expected: e,
            },
        );
    }
    if let Some(len) = c.corridor_len {
        if len != e {
            return Err(
                LayoutError::CorridorLen {
                    chunk_x: c.chunk_x,
                    chunk_z: c.chunk_z,
                    found: len,
                    expected: e,
                },
            );
        }
    }
    if all_hints {
        if let Some(err) = check_hint(c.low_pass, HintLayer::LowPass, e, c.chunk_x, c.chunk_z) {
            return Err(err);
        }
        if let Some(err) = check_hint(c.floor, HintLayer::Floor, e, c.chunk_x, c.chunk_z) {
            return Err(err);
        }
        if let Some(err) = check_hint(c.rock, HintLayer::Rock, e, c.chunk_x, c.chunk_z) {
            return Err(err);
        }
        if let Some(err) = check_hint(c.snow, HintLayer::Snow, e, c.chunk_x, c.chunk_z) {
            return Err(err);
        }
    }
    if !c.span_matches {
        return Err(LayoutError::ChunkSpan { chunk_x: c.chunk_x, chunk_z: c.chunk_z });
    }
    if c.chunk_x >= chunk_count || c.chunk_z >= chunk_count {
        return Err(LayoutError::ChunkIndex { chunk_x: c.chunk_x, chunk_z: c.chunk_z });
    }
    Ok(e)
}

/// An accepted header and an accepted chunk of it fit the stitched grid: the chunk's
/// last sample row and column land inside the grid, and every one of the
/// chunk's layers has one sample per chunk cell.
pub proof fn lemma_accepted_chunk_fits(
    chunk_count: usize,
    chunk_n: usize,
    source_scope: Seq<char>,
    generator_version: Seq<char>,
    seed_count: usize,
    chunks: Seq<ChunkLayout>,
    c: ChunkLayout,
)
    requires
        chunks.contains(c),
        header_layout_spec(chunk_count, chunk_n, source_scope, generator_version, seed_count, chunks) is Ok,
        chunk_layout_spec(
            chunk_count,
            chunk_n,
            header_layout_spec(chunk_count, chunk_n, source_scope, generator_version, seed_count, chunks)->Ok_0.has_hints,
            c,
        ) is Ok,
    ensures
        ({
            let l = header_layout_spec(chunk_count, chunk_n, source_scope, generator_version, seed_count, chunks)->Ok_0;
            &&& c.chunk_x * (chunk_n - 1) + (chunk_n - 1) < l.grid_n
            &&& c.chunk_z * (chunk_n - 1) + (chunk_n - 1) < l.grid_n
            &&& l.grid_len == l.grid_n * l.grid_n
            &&& c.height_len == chunk_n * chunk_n
            &&& l.has_corridor ==> c.corridor_len == Some((chunk_n * chunk_n) as usize)
        }),
{
    assert(c.chunk_x * (chunk_n - 1) + (chunk_n - 1) < chunk_count * (chunk_n - 1) + 1) by (nonlinear_arith)
        requires
            c.chunk_x < chunk_count,
            chunk_n >= 2,
    ;
    assert(c.chunk_z * (chunk_n - 1) + (chunk_n - 1) < chunk_count * (chunk_n - 1) + 1) by (nonlinear_arith)
        requires
            c.chunk_z < chunk_count,
            chunk_n >= 2,
    ;
}

/// A present hint layer with exactly `len` samples, all finite and in `[0, 1]`.
pub open spec fn hint_layer_ok(h: Option<HintFacts>, len: int) -> bool {
    h is Some && h->0.len == len && h->0.values_in_unit_range
}

/// A chunk the loader accepts, condition by condition: `chunk_n` samples a
/// side, `chunk_n * chunk_n` height samples (a count that fits), a corridor
/// mask (if any) of as many samples, every hint layer present and complete
/// when the payload has hints, a matching span and an index inside the chunk
/// grid.
pub open spec fn chunk_well_formed(chunk_count: usize, chunk_n: usize, all_hints: bool, c: ChunkLayout) -> bool {
    let e = chunk_n * chunk_n;
    &&& c.n == chunk_n
    &&& e <= usize::MAX
    &&& c.height_len == e
    &&& (c.corridor_len is Some ==> c.corridor_len->0 == e)
    &&& (all_hints ==> {
        &&& hint_layer_ok(c.low_pass, e)
        &&& hint_layer_ok(c.floor, e)
        &&& hint_layer_ok(c.rock, e)
        &&& hint_layer_ok(c.snow, e)
    })
    &&& c.span_matches
    &&& c.chunk_x < chunk_count
    &&& c.chunk_z < chunk_count
}

/// A chunk is accepted exactly when it is well formed, and then each of its
/// layers holds `chunk_n * chunk_n` samples: when the payload has hints, all
/// four hint layers (low pass, floor, rock, snow) are present with that many
/// samples, each in `[0, 1]`.
pub proof fn lemma_chunk_accepted_iff_well_formed(
    chunk_count: usize,
    chunk_n: usize,
    all_hints: bool,
    c: ChunkLayout,
)
    ensures
        chunk_layout_spec(chunk_count, chunk_n, all_hints, c) is Ok <==> chunk_well_formed(
            chunk_count,
            chunk_n,
            all_hints,
            c,
        ),
        chunk_layout_spec(chunk_count, chunk_n, all_hints, c) is Ok ==> chunk_layout_spec(
            chunk_count,
            chunk_n,
            all_hints,
            c,
        )->Ok_0 == chunk_n * chunk_n,
        chunk_layout_spec(chunk_count, chunk_n, true, c) is Ok ==> {
            &&& c.low_pass is Some && c.low_pass->0.len == chunk_n * chunk_n
                && c.low_pass->0.values_in_unit_range
            &&& c.floor is Some && c.floor->0.len == chunk_n * chunk_n && c.floor->0.values_in_unit_range
            &&& c.rock is Some && c.rock->0.len == chunk_n * chunk_n && c.rock->0.values_in_unit_range
            &&& c.snow is Some && c.snow->0.len == chunk_n * chunk_n && c.snow->0.values_in_unit_range
        },
{
}

/// A chunk's hint layer by name.
pub open spec fn chunk_hint(c: ChunkLayout, layer: HintLayer) -> Option<HintFacts> {
    match layer {
        HintLayer::LowPass => c.low_pass,
        HintLayer::Floor => c.floor,
        HintLayer::Rock => c.rock,
        HintLayer::Snow => c.snow,
    }
}

/// Position of a hint layer in checking order.
pub open spec fn layer_rank(layer: HintLayer) -> int {
    match layer {
        HintLayer::LowPass => 0,
        HintLayer::Floor => 1,
        HintLayer::Rock => 2,
        HintLayer::Snow => 3,
    }
}

/// Every refusal names a real defect of the chunk it names: the reported
/// sizes and counts are the chunk's own against `chunk_n` and
/// `chunk_n * chunk_n`, a hint refusal names a layer that is missing, short or
/// out of range while every layer checked before it is complete, and the
/// size checks come first.
pub proof fn lemma_chunk_refusal_names_its_defect(
    chunk_count: usize,
    chunk_n: usize,
    all_hints: bool,
    c: ChunkLayout,
)
    ensures
        ({
            let e = chunk_n * chunk_n;
            match chunk_layout_spec(chunk_count, chunk_n, all_hints, c) {
                Ok(_) => true,
                Err(LayoutError::ChunkSize { chunk_x, chunk_z, n, expected }) => chunk_x == c.chunk_x
                    && chunk_z == c.chunk_z && n == c.n && expected == chunk_n && n != expected,
                Err(LayoutError::HeightLenOverflow) => c.n == chunk_n && e > usize::MAX,
                Err(LayoutError::HeightLen { chunk_x, chunk_z, found, expected }) => chunk_x == c.chunk_x
                    && chunk_z == c.chunk_z && c.n == chunk_n && found == c.height_len && expected == e
                    && found != expected,
                Err(LayoutError::CorridorLen { chunk_x, chunk_z, found, expected }) => chunk_x
                    == c.chunk_x && chunk_z == c.chunk_z && c.height_len == e && c.corridor_len == Some(
                    found,
                ) && expected == e && found != expected,
                Err(LayoutError::MissingHint { chunk_x, chunk_z, layer }) => chunk_x == c.chunk_x
                    && chunk_z == c.chunk_z && all_hints && chunk_hint(c, layer) is None && (forall|
                    l: HintLayer,
                | layer_rank(l) < layer_rank(layer) ==> hint_layer_ok(#[trigger] chunk_hint(c, l), e)),
                Err(LayoutError::HintLen { chunk_x, chunk_z, layer, found, expected }) => chunk_x
                    == c.chunk_x && chunk_z == c.chunk_z && all_hints && chunk_hint(c, layer) is Some
                    && chunk_hint(c, layer)->0.len == found && expected == e && found != expected && (
                forall|l: HintLayer|
                    layer_rank(l) < layer_rank(layer) ==> hint_layer_ok(#[trigger] chunk_hint(c, l), e)),
                Err(LayoutError::HintValues { chunk_x, chunk_z, layer }) => chunk_x == c.chunk_x
                    && chunk_z == c.chunk_z && all_hints && chunk_hint(c, layer) is Some
                    && chunk_hint(c, layer)->0.len == e && !chunk_hint(c, layer)->0.values_in_unit_range
                    && (forall|l: HintLayer|
                    layer_rank(l) < layer_rank(layer) ==> hint_layer_ok(#[trigger] chunk_hint(c, l), e)),
                Err(LayoutError::ChunkSpan { chunk_x, chunk_z }) => chunk_x == c.chunk_x && chunk_z
                    == c.chunk_z && c.height_len == e && !c.span_matches,
                Err(LayoutError::ChunkIndex { chunk_x, chunk_z }) => chunk_x == c.chunk_x && chunk_z
                    == c.chunk_z && c.span_matches && (c.chunk_x >= chunk_count || c.chunk_z
                    >= chunk_count),
                Err(_) => false,
            }
        }),
{
    let e = chunk_n * chunk_n;
    assert forall|l: HintLayer| layer_rank(l) < 0 implies hint_layer_ok(#[trigger] chunk_hint(c, l), e) by {}
}

/// A header is accepted exactly when: there is at least one chunk per side
/// and two samples per chunk side, scope and version are not blank, there is
/// a seed, the first seed holds `chunk_count * chunk_count` chunks (a count
/// that fits), the stitched grid's side and sample count fit, and corridor
/// masks and material hints are each on all chunks or on none. The accepted
/// layout is that grid, with corridor and hints exactly when every chunk has
/// them.
pub proof fn lemma_header_accepted_iff_well_formed(
    chunk_count: usize,
    chunk_n: usize,
    source_scope: Seq<char>,
    generator_version: Seq<char>,
    seed_count: usize,
    chunks: Seq<ChunkLayout>,
)
    ensures
        ({
            let g = chunk_count * (chunk_n - 1) + 1;
            let well_formed = {
                &&& chunk_count >= 1
                &&& chunk_n >= 2
                &&& !blank_spec(source_scope)
                &&& !blank_spec(generator_version)
                &&& seed_count >= 1
                &&& chunk_count * chunk_count <= usize::MAX
                &&& chunks.len() == chunk_count * chunk_count
                &&& g <= usize::MAX
                &&& g * g <= usize::MAX
                &&& ((forall|i: int| 0 <= i < chunks.len() ==> (#[trigger] chunks[i]).corridor_len is Some)
                    || (forall|i: int| 0 <= i < chunks.len() ==> (#[trigger] chunks[i]).corridor_len is None))
                &&& ((forall|i: int| 0 <= i < chunks.len() ==> chunk_has_all_hints(#[trigger] chunks[i]))
                    || (forall|i: int| 0 <= i < chunks.len() ==> !chunk_has_any_hint(#[trigger] chunks[i])))
            };
            &&& header_layout_spec(chunk_count, chunk_n, source_scope, generator_version, seed_count, chunks) is Ok
                <==> well_formed
            &&& header_layout_spec(chunk_count, chunk_n, source_scope, generator_version, seed_count, chunks) is Ok
                ==> header_layout_spec(
                chunk_count,
                chunk_n,
                source_scope,
                generator_version,
                seed_count,
                chunks,
            )->Ok_0 == (StitchLayout {
                grid_n: g as usize,
                grid_len: (g * g) as usize,
                has_corridor: forall|i: int| 0 <= i < chunks.len() ==> (#[trigger] chunks[i]).corridor_len is Some,
                has_hints: forall|i: int| 0 <= i < chunks.len() ==> chunk_has_all_hints(#[trigger] chunks[i]),
            })
        }),
{
    if chunks.len() > 0 {
        assert(chunk_has_all_hints(chunks[0]) ==> chunk_has_any_hint(chunks[0]));
        assert(chunks[0] == chunks[0]);
    }
}

/// Every chunk of `chunks` passes its checks under an accepted header's hint
/// setting.
pub open spec fn all_chunks_accepted(
    chunk_count: usize,
    chunk_n: usize,
    has_hints: bool,
    chunks: Seq<ChunkLayout>,
) -> bool {
    forall|i: int|
        0 <= i < chunks.len() ==> (#[trigger] chunk_layout_spec(chunk_count, chunk_n, has_hints, chunks[i])) is Ok
}

/// The layout checks of one payload in progress: the header has been
/// accepted, and the first `checked` chunks have passed their checks. The
/// loader checks the next chunk right before stitching it, and builds a
/// runtime only from a scan that has checked every chunk.
pub struct PayloadScan {
    chunk_count: usize,
    chunk_n: usize,
    seed_count: usize,
    source_scope: Ghost<Seq<char>>,
    generator_version: Ghost<Seq<char>>,
    layout: StitchLayout,
    chunks: Vec<ChunkLayout>,
    checked: usize,
}

impl PayloadScan {
    #[verifier::type_invariant]
    spec fn accepted_so_far(&self) -> bool {
        &&& header_layout_spec(
            self.chunk_count,
            self.chunk_n,
            self.source_scope@,
            self.generator_version@,
            self.seed_count,
            self.chunks@,
        ) == Ok::<StitchLayout, LayoutError>(self.layout)
        &&& self.checked <= self.chunks@.len()
        &&& forall|i: int|
            0 <= i < self.checked ==> (#[trigger] chunk_layout_spec(
                self.chunk_count,
                self.chunk_n,
                self.layout.has_hints,
                self.chunks@[i],
            )) is Ok
    }

    /// The accepted header's layout.
    pub closed spec fn scan_layout(&self) -> StitchLayout {
        self.layout
    }

    /// The chunks being checked, in payload order.
    pub closed spec fn scan_chunks(&self) -> Seq<ChunkLayout> {
        self.chunks@
    }

    /// How many chunks have passed their checks.
    pub closed spec fn scan_checked(&self) -> nat {
        self.checked as nat
    }

    /// The header fields the scan was started with.
    pub closed spec fn scan_header(&self) -> (usize, usize, Seq<char>, Seq<char>, usize) {
        (self.chunk_count, self.chunk_n, self.source_scope@, self.generator_version@, self.seed_count)
    }

    /// Check a payload's header (`check_payload_header`) and, when it is
    /// accepted, start checking its chunks.
    pub fn start(
        chunk_count: usize,
        chunk_n: usize,
        source_scope: &str,
        generator_version: &str,
        seed_count: usize,
        chunks: Vec<ChunkLayout>,
    ) -> (r: Result<PayloadScan, LayoutError>)
        ensures
            match r {
                Ok(scan) => {
                    &&& header_layout_spec(
                        chunk_count,
                        chunk_n,
                        source_scope@,
                        generator_version@,
                        seed_count,
                        chunks@,
                    ) == Ok::<StitchLayout, LayoutError>(scan.scan_layout())
                    &&& scan.scan_chunks() == chunks@
                    &&& scan.scan_checked() == 0
                    &&& scan.scan_header() == (
                        chunk_count,
                        chunk_n,
                        source_scope@,
                        generator_version@,
                        seed_count,
                    )
                },
                Err(e) => header_layout_spec(
                    chunk_count,
                    chunk_n,
                    source_scope@,
                    generator_version@,
                    seed_count,
                    chunks@,
                ) == Err::<StitchLayout, LayoutError>(e),
            },
    {
        match check_payload_header(chunk_count, chunk_n, source_scope, generator_version, seed_count, &chunks) {
            Ok(layout) => Ok(
                PayloadScan {
                    chunk_count,
                    chunk_n,
                    seed_count,
                    source_scope: Ghost(source_scope@),
                    generator_version: Ghost(generator_version@),
                    layout,
                    chunks,
                    checked: 0,
                },
            ),
            Err(e) => Err(e),
        }
    }

    /// The accepted header's layout.
    pub fn layout(&self) -> (l: StitchLayout)
        ensures
            l == self.scan_layout(),
    {
        self.layout
    }

    /// Check the next unchecked chunk (`check_chunk_layout`); `None` once every
    /// chunk has passed. A chunk that passes counts as checked; a refused one
    /// leaves the scan where it was.
    pub fn check_next(&mut self) -> (r: Option<Result<usize, LayoutError>>)
        ensures
            final(self).scan_layout() == old(self).scan_layout(),
            final(self).scan_chunks() == old(self).scan_chunks(),
            final(self).scan_header() == old(self).scan_header(),
            old(self).scan_checked() == old(self).scan_chunks().len() ==> {
                &&& r is None
                &&& final(self).scan_checked() == old(self).scan_checked()
            },
            old(self).scan_checked() < old(self).scan_chunks().len() ==> {
                &&& r == Some(
                    chunk_layout_spec(
                        old(self).scan_header().0,
                        old(self).scan_header().1,
                        old(self).scan_layout().has_hints,
                        old(self).scan_chunks()[old(self).scan_checked() as int],
                    ),
                )
                &&& final(self).scan_checked() == old(self).scan_checked() + if r->0 is Ok {
                    1nat
                } else {
                    0nat
                }
            },
    {
        proof {
            use_type_invariant(&*self);
        }
        if self.checked >= self.chunks.len() {
            return None;
        }
        let r = check_chunk_layout(
            self.chunk_count,
            self.chunk_n,
            self.layout.has_hints,
            &self.chunks[self.checked],
        );
        if r.is_ok() {
            self.checked = self.checked + 1;
        }
        Some(r)
    }

    /// The layout to stitch with, once every chunk has passed its checks:
    /// then the header and every chunk of the payload are accepted.
    pub fn finish(&self) -> (r: Option<StitchLayout>)
        ensures
            r is Some <==> self.scan_checked() == self.scan_chunks().len(),
            r is Some ==> {
                &&& r->0 == self.scan_layout()
                &&& header_layout_spec(
                    self.scan_header().0,
                    self.scan_header().1,
                    self.scan_header().2,
                    self.scan_header().3,
                    self.scan_header().4,
                    self.scan_chunks(),
                ) == Ok::<StitchLayout, LayoutError>(r->0)
                &&& all_chunks_accepted(
                    self.scan_header().0,
                    self.scan_header().1,
                    r->0.has_hints,
                    self.scan_chunks(),
                )
            },
    {
        proof {
            use_type_invariant(self);
        }
        if self.checked == self.chunks.len() {
            Some(self.layout)
        } else {
            None
        }
    }
}

/// A payload is refused unless its header and every one of its chunks pass
/// their checks: no accepted layout exists for a payload with a refused header
/// or a refused chunk.
pub proof fn lemma_malformed_payload_refused(
    chunk_count: usize,
    chunk_n: usize,
    source_scope: Seq<char>,
    generator_version: Seq<char>,
    seed_count: usize,
    chunks: Seq<ChunkLayout>,
    bad: int,
)
    requires
        header_layout_spec(chunk_count, chunk_n, source_scope, generator_version, seed_count, chunks) is Err
            || (0 <= bad < chunks.len() && chunk_layout_spec(
            chunk_count,
            chunk_n,
            all_hints_spec(chunks),
            chunks[bad],
        ) is Err),
    ensures
        !(header_layout_spec(chunk_count, chunk_n, source_scope, generator_version, seed_count, chunks) is Ok
            && all_chunks_accepted(
            chunk_count,
            chunk_n,
            header_layout_spec(chunk_count, chunk_n, source_scope, generator_version, seed_count, chunks)->Ok_0.has_hints,
            chunks,
        )),
{
    if header_layout_spec(chunk_count, chunk_n, source_scope, generator_version, seed_count, chunks) is Ok {
        assert(chunk_layout_spec(chunk_count, chunk_n, all_hints_spec(chunks), chunks[bad]) is Err);
    }
}

} // verus!
