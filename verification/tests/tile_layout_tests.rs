use wg10_terrain::payload_layout::{HintFacts, HintLayer};
use wg10_terrain::tile_layout::{
    check_runtime_tile_fields, check_runtime_tile_header, TileFieldFacts, TileFields, TileHeader,
    TileLayoutError,
};

fn tile(count: usize, n: usize, field_n: usize) -> TileHeader {
    TileHeader {
        source_scope: "scope".to_string(),
        generator_version: "v2".to_string(),
        chunk_count: count,
        chunk_n: n,
        field_n,
        span_matches: true,
        height_scale_matches: true,
    }
}

fn header(t: Option<&TileHeader>) -> Result<(), TileLayoutError> {
    check_runtime_tile_header(2, 3, 5, "scope", "v2", true, true, t)
}

#[test]
fn runtime_tile_header_accepts_a_matching_tile() {
    assert_eq!(header(Some(&tile(2, 3, 5))), Ok(()));
}

#[test]
fn runtime_tile_header_errors_in_order() {
    let t = tile(2, 3, 5);
    assert_eq!(check_runtime_tile_header(0, 1, 1, "", "", false, false, None), Err(TileLayoutError::ZeroChunkCount));
    assert_eq!(check_runtime_tile_header(2, 1, 1, "", "", false, false, None), Err(TileLayoutError::ChunkNTooSmall));
    assert_eq!(check_runtime_tile_header(2, 3, 1, "", "", false, false, None), Err(TileLayoutError::FieldNTooSmall));
    assert_eq!(
        check_runtime_tile_header(2, usize::MAX, 5, "", "", false, false, None),
        Err(TileLayoutError::FieldNOverflow)
    );
    assert_eq!(
        check_runtime_tile_header(2, 3, 6, "", "", false, false, None),
        Err(TileLayoutError::FieldN { found: 6, expected: 5 })
    );
    assert_eq!(check_runtime_tile_header(2, 3, 5, " ", "", false, false, None), Err(TileLayoutError::BlankSourceScope));
    assert_eq!(check_runtime_tile_header(2, 3, 5, "s", "", false, false, None), Err(TileLayoutError::BlankGeneratorVersion));
    assert_eq!(check_runtime_tile_header(2, 3, 5, "s", "v", false, false, None), Err(TileLayoutError::WorldSpan));
    assert_eq!(check_runtime_tile_header(2, 3, 5, "s", "v", true, false, None), Err(TileLayoutError::HeightScale));
    assert_eq!(header(None), Err(TileLayoutError::NoTiles));
    let mut blank = tile(2, 3, 5);
    blank.source_scope = "\t".to_string();
    assert_eq!(header(Some(&blank)), Err(TileLayoutError::BlankTileSourceScope));
    blank.source_scope = "s".to_string();
    blank.generator_version = String::new();
    assert_eq!(header(Some(&blank)), Err(TileLayoutError::BlankTileGeneratorVersion));
    assert_eq!(header(Some(&tile(3, 3, 5))), Err(TileLayoutError::TileChunkCount { found: 3, expected: 2 }));
    assert_eq!(header(Some(&tile(2, 4, 5))), Err(TileLayoutError::TileChunkN { found: 4, expected: 3 }));
    assert_eq!(header(Some(&tile(2, 3, 7))), Err(TileLayoutError::TileFieldN { found: 7, expected: 5 }));
    let mut off = t;
    off.span_matches = false;
    assert_eq!(header(Some(&off)), Err(TileLayoutError::TileSpan));
    off.span_matches = true;
    off.height_scale_matches = false;
    assert_eq!(header(Some(&off)), Err(TileLayoutError::TileHeightScale));
}

fn fields() -> TileFieldFacts {
    TileFieldFacts {
        height_len: 25,
        heights_finite: true,
        corridor_len: None,
        low_pass: None,
        floor: None,
        rock: None,
        snow: None,
    }
}

#[test]
fn runtime_tile_fields_errors_in_order() {
    assert_eq!(
        check_runtime_tile_fields(5, &fields()),
        Ok(TileFields { grid_len: 25, has_corridor: false, has_hints: false })
    );
    assert_eq!(check_runtime_tile_fields(usize::MAX, &fields()), Err(TileLayoutError::GridLenOverflow));
    let mut f = fields();
    f.height_len = 24;
    assert_eq!(check_runtime_tile_fields(5, &f), Err(TileLayoutError::HeightLen { found: 24, expected: 25 }));
    f.height_len = 25;
    f.heights_finite = false;
    assert_eq!(check_runtime_tile_fields(5, &f), Err(TileLayoutError::HeightValues));
    f.heights_finite = true;
    f.corridor_len = Some(9);
    assert_eq!(check_runtime_tile_fields(5, &f), Err(TileLayoutError::CorridorLen { found: 9, expected: 25 }));
    f.corridor_len = Some(25);
    f.floor = Some(HintFacts { len: 25, values_in_unit_range: true });
    assert_eq!(check_runtime_tile_fields(5, &f), Err(TileLayoutError::PartialHints));
    f.low_pass = Some(HintFacts { len: 25, values_in_unit_range: true });
    f.rock = Some(HintFacts { len: 20, values_in_unit_range: true });
    f.snow = Some(HintFacts { len: 25, values_in_unit_range: false });
    assert_eq!(
        check_runtime_tile_fields(5, &f),
        Err(TileLayoutError::HintLen { layer: HintLayer::Rock, found: 20, expected: 25 })
    );
    f.rock = Some(HintFacts { len: 25, values_in_unit_range: true });
    assert_eq!(check_runtime_tile_fields(5, &f), Err(TileLayoutError::HintValues { layer: HintLayer::Snow }));
    f.snow = Some(HintFacts { len: 25, values_in_unit_range: true });
    assert_eq!(
        check_runtime_tile_fields(5, &f),
        Ok(TileFields { grid_len: 25, has_corridor: true, has_hints: true })
    );
}
