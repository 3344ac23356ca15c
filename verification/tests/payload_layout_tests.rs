use wg10_terrain::payload_layout::{
    check_chunk_layout, check_payload_header, is_blank, ChunkLayout, HintFacts, HintLayer,
    LayoutError, PayloadScan, StitchLayout,
};

fn hint(len: usize) -> Option<HintFacts> {
    Some(HintFacts { len, values_in_unit_range: true })
}

fn chunk(x: usize, z: usize, n: usize) -> ChunkLayout {
    ChunkLayout {
        chunk_x: x,
        chunk_z: z,
        n,
        height_len: n * n,
        corridor_len: None,
        low_pass: None,
        floor: None,
        rock: None,
        snow: None,
        span_matches: true,
    }
}

fn two_by_two(n: usize) -> Vec<ChunkLayout> {
    vec![chunk(0, 0, n), chunk(1, 0, n), chunk(0, 1, n), chunk(1, 1, n)]
}

#[test]
fn blank_is_whitespace_only() {
    assert!(is_blank(""));
    assert!(is_blank(" \t\n\u{3000}"));
    assert!(!is_blank(" a "));
}

#[test]
fn header_accepts_a_complete_layout() {
    assert_eq!(
        check_payload_header(2, 3, "scope", "v1", 1, &two_by_two(3)),
        Ok(StitchLayout { grid_n: 5, grid_len: 25, has_corridor: false, has_hints: false })
    );
}

#[test]
fn header_errors_in_order() {
    let c = two_by_two(3);
    assert_eq!(check_payload_header(0, 1, " ", " ", 0, &c), Err(LayoutError::ZeroChunkCount));
    assert_eq!(check_payload_header(2, 1, " ", " ", 0, &c), Err(LayoutError::ChunkNTooSmall));
    assert_eq!(check_payload_header(2, 3, "  ", " ", 0, &c), Err(LayoutError::BlankSourceScope));
    assert_eq!(check_payload_header(2, 3, "s", "\n", 0, &c), Err(LayoutError::BlankGeneratorVersion));
    assert_eq!(check_payload_header(2, 3, "s", "v", 0, &c), Err(LayoutError::NoSeeds));
    assert_eq!(
        check_payload_header(usize::MAX, 3, "s", "v", 1, &c),
        Err(LayoutError::ChunkCountOverflow)
    );
    assert_eq!(
        check_payload_header(3, 3, "s", "v", 1, &c),
        Err(LayoutError::ChunkTotal { found: 4, expected: 9 })
    );
    let one = vec![chunk(0, 0, 3)];
    assert_eq!(check_payload_header(2, usize::MAX, "s", "v", 1, &c), Err(LayoutError::GridNOverflow));
    assert_eq!(check_payload_header(1, 1usize << 40, "s", "v", 1, &one), Err(LayoutError::GridLenOverflow));
}

#[test]
fn corridor_and_hints_all_or_none() {
    let mut c = two_by_two(3);
    c[1].corridor_len = Some(9);
    assert_eq!(check_payload_header(2, 3, "s", "v", 1, &c), Err(LayoutError::PartialCorridor));
    for ch in c.iter_mut() {
        ch.corridor_len = Some(9);
    }
    c[0].rock = hint(9);
    assert_eq!(check_payload_header(2, 3, "s", "v", 1, &c), Err(LayoutError::PartialHints));
    for ch in c.iter_mut() {
        ch.low_pass = hint(9);
        ch.floor = hint(9);
        ch.rock = hint(9);
        ch.snow = hint(9);
    }
    assert_eq!(
        check_payload_header(2, 3, "s", "v", 1, &c),
        Ok(StitchLayout { grid_n: 5, grid_len: 25, has_corridor: true, has_hints: true })
    );
}

#[test]
fn chunk_errors_in_order() {
    assert_eq!(check_chunk_layout(2, 3, false, &chunk(1, 1, 3)), Ok(9));
    assert_eq!(
        check_chunk_layout(2, 3, false, &chunk(1, 0, 4)),
        Err(LayoutError::ChunkSize { chunk_x: 1, chunk_z: 0, n: 4, expected: 3 })
    );
    let mut c = chunk(0, 1, 3);
    c.height_len = 8;
    assert_eq!(
        check_chunk_layout(2, 3, false, &c),
        Err(LayoutError::HeightLen { chunk_x: 0, chunk_z: 1, found: 8, expected: 9 })
    );
    c.height_len = 9;
    c.corridor_len = Some(10);
    assert_eq!(
        check_chunk_layout(2, 3, false, &c),
        Err(LayoutError::CorridorLen { chunk_x: 0, chunk_z: 1, found: 10, expected: 9 })
    );
    c.corridor_len = Some(9);
    assert_eq!(
        check_chunk_layout(2, 3, true, &c),
        Err(LayoutError::MissingHint { chunk_x: 0, chunk_z: 1, layer: HintLayer::LowPass })
    );
    // Hints are not read when the payload has none.
    assert_eq!(check_chunk_layout(2, 3, false, &c), Ok(9));
    c.low_pass = hint(9);
    c.floor = hint(8);
    c.rock = Some(HintFacts { len: 9, values_in_unit_range: false });
    assert_eq!(
        check_chunk_layout(2, 3, true, &c),
        Err(LayoutError::HintLen { chunk_x: 0, chunk_z: 1, layer: HintLayer::Floor, found: 8, expected: 9 })
    );
    c.floor = hint(9);
    assert_eq!(
        check_chunk_layout(2, 3, true, &c),
        Err(LayoutError::HintValues { chunk_x: 0, chunk_z: 1, layer: HintLayer::Rock })
    );
    c.rock = hint(9);
    c.snow = hint(9);
    c.span_matches = false;
    assert_eq!(
        check_chunk_layout(2, 3, true, &c),
        Err(LayoutError::ChunkSpan { chunk_x: 0, chunk_z: 1 })
    );
    c.span_matches = true;
    assert_eq!(check_chunk_layout(2, 3, true, &c), Ok(9));
    assert_eq!(
        check_chunk_layout(2, 3, false, &chunk(2, 0, 3)),
        Err(LayoutError::ChunkIndex { chunk_x: 2, chunk_z: 0 })
    );
    assert_eq!(
        check_chunk_layout(2, usize::MAX, false, &chunk(0, 0, usize::MAX)),
        Err(LayoutError::HeightLenOverflow)
    );
}

#[test]
fn payload_scan_checks_every_chunk_before_finishing() {
    let mut scan = PayloadScan::start(2, 3, "s", "v", 1, two_by_two(3)).unwrap();
    assert_eq!(scan.layout(), StitchLayout { grid_n: 5, grid_len: 25, has_corridor: false, has_hints: false });
    assert_eq!(scan.finish(), None);
    for _ in 0..4 {
        assert_eq!(scan.check_next(), Some(Ok(9)));
    }
    assert_eq!(scan.check_next(), None);
    assert_eq!(scan.finish(), Some(scan.layout()));
}

#[test]
fn payload_scan_refuses_a_malformed_chunk() {
    let mut chunks = two_by_two(3);
    chunks[2].chunk_x = 5;
    let mut scan = PayloadScan::start(2, 3, "s", "v", 1, chunks).unwrap();
    assert_eq!(scan.check_next(), Some(Ok(9)));
    assert_eq!(scan.check_next(), Some(Ok(9)));
    let refused = Some(Err(LayoutError::ChunkIndex { chunk_x: 5, chunk_z: 1 }));
    assert_eq!(scan.check_next(), refused);
    // The scan stays at the refused chunk and never finishes.
    assert_eq!(scan.check_next(), refused);
    assert_eq!(scan.finish(), None);
    assert!(matches!(PayloadScan::start(0, 3, "s", "v", 1, two_by_two(3)), Err(LayoutError::ZeroChunkCount)));
}

fn one_chunk_review_layout() -> Vec<ChunkLayout> {
    // One 2x2 chunk spanning the whole 10 m field, no corridor, no hints.
    vec![chunk(0, 0, 2)]
}

#[test]
fn payload_payload_without_source_scope_is_rejected() {
    let version = "mountain_synthesis_v0_9x9_original_scene_scale_review_pass_network";
    let mut source_scope = String::from("coherent_full_field_carved_with_pass_network_sliced_for_review");
    source_scope.clear();
    let r = PayloadScan::start(1, 2, &source_scope, version, 1, one_chunk_review_layout());
    assert!(matches!(r, Err(LayoutError::BlankSourceScope)), "empty scope should be rejected");
}

#[test]
fn tests_payload_without_source_scope_is_rejected() {
    let version = "mountain_synthesis_v0_9x9_original_scene_scale_review_pass_network";
    let mut source_scope = String::from("coherent_full_field_carved_with_pass_network_sliced_for_review");
    assert!(PayloadScan::start(1, 2, &source_scope, version, 1, one_chunk_review_layout()).is_ok());
    source_scope.clear();
    let r = check_payload_header(1, 2, &source_scope, version, 1, &one_chunk_review_layout());
    assert_eq!(r, Err(LayoutError::BlankSourceScope), "empty scope should be rejected");
}
