use wg10_terrain::lattice_hash::lattice_hash;
use wg10_terrain::names::{runtime_biome_from_family_id, str_eq};
use wg10_terrain::probe::{build_push, fn_sel};

#[test]
fn fn_sel_maps_known_names() {
    assert_eq!(fn_sel("hash2"), Some(0));
    assert_eq!(fn_sel("value_noise"), Some(1));
    assert_eq!(fn_sel("fbm"), Some(2));
    assert_eq!(fn_sel("ridged_multifractal"), Some(3));
    assert_eq!(fn_sel("warp_x"), Some(4));
    assert_eq!(fn_sel("warp_z"), Some(5));
    assert_eq!(fn_sel("nope"), None);
}

#[test]
fn push_constant_is_48_bytes() {
    let args = [1.0f32.to_bits(), 2.0f32.to_bits(), 3.0f32.to_bits()];
    assert_eq!(build_push(0, &args).len(), 48);
    assert_eq!(build_push(5, &[]).len(), 48);
}

#[test]
fn push_constant_packs_sel_then_args() {
    let p = build_push(3, &[1.5f32.to_bits(), (-2.0f32).to_bits()]);
    assert_eq!(i32::from_le_bytes([p[0], p[1], p[2], p[3]]), 3);
    let a0 = f32::from_le_bytes([p[16], p[17], p[18], p[19]]);
    let a1 = f32::from_le_bytes([p[20], p[21], p[22], p[23]]);
    assert_eq!(a0, 1.5);
    assert_eq!(a1, -2.0);
}

#[test]
fn push_constant_pads_and_truncates_arguments() {
    let p = build_push(-1, &[]);
    assert_eq!(&p[0..4], &[0xff, 0xff, 0xff, 0xff]);
    assert!(p[4..].iter().all(|b| *b == 0));
    let nine: Vec<u32> = (1..=9).collect();
    let q = build_push(0, &nine);
    assert_eq!(q.len(), 48);
    assert_eq!(u32::from_le_bytes([q[44], q[45], q[46], q[47]]), 8);
}

#[test]
fn runtime_biome_is_family_stem() {
    assert_eq!(runtime_biome_from_family_id("mountain__a"), "mountain");
    assert_eq!(runtime_biome_from_family_id("wetland__delta__b"), "wetland");
    assert_eq!(runtime_biome_from_family_id("tundra"), "tundra");
    assert_eq!(runtime_biome_from_family_id("coast_"), "coast_");
    assert_eq!(runtime_biome_from_family_id("__x"), "");
    assert_eq!(runtime_biome_from_family_id(""), "");
}

#[test]
fn badlands_routes_to_desert() {
    assert_eq!(runtime_biome_from_family_id("badlands__mesa"), "desert");
    assert_eq!(runtime_biome_from_family_id("badlands"), "desert");
    assert_eq!(runtime_biome_from_family_id("badlandsx__a"), "badlandsx");
    let once = runtime_biome_from_family_id("badlands__mesa");
    assert_eq!(runtime_biome_from_family_id(once), once);
}

#[test]
fn str_eq_compares_content() {
    assert!(str_eq("fbm", "fbm"));
    assert!(!str_eq("fbm", "fbn"));
    assert!(!str_eq("fb", "fbm"));
    assert!(str_eq("é", "é"));
}

#[test]
fn lattice_hash_matches_reference_values() {
    assert_eq!(lattice_hash(0, 0, 0), 0);
    assert_eq!(lattice_hash(1, 0, 0), 34927554);
    assert_eq!(lattice_hash(0, 1, 0), 1152213128);
    assert_eq!(lattice_hash(3, -7, 42), 571999060);
    assert_eq!(lattice_hash(-123456789, 987654321, 1337), 700535595);
    assert_eq!(lattice_hash(1 << 62, -(1 << 62), -5), 2018247397);
}
