use wg10_terrain::grid_ops::{crop_core, slice_super_region, transpose};
use wg10_terrain::pass_network::{reconstruct_path, PassNetworkParams};

#[test]
fn crop_core_matches_numpy_slicing() {
    // 4 x 5 grid, values = flat index; apron 1 keeps rows 1..3, cols 1..4.
    let field: Vec<f64> = (0..20).map(|i| i as f64).collect();
    let core = crop_core(&field, 4, 5, 1);
    assert_eq!(core, vec![6.0, 7.0, 8.0, 11.0, 12.0, 13.0]);
    // apron 0 is the identity.
    assert_eq!(crop_core(&field, 4, 5, 0), field);
}

#[test]
fn crop_core_twice_is_crop_of_sum() {
    let field: Vec<u32> = (0..81).collect();
    let once = crop_core(&crop_core(&field, 9, 9, 1), 7, 7, 2);
    let direct = crop_core(&field, 9, 9, 3);
    assert_eq!(once, direct);
    assert_eq!(direct, vec![30, 31, 32, 39, 40, 41, 48, 49, 50]);
}

#[test]
fn transpose_swaps_rows_and_columns() {
    let g = vec![1, 2, 3, 4, 5, 6, 7, 8, 9];
    assert_eq!(transpose(&g, 3), vec![1, 4, 7, 2, 5, 8, 3, 6, 9]);
    assert_eq!(transpose(&transpose(&g, 3), 3), g);
    let empty: Vec<f64> = Vec::new();
    assert!(transpose(&empty, 0).is_empty());
}

#[test]
fn super_region_slices_overlap_by_one_cell() {
    // k = 2 regions of n = 3 -> super_n = 5.
    let field: Vec<u32> = (0..25).collect();
    let slices = slice_super_region(&field, 5, 3, 2);
    assert_eq!(slices.len(), 4);
    assert_eq!(slices[0], vec![0, 1, 2, 5, 6, 7, 10, 11, 12]);
    assert_eq!(slices[1], vec![2, 3, 4, 7, 8, 9, 12, 13, 14]);
    assert_eq!(slices[2], vec![10, 11, 12, 15, 16, 17, 20, 21, 22]);
    assert_eq!(slices[3], vec![12, 13, 14, 17, 18, 19, 22, 23, 24]);
    // internal seams are exact
    for r in 0..3 {
        assert_eq!(slices[0][r * 3 + 2], slices[1][r * 3]);
        assert_eq!(slices[0][2 * 3 + r], slices[2][r]);
    }
}

#[test]
fn super_region_k1_is_whole_field() {
    let field: Vec<i64> = (0..16).collect();
    let slices = slice_super_region(&field, 4, 4, 1);
    assert_eq!(slices, vec![field]);
}

#[test]
fn reconstruct_path_walks_back_to_source() {
    // 2 x 3 grid: 0 -> 1 -> 4 -> 5; prev links point backwards.
    let prev = vec![-1, 0, -1, -1, 1, 4];
    let path = reconstruct_path(&prev, 5, 3);
    assert_eq!(path, vec![(0, 0), (0, 1), (1, 1), (1, 2)]);
}

#[test]
fn reconstruct_path_of_a_source_is_itself() {
    let prev = vec![-1, -1, -1, -1];
    assert_eq!(reconstruct_path(&prev, 3, 2), vec![(1, 1)]);
}

#[test]
fn pass_network_params_defaults() {
    let p = PassNetworkParams::default();
    assert_eq!((p.n_we, p.n_ns, p.coarse_n), (4, 4, 193));
}
