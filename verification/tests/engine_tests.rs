//! Tests of the plane-level engines: global equalization, AHE and CLAHE on
//! raw lightness planes.

use histogram_equalization::clahe_engine::{adaptive_equalize_plane, build_region_mapping};
use histogram_equalization::hist_equal::hist_equal_plane;
use histogram_equalization::hist_support::{ClaheGridSize, EqualizeError};

fn seeded_plane(width: u32, height: u32, bins: u16) -> Vec<u16> {
    (0..width as usize * height as usize)
        .map(|i| ((i * 7 + i / 5) % bins as usize) as u16)
        .collect()
}

#[test]
fn global_equalization_of_uniform_histogram_is_identity() {
    // 16 pixels, 4 bins, 4 pixels in every bin: the mapping is the identity
    let mut plane: Vec<u16> = (0..16).map(|i| (i % 4) as u16).collect();
    let orig = plane.clone();
    hist_equal_plane(&mut plane, 4, 4, 4).unwrap();
    assert_eq!(plane, orig);
}

#[test]
fn global_equalization_stretches_contrast() {
    // all mass in the low bins gets stretched towards the full range
    let mut plane: Vec<u16> = vec![0, 0, 0, 0, 1, 1, 1, 1];
    hist_equal_plane(&mut plane, 8, 1, 8).unwrap();
    // cdf = [4,8,...]; min = 4; map[0] = round(7*0/4) = 0, map[1] = round(7*4/4) = 7
    assert_eq!(plane, vec![0, 0, 0, 0, 7, 7, 7, 7]);
}

#[test]
fn global_equalization_rejects_bad_bins() {
    let mut plane: Vec<u16> = vec![0; 4];
    assert_eq!(
        hist_equal_plane(&mut plane, 2, 2, 1),
        Err(EqualizeError::InvalidBinsCount)
    );
    assert_eq!(
        hist_equal_plane(&mut plane, 2, 2, 0),
        Err(EqualizeError::InvalidBinsCount)
    );
    assert_eq!(plane, vec![0; 4]);
}

#[test]
fn global_equalization_rejects_wrong_plane_size() {
    let mut plane: Vec<u16> = vec![0; 5];
    assert_eq!(
        hist_equal_plane(&mut plane, 2, 2, 8),
        Err(EqualizeError::BufferSizeMismatch)
    );
}

#[test]
fn clahe_scenario_is_deterministic_and_in_range() {
    // 16x16 plane, grid (2,2), 8 bins, threshold 3.0
    let plane0 = seeded_plane(16, 16, 8);
    let mut a = plane0.clone();
    let mut b = plane0.clone();
    adaptive_equalize_plane(&mut a, 16, 16, Some(3000), ClaheGridSize::new(2, 2), 8).unwrap();
    adaptive_equalize_plane(&mut b, 16, 16, Some(3000), ClaheGridSize::new(2, 2), 8).unwrap();
    assert_eq!(a, b);
    assert!(a.iter().all(|&v| v <= 7));
    // the pass must have done something to the seeded data
    assert_ne!(a, plane0);
}

#[test]
fn clahe_single_tile_with_huge_threshold_matches_global() {
    let plane0 = seeded_plane(12, 8, 16);
    let mut tiled = plane0.clone();
    let mut global = plane0.clone();
    // threshold 1000000 thousandths: the clip limit exceeds the tile area
    adaptive_equalize_plane(&mut tiled, 12, 8, Some(1_000_000), ClaheGridSize::new(1, 1), 16)
        .unwrap();
    hist_equal_plane(&mut global, 12, 8, 16).unwrap();
    assert_eq!(tiled, global);
}

#[test]
fn ahe_single_tile_matches_global() {
    let plane0 = seeded_plane(10, 10, 8);
    let mut tiled = plane0.clone();
    let mut global = plane0.clone();
    adaptive_equalize_plane(&mut tiled, 10, 10, None, ClaheGridSize::new(1, 1), 8).unwrap();
    hist_equal_plane(&mut global, 10, 10, 8).unwrap();
    assert_eq!(tiled, global);
}

#[test]
fn pixel_at_tile_center_takes_its_tiles_own_mapping() {
    // 8x8 plane, grid (2,2): tiles are 4x4, centers at 2 and 6 on each axis
    let plane0 = seeded_plane(8, 8, 8);
    let mut out = plane0.clone();
    adaptive_equalize_plane(&mut out, 8, 8, None, ClaheGridSize::new(2, 2), 8).unwrap();
    // tile (0,0) covers [0,4)x[0,4); its center pixel is (2,2)
    let mapping = build_region_mapping(&plane0, 8, 8, 0, 4, 0, 4, None, 8);
    let v = plane0[2 * 8 + 2].min(7) as usize;
    assert_eq!(out[2 * 8 + 2] as u64, mapping[v]);
    // tile (1,1) covers [4,8)x[4,8); its center pixel is (6,6)
    let mapping11 = build_region_mapping(&plane0, 8, 8, 4, 8, 4, 8, None, 8);
    let v11 = plane0[6 * 8 + 6].min(7) as usize;
    assert_eq!(out[6 * 8 + 6] as u64, mapping11[v11]);
}

#[test]
fn border_pixels_reuse_the_nearest_tile() {
    let plane0 = seeded_plane(8, 8, 8);
    let mut out = plane0.clone();
    adaptive_equalize_plane(&mut out, 8, 8, None, ClaheGridSize::new(2, 2), 8).unwrap();
    // pixel (0,0) lies before the first tile centers on both axes
    let mapping00 = build_region_mapping(&plane0, 8, 8, 0, 4, 0, 4, None, 8);
    let v = plane0[0].min(7) as usize;
    assert_eq!(out[0] as u64, mapping00[v]);
    // pixel (7,7) lies past the last tile centers on both axes
    let mapping11 = build_region_mapping(&plane0, 8, 8, 4, 8, 4, 8, None, 8);
    let v2 = plane0[7 * 8 + 7].min(7) as usize;
    assert_eq!(out[7 * 8 + 7] as u64, mapping11[v2]);
}

#[test]
fn engine_rejects_zero_grid_without_touching_the_plane() {
    let plane0 = seeded_plane(8, 8, 8);
    let mut out = plane0.clone();
    assert_eq!(
        adaptive_equalize_plane(&mut out, 8, 8, None, ClaheGridSize::new(0, 2), 8),
        Err(EqualizeError::ZeroGridSize)
    );
    assert_eq!(
        adaptive_equalize_plane(&mut out, 8, 8, Some(3000), ClaheGridSize::new(2, 0), 8),
        Err(EqualizeError::ZeroGridSize)
    );
    assert_eq!(out, plane0);
}

#[test]
fn engine_rejects_grid_finer_than_the_image() {
    let mut out = seeded_plane(4, 4, 8);
    assert_eq!(
        adaptive_equalize_plane(&mut out, 4, 4, None, ClaheGridSize::new(5, 1), 8),
        Err(EqualizeError::GridLargerThanImage)
    );
}

#[test]
fn degenerate_single_value_plane_keeps_its_value() {
    // all pixels in bin 0: the normalization falls back to the identity
    let mut plane: Vec<u16> = vec![0; 16];
    hist_equal_plane(&mut plane, 4, 4, 8).unwrap();
    assert_eq!(plane, vec![0; 16]);
}

#[test]
fn normalized_mapping_saturates_at_top_bin() {
    // single value in the top bin maps to the top of the range
    let mut plane: Vec<u16> = vec![5; 9];
    hist_equal_plane(&mut plane, 3, 3, 6).unwrap();
    assert!(plane.iter().all(|&v| v <= 5));
}
