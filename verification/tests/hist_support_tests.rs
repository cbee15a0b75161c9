//! Tests of the histogram utilities on concrete values.

use histogram_equalization::hist_support::{
    cdf, clip_hist_clahe, make_histogram_region, minmax, ClaheGridSize,
};

#[test]
fn cdf_is_prefix_sums() {
    let mut bins: Vec<u64> = vec![3, 0, 2, 5];
    cdf(&mut bins);
    assert_eq!(bins, vec![3, 3, 5, 10]);
}

#[test]
fn cdf_is_non_decreasing_and_ends_at_total() {
    let mut bins: Vec<u64> = vec![4, 1, 0, 7, 2, 2];
    let total: u64 = bins.iter().sum();
    cdf(&mut bins);
    for w in bins.windows(2) {
        assert!(w[0] <= w[1]);
    }
    assert_eq!(*bins.last().unwrap(), total);
}

#[test]
fn minmax_finds_extremes() {
    let bins: Vec<u64> = vec![9, 2, 14, 2, 7];
    assert_eq!(minmax(&bins), (2, 14));
}

#[test]
fn histogram_counts_every_pixel_once() {
    // 4x2 plane, stride 4, values spread over 4 bins
    let chan: Vec<u16> = vec![0, 1, 2, 3, 3, 3, 1, 0];
    let hist = make_histogram_region(&chan, 4, 0, 4, 0, 2, 4);
    assert_eq!(hist.bins, vec![2, 2, 1, 3]);
    let total: u64 = hist.bins.iter().sum();
    assert_eq!(total, 8);
}

#[test]
fn histogram_clamps_out_of_range_values() {
    let chan: Vec<u16> = vec![0, 9, 100, 2];
    let hist = make_histogram_region(&chan, 4, 0, 4, 0, 1, 3);
    // 9 and 100 land in the last bin
    assert_eq!(hist.bins, vec![1, 0, 3]);
}

#[test]
fn histogram_of_sub_region_sums_to_region_area() {
    let chan: Vec<u16> = (0..36).map(|v| (v % 5) as u16).collect();
    let hist = make_histogram_region(&chan, 6, 1, 5, 2, 6, 5);
    let total: u64 = hist.bins.iter().sum();
    assert_eq!(total, 16);
}

#[test]
fn clip_redistributes_excess_uniformly() {
    // tile 4x2, 4 bins, threshold 1.0: limit = 1000*4*2/(1000*4) = 2
    let mut bins: Vec<u64> = vec![5, 1, 0, 2];
    clip_hist_clahe(&mut bins, 1000, 4, 2);
    // excess = 5 - 2 = 3, share = 3 / 4 = 0
    assert_eq!(bins, vec![2, 1, 0, 2]);
}

#[test]
fn clip_share_reaches_every_bin() {
    // tile 8x1, 2 bins, threshold 1.0: limit = 1000*8*1/(1000*2) = 4
    let mut bins: Vec<u64> = vec![8, 0];
    clip_hist_clahe(&mut bins, 1000, 8, 1);
    // excess = 4, share = 2 added to every bin, the clipped one too
    assert_eq!(bins, vec![6, 2]);
}

#[test]
fn grid_size_holds_dimensions() {
    let g = ClaheGridSize::new(8, 4);
    assert_eq!(g.w, 8);
    assert_eq!(g.h, 4);
}
