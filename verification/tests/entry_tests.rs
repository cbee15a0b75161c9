//! Tests of the public entry points: configuration errors leave the
//! destination untouched, alpha and padding ride through unchanged, and
//! the adapters round-trip.

use histogram_equalization::declarations::{
    ahe_hsl_rgb, ahe_lab_rgb, ahe_luv_rgba, ahe_oklab_bgra, ahe_oklch_rgb, ahe_yuv_bgra,
    ahe_yuv_rgb, clahe_hsv_bgra, clahe_lab_rgba, clahe_luv_rgb, clahe_oklab_rgb, clahe_oklch_bgra,
    clahe_yuv_rgb, hist_equal_hsl_bgra, hist_equal_hsv_rgb, hist_equal_lab_rgb,
    hist_equal_luv_bgra, hist_equal_yuv_rgba,
};
use histogram_equalization::hist_support::{ClaheGridSize, EqualizeError};
use histogram_equalization::packing::{pack_space, unpack_space, EqualizeSpace};

fn seeded_rgb(width: usize, height: usize) -> Vec<u8> {
    (0..width * height * 3).map(|i| ((i * 31 + 17) % 256) as u8).collect()
}

fn seeded_rgba(width: usize, height: usize) -> Vec<u8> {
    (0..width * height * 4).map(|i| ((i * 29 + 5) % 256) as u8).collect()
}

#[test]
fn zero_bins_raises_config_error_on_every_entry_point() {
    let src = seeded_rgb(4, 4);
    let mut dst = vec![0u8; 48];
    let before = dst.clone();
    let g = ClaheGridSize::new(2, 2);
    assert_eq!(
        clahe_lab_rgba(&src, 12, &mut dst, 12, 4, 4, 3000, g, 1),
        Err(EqualizeError::InvalidBinsCount)
    );
    assert_eq!(
        ahe_lab_rgb(&src, 12, &mut dst, 12, 4, 4, g, 0),
        Err(EqualizeError::InvalidBinsCount)
    );
    assert_eq!(
        hist_equal_lab_rgb(&src, 12, &mut dst, 12, 4, 4, 1),
        Err(EqualizeError::InvalidBinsCount)
    );
    assert_eq!(dst, before);
}

#[test]
fn zero_grid_raises_config_error_without_touching_dst() {
    let src = seeded_rgb(4, 4);
    let mut dst = vec![7u8; 48];
    let before = dst.clone();
    assert_eq!(
        clahe_luv_rgb(&src, 12, &mut dst, 12, 4, 4, 3000, ClaheGridSize::new(0, 2), 8),
        Err(EqualizeError::ZeroGridSize)
    );
    assert_eq!(
        ahe_oklch_rgb(&src, 12, &mut dst, 12, 4, 4, ClaheGridSize::new(2, 0), 8),
        Err(EqualizeError::ZeroGridSize)
    );
    assert_eq!(dst, before);
}

#[test]
fn grid_finer_than_image_is_rejected() {
    let src = seeded_rgb(4, 4);
    let mut dst = vec![0u8; 48];
    assert_eq!(
        clahe_oklab_rgb(&src, 12, &mut dst, 12, 4, 4, 3000, ClaheGridSize::new(9, 1), 8),
        Err(EqualizeError::GridLargerThanImage)
    );
}

#[test]
fn short_buffers_are_rejected() {
    let src = seeded_rgb(4, 4);
    let mut short_dst = vec![0u8; 24];
    assert_eq!(
        hist_equal_lab_rgb(&src, 12, &mut short_dst, 12, 4, 4, 8),
        Err(EqualizeError::BufferSizeMismatch)
    );
    let short_src = vec![0u8; 10];
    let mut dst = vec![0u8; 48];
    assert_eq!(
        hist_equal_lab_rgb(&short_src, 12, &mut dst, 12, 4, 4, 8),
        Err(EqualizeError::BufferSizeMismatch)
    );
    let mut dst2 = vec![0u8; 48];
    assert_eq!(
        hist_equal_lab_rgb(&src, 12, &mut dst2, 12, 0, 4, 8),
        Err(EqualizeError::BufferSizeMismatch)
    );
}

#[test]
fn lab_global_equalization_runs_and_fills_dst() {
    let src = seeded_rgb(8, 8);
    let mut dst = vec![0u8; 8 * 8 * 3];
    hist_equal_lab_rgb(&src, 24, &mut dst, 24, 8, 8, 64).unwrap();
    assert_ne!(dst, vec![0u8; 8 * 8 * 3]);
}

#[test]
fn luv_bgra_keeps_alpha_and_padding() {
    let width = 4usize;
    let height = 3usize;
    let stride = 20usize;  // 4 bytes of padding per row
    let mut src = vec![0u8; stride * height];
    for y in 0..height {
        for x in 0..width {
            let p = y * stride + x * 4;
            src[p] = (x * 40) as u8;
            src[p + 1] = (y * 60) as u8;
            src[p + 2] = ((x + y) * 25) as u8;
            src[p + 3] = (200 + x) as u8;
        }
    }
    let mut dst = vec![9u8; stride * height];
    hist_equal_luv_bgra(&src, stride as u32, &mut dst, stride as u32, 4, 3, 32).unwrap();
    for y in 0..height {
        for x in 0..width {
            // alpha rides through unchanged
            assert_eq!(dst[y * stride + x * 4 + 3], src[y * stride + x * 4 + 3]);
        }
        // row padding stays what it was in dst
        for pad in width * 4..stride {
            assert_eq!(dst[y * stride + pad], 9);
        }
    }
}

#[test]
fn every_space_processes_an_image() {
    let src3 = seeded_rgb(8, 8);
    let src4 = seeded_rgba(8, 8);
    let g = ClaheGridSize::new(2, 2);
    let mut d1 = vec![0u8; 8 * 8 * 3];
    ahe_lab_rgb(&src3, 24, &mut d1, 24, 8, 8, g, 32).unwrap();
    let mut d2 = vec![0u8; 8 * 8 * 4];
    ahe_luv_rgba(&src4, 32, &mut d2, 32, 8, 8, g, 32).unwrap();
    let mut d3 = vec![0u8; 8 * 8 * 4];
    ahe_oklab_bgra(&src4, 32, &mut d3, 32, 8, 8, g, 32).unwrap();
    let mut d4 = vec![0u8; 8 * 8 * 3];
    ahe_oklch_rgb(&src3, 24, &mut d4, 24, 8, 8, g, 32).unwrap();
    let mut d5 = vec![0u8; 8 * 8 * 4];
    clahe_oklch_bgra(&src4, 32, &mut d5, 32, 8, 8, 2000, g, 32).unwrap();
    let mut d6 = vec![0u8; 8 * 8 * 3];
    clahe_oklab_rgb(&src3, 24, &mut d6, 24, 8, 8, 2000, g, 32).unwrap();
}

#[test]
fn clahe_entry_is_deterministic() {
    let src = seeded_rgb(16, 16);
    let g = ClaheGridSize::new(2, 2);
    let mut a = vec![0u8; 16 * 16 * 3];
    let mut b = vec![1u8; 16 * 16 * 3];
    clahe_lab_rgba(&seeded_rgba(16, 16), 64, &mut vec![0u8; 16 * 16 * 4], 64, 16, 16, 3000, g, 8)
        .unwrap();
    clahe_luv_rgb(&src, 48, &mut a, 48, 16, 16, 3000, g, 8).unwrap();
    clahe_luv_rgb(&src, 48, &mut b, 48, 16, 16, 3000, g, 8).unwrap();
    assert_eq!(a, b);
}

#[test]
fn gray_ramp_survives_lab_pack_unpack_round_trip() {
    // a pack -> unpack round trip with no equalization in between must give
    // the original bytes back; mid-tone grays sit well inside the gamut and
    // away from the steep dark end of the transfer curve, so the fixed-point
    // lightness quantization cannot flip a byte
    let width = 10u32;
    let height = 20u32;
    let src: Vec<u8> = (0..width as usize * height as usize)
        .flat_map(|i| {
            let v = (32 + i % 200) as u8;
            [v, v, v]
        })
        .collect();
    let packed = pack_space(EqualizeSpace::Lab, &src, width, height).unwrap();
    let back = unpack_space(EqualizeSpace::Lab, &packed, width, height).unwrap();
    let mism: Vec<(usize, u8, u8)> = src
        .iter()
        .zip(back.iter())
        .enumerate()
        .filter(|(_, (a, b))| a != b)
        .map(|(i, (a, b))| (i, *a, *b))
        .collect();
    assert!(mism.is_empty(), "lab mismatches: {:?}", &mism[..mism.len().min(40)]);
}

#[test]
fn gray_ramp_survives_every_spaces_round_trip() {
    let width = 16u32;
    let height = 4u32;
    let src: Vec<u8> = (0..width as usize * height as usize)
        .flat_map(|i| {
            let v = (40 + (i * 3) % 192) as u8;
            [v, v, v]
        })
        .collect();
    for space in [
        EqualizeSpace::Lab,
        EqualizeSpace::Luv,
        EqualizeSpace::Oklab,
        EqualizeSpace::Oklch,
    ] {
        let packed = pack_space(space, &src, width, height).unwrap();
        assert_eq!(packed.len(), src.len());
        let back = unpack_space(space, &packed, width, height).unwrap();
        let mism: Vec<(usize, u8, u8)> = src
            .iter()
            .zip(back.iter())
            .enumerate()
            .filter(|(_, (a, b))| a != b)
            .map(|(i, (a, b))| (i, *a, *b))
            .collect();
        assert!(
            mism.is_empty(),
            "space {:?} mismatches: {:?}",
            space,
            &mism[..mism.len().min(40)]
        );
    }
}

#[test]
fn pack_rejects_empty_image() {
    let src = vec![0u8; 0];
    assert!(pack_space(EqualizeSpace::Lab, &src, 0, 4).is_none());
    assert!(pack_space(EqualizeSpace::Luv, &src, 4, 0).is_none());
}

#[test]
fn yuv_entries_process_an_image_deterministically() {
    let src3 = seeded_rgb(16, 16);
    let src4 = seeded_rgba(8, 8);
    let g = ClaheGridSize::new(2, 2);
    let mut a = vec![0u8; 16 * 16 * 3];
    let mut b = vec![1u8; 16 * 16 * 3];
    clahe_yuv_rgb(&src3, 48, &mut a, 48, 16, 16, 3000, g).unwrap();
    clahe_yuv_rgb(&src3, 48, &mut b, 48, 16, 16, 3000, g).unwrap();
    assert_eq!(a, b);
    assert_ne!(a, src3);
    let mut c = vec![0u8; 8 * 8 * 4];
    ahe_yuv_bgra(&src4, 32, &mut c, 32, 8, 8, g).unwrap();
    let mut d = vec![0u8; 8 * 8 * 4];
    hist_equal_yuv_rgba(&src4, 32, &mut d, 32, 8, 8).unwrap();
    // alpha rides through unchanged on the 4-channel layouts
    for p in 0..64 {
        assert_eq!(d[p * 4 + 3], src4[p * 4 + 3]);
    }
}

#[test]
fn yuv_config_errors_leave_dst_untouched() {
    let src = seeded_rgb(4, 4);
    let mut dst = vec![3u8; 48];
    let before = dst.clone();
    assert_eq!(
        clahe_yuv_rgb(&src, 12, &mut dst, 12, 4, 4, 3000, ClaheGridSize::new(0, 1)),
        Err(EqualizeError::ZeroGridSize)
    );
    assert_eq!(
        ahe_yuv_rgb(&src, 12, &mut dst, 12, 4, 4, ClaheGridSize::new(7, 1)),
        Err(EqualizeError::GridLargerThanImage)
    );
    assert_eq!(dst, before);
}

#[test]
fn hsv_and_hsl_entries_process_an_image() {
    let src3 = seeded_rgb(8, 8);
    let src4 = seeded_rgba(8, 8);
    let g = ClaheGridSize::new(2, 2);
    let mut d1 = vec![0u8; 8 * 8 * 3];
    hist_equal_hsv_rgb(&src3, 24, &mut d1, 24, 8, 8, 64).unwrap();
    assert_ne!(d1, vec![0u8; 8 * 8 * 3]);
    let mut d2 = vec![0u8; 8 * 8 * 3];
    ahe_hsl_rgb(&src3, 24, &mut d2, 24, 8, 8, g, 32).unwrap();
    let mut d3 = vec![0u8; 8 * 8 * 4];
    clahe_hsv_bgra(&src4, 32, &mut d3, 32, 8, 8, 3000, g, 32).unwrap();
    let mut d4 = vec![0u8; 8 * 8 * 4];
    hist_equal_hsl_bgra(&src4, 32, &mut d4, 32, 8, 8, 64).unwrap();
    // alpha rides through
    for p in 0..64 {
        assert_eq!(d3[p * 4 + 3], src4[p * 4 + 3]);
    }
}

#[test]
fn gray_ramp_survives_hsv_hsl_round_trip() {
    // HSV value and HSL lightness are linear in the gray level, so the
    // quantization at 1/10000 cannot flip a byte anywhere on the ramp
    let width = 16u32;
    let height = 16u32;
    let src: Vec<u8> = (0..width as usize * height as usize)
        .flat_map(|i| {
            let v = (i % 256) as u8;
            [v, v, v]
        })
        .collect();
    for space in [EqualizeSpace::Hsv, EqualizeSpace::Hsl] {
        let packed = pack_space(space, &src, width, height).unwrap();
        let back = unpack_space(space, &packed, width, height).unwrap();
        let mism: Vec<(usize, u8, u8)> = src
            .iter()
            .zip(back.iter())
            .enumerate()
            .filter(|(_, (a, b))| a != b)
            .map(|(i, (a, b))| (i, *a, *b))
            .collect();
        assert!(
            mism.is_empty(),
            "space {:?} mismatches: {:?}",
            space,
            &mism[..mism.len().min(40)]
        );
    }
}
