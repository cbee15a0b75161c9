//! The shared equalization pipeline behind every public entry point:
//! validate the configuration and geometry, gather tight RGB (and alpha),
//! pack into the chosen color space, equalize the lightness plane —
//! globally or tiled — and write the converted result back.

use vstd::prelude::*;

use crate::clahe_engine::adaptive_equalize_plane;
use crate::hist_equal::hist_equal_plane;
use crate::hist_support::{ClaheGridSize, EqualizeError};
use crate::layout::{
    alpha_byte_pos, carried_alpha_byte, channels_of, extract_plane, gather_alpha, gather_rgb,
    plane_narrow, plane_widen, rgb_byte_pos, scale_plane_from_bins, scale_plane_to_bins,
    scatter_rgb, store_plane, PixelLayout,
};
use crate::packing::{channel_pos, pack_space, unpack_space, EqualizeSpace};
use crate::ycgco::{rgb_from_ycgco, ycgco_from_rgb};

verus! {

/// Whether the buffers fit the declared geometry: a non-empty image whose
/// strided rows lie inside both buffers.
pub open spec fn geometry_ok(
    src_len: int,
    src_stride: u32,
    dst_len: int,
    dst_stride: u32,
    width: u32,
    height: u32,
    layout: PixelLayout,
) -> bool {
    &&& 1 <= width
    &&& 1 <= height
    &&& channels_of(layout) * width <= src_stride
    &&& channels_of(layout) * width <= dst_stride
    &&& src_stride * height <= src_len
    &&& dst_stride * height <= dst_len
}

/// The exact outcome of an equalization entry point: the first failed
/// check names the error, and a call with a sane configuration and fitting
/// buffers succeeds. Configuration errors are raised before any buffer is
/// touched.
pub open spec fn entry_outcome(
    src_len: int,
    src_stride: u32,
    dst_len: int,
    dst_stride: u32,
    width: u32,
    height: u32,
    grid: Option<ClaheGridSize>,
    bins_count: usize,
    layout: PixelLayout,
) -> Result<(), EqualizeError> {
    if !(2 <= bins_count <= 65536) {
        Result::Err(EqualizeError::InvalidBinsCount)
    } else if (grid matches Some(g) && (g.w == 0 || g.h == 0)) {
        Result::Err(EqualizeError::ZeroGridSize)
    } else if (grid matches Some(g) && (width as int / g.w as int == 0 || height as int
        / g.h as int == 0)) {
        Result::Err(EqualizeError::GridLargerThanImage)
    } else if !geometry_ok(src_len, src_stride, dst_len, dst_stride, width, height, layout) {
        Result::Err(EqualizeError::BufferSizeMismatch)
    } else {
        Result::Ok(())
    }
}

/// Runs one full equalization pass: pack `src` into `space`, equalize the
/// lightness plane (globally when `grid` is `None`, tiled otherwise, with
/// contrast limiting when `clip` gives a threshold in thousandths), and
/// unpack into `dst`. On any error the destination is left untouched.
pub fn space_pipeline(
    space: EqualizeSpace,
    layout: PixelLayout,
    src: &Vec<u8>,
    src_stride: u32,
    dst: &mut Vec<u8>,
    dst_stride: u32,
    width: u32,
    height: u32,
    clip: Option<u64>,
    grid: Option<ClaheGridSize>,
    bins_count: usize,
) -> (r: Result<(), EqualizeError>)
    ensures
        final(dst)@.len() == old(dst)@.len(),
        r.is_err() ==> final(dst)@ == old(dst)@,
        r == entry_outcome(
            src@.len() as int,
            src_stride,
            old(dst)@.len() as int,
            dst_stride,
            width,
            height,
            grid,
            bins_count,
            layout,
        ),
        r.is_ok() ==> forall|j: int|
            0 <= j < old(dst)@.len() && !rgb_byte_pos(
                dst_stride as nat,
                width as nat,
                height as nat,
                layout,
                j,
            ) && !alpha_byte_pos(dst_stride as nat, width as nat, height as nat, layout, j)
                ==> final(dst)@[j] == old(dst)@[j],
        r.is_ok() ==> forall|j: int|
            0 <= j < old(dst)@.len() && alpha_byte_pos(
                dst_stride as nat,
                width as nat,
                height as nat,
                layout,
                j,
            ) ==> final(dst)@[j] == carried_alpha_byte(
                src@,
                src_stride as nat,
                dst_stride as nat,
                width as nat,
                layout,
                j,
            ),
{
    if bins_count <= 1 || bins_count > 65536 {
        return Err(EqualizeError::InvalidBinsCount);
    }
    let tiled_grid: Option<ClaheGridSize> = grid;
    match tiled_grid {
        Some(g) => {
            if g.w == 0 || g.h == 0 {
                return Err(EqualizeError::ZeroGridSize);
            }
            if width / g.w == 0 || height / g.h == 0 {
                return Err(EqualizeError::GridLargerThanImage);
            }
        },
        None => {},
    }
    let channels: u32 = match layout {
        PixelLayout::Rgb => 3,
        PixelLayout::Rgba => 4,
        PixelLayout::Bgra => 4,
    };
    proof {
        assert((channels as int) * (width as int) <= u64::MAX) by (nonlinear_arith)
            requires
                channels <= 4,
                width <= u32::MAX,
        ;
        assert((src_stride as int) * (height as int) <= u64::MAX) by (nonlinear_arith)
            requires
                src_stride <= u32::MAX,
                height <= u32::MAX,
        ;
        assert((dst_stride as int) * (height as int) <= u64::MAX) by (nonlinear_arith)
            requires
                dst_stride <= u32::MAX,
                height <= u32::MAX,
        ;
    }
    let row_bytes: u64 = (channels as u64) * (width as u64);
    if width == 0 || height == 0 || row_bytes > (src_stride as u64) || row_bytes > (
    dst_stride as u64) || (src_stride as u64) * (height as u64) > (src.len() as u64) || (
    dst_stride as u64) * (height as u64) > (dst.len() as u64) {
        return Err(EqualizeError::BufferSizeMismatch);
    }
    let rgb = gather_rgb(src, src_stride, width, height, layout);
    let alpha: Vec<u8> = if channels == 4 {
        gather_alpha(src, src_stride, width, height)
    } else {
        Vec::new()
    };
    proof {
        assert(3 * (width as int) <= (channels as int) * (width as int)) by (nonlinear_arith)
            requires
                3 <= channels,
                0 <= width,
        ;
    }
    let packed_opt = pack_space(space, &rgb, width, height);
    let mut packed: Vec<u16> = match packed_opt {
        Some(p) => p,
        None => {
            proof {
                assert(false);
            }
            return Err(EqualizeError::BufferSizeMismatch);
        },
    };
    proof {
        assert((width as int) * (height as int) <= u64::MAX) by (nonlinear_arith)
            requires
                width <= u32::MAX,
                height <= u32::MAX,
        ;
    }
    let pixels: usize = packed.len() / 3;
    proof {
        assert(packed@.len() as int == ((width as int) * (height as int)) * 3)
            by (nonlinear_arith)
            requires
                packed@.len() == 3 * (width as int) * (height as int),
        ;
        vstd::arithmetic::div_mod::lemma_fundamental_div_mod_converse(
            packed@.len() as int,
            3,
            (width as int) * (height as int),
            0,
        );
        assert(pixels == (width as int) * (height as int));
    }
    let pos = channel_pos(space);
    let mut plane = extract_plane(&packed, pixels, pos);
    scale_plane_to_bins(&mut plane, bins_count);
    match tiled_grid {
        Some(g) => {
            let engine_result = adaptive_equalize_plane(
                &mut plane,
                width,
                height,
                clip,
                g,
                bins_count,
            );
            match engine_result {
                Ok(()) => {},
                Err(_) => {
                    proof {
                        assert(false);
                    }
                    return Err(EqualizeError::BufferSizeMismatch);
                },
            }
        },
        None => {
            let engine_result = hist_equal_plane(&mut plane, width, height, bins_count);
            match engine_result {
                Ok(()) => {},
                Err(_) => {
                    proof {
                        assert(false);
                    }
                    return Err(EqualizeError::BufferSizeMismatch);
                },
            }
        },
    }
    scale_plane_from_bins(&mut plane, bins_count);
    store_plane(&mut packed, &plane, pos);
    let out_opt = unpack_space(space, &packed, width, height);
    let out_rgb: Vec<u8> = match out_opt {
        Some(p) => p,
        None => {
            proof {
                assert(false);
            }
            return Err(EqualizeError::BufferSizeMismatch);
        },
    };
    scatter_rgb(dst, dst_stride, width, height, layout, &out_rgb, &alpha);
    proof {
        let ds = dst_stride as int;
        let c = channels_of(layout) as int;
        assert(ds >= 1 && c >= 3);
        assert forall|j: int|
            0 <= j < dst@.len() && alpha_byte_pos(
                dst_stride as nat,
                width as nat,
                height as nat,
                layout,
                j,
            ) implies dst@[j] == carried_alpha_byte(
            src@,
            src_stride as nat,
            dst_stride as nat,
            width as nat,
            layout,
            j,
        ) by {
            let yy = j / ds;
            let rem = j % ds;
            let xx = rem / c;
            vstd::arithmetic::div_mod::lemma_fundamental_div_mod(j, ds);
            vstd::arithmetic::div_mod::lemma_mod_bound(j, ds);
            vstd::arithmetic::div_mod::lemma_fundamental_div_mod(rem, c);
            vstd::arithmetic::div_mod::lemma_mod_bound(rem, c);
            assert(0 <= xx < width) by (nonlinear_arith)
                requires
                    rem == c * xx + (rem % c),
                    0 <= (rem % c) < c,
                    0 <= rem < width * c,
                    c >= 1,
            ;
            assert(yy >= 0) by (nonlinear_arith)
                requires
                    j == ds * yy + rem,
                    0 <= rem < ds,
                    0 <= j,
                    ds >= 1,
            ;
            assert(0 <= yy * width + xx < width * height) by (nonlinear_arith)
                requires
                    0 <= xx < width,
                    0 <= yy < height,
            ;
            assert(dst@[j] == alpha@[yy * (width as int) + xx]);
            vstd::arithmetic::div_mod::lemma_fundamental_div_mod_converse(
                yy * (width as int) + xx,
                width as int,
                yy,
                xx,
            );
        }
        assert forall|j: int|
            0 <= j < dst@.len() && !rgb_byte_pos(
                dst_stride as nat,
                width as nat,
                height as nat,
                layout,
                j,
            ) && !alpha_byte_pos(dst_stride as nat, width as nat, height as nat, layout, j)
            implies dst@[j] == old(dst)@[j] by {
            vstd::arithmetic::div_mod::lemma_mod_bound(j, ds);
            vstd::arithmetic::div_mod::lemma_mod_bound(j % ds, c);
        }
    }
    Ok(())
}

/// Runs one full equalization pass through the YCgCo adapter: split `src`
/// into Y, Cg and Co planes, equalize the luma plane over a fixed 256 bins
/// (globally when `grid` is `None`, tiled otherwise, with contrast limiting
/// when `clip` gives a threshold in thousandths), and join the planes back
/// into `dst`. On any error the destination is left untouched.
pub fn ycgco_pipeline(
    layout: PixelLayout,
    src: &Vec<u8>,
    src_stride: u32,
    dst: &mut Vec<u8>,
    dst_stride: u32,
    width: u32,
    height: u32,
    clip: Option<u64>,
    grid: Option<ClaheGridSize>,
) -> (r: Result<(), EqualizeError>)
    ensures
        final(dst)@.len() == old(dst)@.len(),
        r.is_err() ==> final(dst)@ == old(dst)@,
        r == entry_outcome(
            src@.len() as int,
            src_stride,
            old(dst)@.len() as int,
            dst_stride,
            width,
            height,
            grid,
            256,
            layout,
        ),
        r.is_ok() ==> forall|j: int|
            0 <= j < old(dst)@.len() && !rgb_byte_pos(
                dst_stride as nat,
                width as nat,
                height as nat,
                layout,
                j,
            ) && !alpha_byte_pos(dst_stride as nat, width as nat, height as nat, layout, j)
                ==> final(dst)@[j] == old(dst)@[j],
        r.is_ok() ==> forall|j: int|
            0 <= j < old(dst)@.len() && alpha_byte_pos(
                dst_stride as nat,
                width as nat,
                height as nat,
                layout,
                j,
            ) ==> final(dst)@[j] == carried_alpha_byte(
                src@,
                src_stride as nat,
                dst_stride as nat,
                width as nat,
                layout,
                j,
            ),
{
    let tiled_grid: Option<ClaheGridSize> = grid;
    match tiled_grid {
        Some(g) => {
            if g.w == 0 || g.h == 0 {
                return Err(EqualizeError::ZeroGridSize);
            }
            if width / g.w == 0 || height / g.h == 0 {
                return Err(EqualizeError::GridLargerThanImage);
            }
        },
        None => {},
    }
    let channels: u32 = match layout {
        PixelLayout::Rgb => 3,
        PixelLayout::Rgba => 4,
        PixelLayout::Bgra => 4,
    };
    proof {
        assert((channels as int) * (width as int) <= u64::MAX) by (nonlinear_arith)
            requires
                channels <= 4,
                width <= u32::MAX,
        ;
        assert((src_stride as int) * (height as int) <= u64::MAX) by (nonlinear_arith)
            requires
                src_stride <= u32::MAX,
                height <= u32::MAX,
        ;
        assert((dst_stride as int) * (height as int) <= u64::MAX) by (nonlinear_arith)
            requires
                dst_stride <= u32::MAX,
                height <= u32::MAX,
        ;
    }
    let row_bytes: u64 = (channels as u64) * (width as u64);
    if width == 0 || height == 0 || row_bytes > (src_stride as u64) || row_bytes > (
    dst_stride as u64) || (src_stride as u64) * (height as u64) > (src.len() as u64) || (
    dst_stride as u64) * (height as u64) > (dst.len() as u64) {
        return Err(EqualizeError::BufferSizeMismatch);
    }
    let rgb = gather_rgb(src, src_stride, width, height, layout);
    let alpha: Vec<u8> = if channels == 4 {
        gather_alpha(src, src_stride, width, height)
    } else {
        Vec::new()
    };
    proof {
        assert(3 * (width as int) <= (channels as int) * (width as int)) by (nonlinear_arith)
            requires
                3 <= channels,
                0 <= width,
        ;
    }
    let planes_opt = ycgco_from_rgb(&rgb, width, height);
    let (y_plane, u_plane, v_plane) = match planes_opt {
        Some(p) => p,
        None => {
            proof {
                assert(false);
            }
            return Err(EqualizeError::BufferSizeMismatch);
        },
    };
    let mut plane = plane_widen(&y_plane);
    match tiled_grid {
        Some(g) => {
            let engine_result = adaptive_equalize_plane(&mut plane, width, height, clip, g, 256);
            match engine_result {
                Ok(()) => {},
                Err(_) => {
                    proof {
                        assert(false);
                    }
                    return Err(EqualizeError::BufferSizeMismatch);
                },
            }
        },
        None => {
            let engine_result = hist_equal_plane(&mut plane, width, height, 256);
            match engine_result {
                Ok(()) => {},
                Err(_) => {
                    proof {
                        assert(false);
                    }
                    return Err(EqualizeError::BufferSizeMismatch);
                },
            }
        },
    }
    let y_out = plane_narrow(&plane);
    let out_opt = rgb_from_ycgco(&y_out, &u_plane, &v_plane, width, height);
    let out_rgb: Vec<u8> = match out_opt {
        Some(p) => p,
        None => {
            proof {
                assert(false);
            }
            return Err(EqualizeError::BufferSizeMismatch);
        },
    };
    scatter_rgb(dst, dst_stride, width, height, layout, &out_rgb, &alpha);
    proof {
        let ds = dst_stride as int;
        let c = channels_of(layout) as int;
        assert(ds >= 1 && c >= 3);
        assert forall|j: int|
            0 <= j < dst@.len() && alpha_byte_pos(
                dst_stride as nat,
                width as nat,
                height as nat,
                layout,
                j,
            ) implies dst@[j] == carried_alpha_byte(
            src@,
            src_stride as nat,
            dst_stride as nat,
            width as nat,
            layout,
            j,
        ) by {
            let yy = j / ds;
            let rem = j % ds;
            let xx = rem / c;
            vstd::arithmetic::div_mod::lemma_fundamental_div_mod(j, ds);
            vstd::arithmetic::div_mod::lemma_mod_bound(j, ds);
            vstd::arithmetic::div_mod::lemma_fundamental_div_mod(rem, c);
            vstd::arithmetic::div_mod::lemma_mod_bound(rem, c);
            assert(0 <= xx < width) by (nonlinear_arith)
                requires
                    rem == c * xx + (rem % c),
                    0 <= (rem % c) < c,
                    0 <= rem < width * c,
                    c >= 1,
            ;
            assert(yy >= 0) by (nonlinear_arith)
                requires
                    j == ds * yy + rem,
                    0 <= rem < ds,
                    0 <= j,
                    ds >= 1,
            ;
            assert(0 <= yy * width + xx < width * height) by (nonlinear_arith)
                requires
                    0 <= xx < width,
                    0 <= yy < height,
            ;
            assert(dst@[j] == alpha@[yy * (width as int) + xx]);
            vstd::arithmetic::div_mod::lemma_fundamental_div_mod_converse(
                yy * (width as int) + xx,
                width as int,
                yy,
                xx,
            );
        }
        assert forall|j: int|
            0 <= j < dst@.len() && !rgb_byte_pos(
                dst_stride as nat,
                width as nat,
                height as nat,
                layout,
                j,
            ) && !alpha_byte_pos(dst_stride as nat, width as nat, height as nat, layout, j)
            implies dst@[j] == old(dst)@[j] by {
            vstd::arithmetic::div_mod::lemma_mod_bound(j, ds);
            vstd::arithmetic::div_mod::lemma_mod_bound(j % ds, c);
        }
    }
    Ok(())
}

} // verus!
