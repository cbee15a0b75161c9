//! The public equalization entry points, one per color space, pixel layout
//! and mode. Each converts the image into its color space, equalizes the
//! lightness channel — with contrast limiting (CLAHE), without (AHE), or
//! globally over the whole image — and converts back, leaving every other
//! channel untouched. A rejected configuration or geometry leaves the
//! destination exactly as it was.

use vstd::prelude::*;

use crate::hist_support::{ClaheGridSize, EqualizeError};
use crate::layout::PixelLayout;
use crate::packing::EqualizeSpace;
use crate::pipeline::{entry_outcome, space_pipeline, ycgco_pipeline};

verus! {

/// Converts the image to CIE LAB, performs CLAHE on the lightness
/// channel and reverts back into RGB.
///
/// * `threshold_milli` - clip level in thousandths: `3000` clips each tile
///   histogram at `3.0 * tile_area / bins_count`
/// * `grid_size` - tile grid for the local histograms
/// * `bins_count` - number of histogram bins
pub fn clahe_lab_rgb(
    src: &Vec<u8>,
    src_stride: u32,
    dst: &mut Vec<u8>,
    dst_stride: u32,
    width: u32,
    height: u32,
    threshold_milli: u64,
    grid_size: ClaheGridSize,
    bins_count: usize,
) -> (r: Result<(), EqualizeError>)
    ensures
        final(dst)@.len() == old(dst)@.len(),
        r.is_err() ==> final(dst)@ == old(dst)@,
        r == entry_outcome(
            src@.len() as int,
            src_stride,
            old(dst)@.len() as int,
            dst_stride,
            width,
            height,
            Some(grid_size),
            bins_count,
            PixelLayout::Rgb,
        ),
        r.is_ok() ==> forall|j: int|
            0 <= j < old(dst)@.len() && !crate::layout::rgb_byte_pos(
                dst_stride as nat,
                width as nat,
                height as nat,
                PixelLayout::Rgb,
                j,
            ) && !crate::layout::alpha_byte_pos(
                dst_stride as nat,
                width as nat,
                height as nat,
                PixelLayout::Rgb,
                j,
            ) ==> final(dst)@[j] == old(dst)@[j],
        r.is_ok() ==> forall|j: int|
            0 <= j < old(dst)@.len() && crate::layout::alpha_byte_pos(
                dst_stride as nat,
                width as nat,
                height as nat,
                PixelLayout::Rgb,
                j,
            ) ==> final(dst)@[j] == crate::layout::carried_alpha_byte(
                src@,
                src_stride as nat,
                dst_stride as nat,
                width as nat,
                PixelLayout::Rgb,
                j,
            ),
{
    space_pipeline(
        EqualizeSpace::Lab,
        PixelLayout::Rgb,
        src,
        src_stride,
        dst,
        dst_stride,
        width,
        height,
        Some(threshold_milli),
        Some(grid_size),
        bins_count,
    )
}

/// Converts the image to CIE LAB, performs AHE on the lightness channel
/// and reverts back into RGB.
///
/// * `grid_size` - tile grid for the local histograms
/// * `bins_count` - number of histogram bins
pub fn ahe_lab_rgb(
    src: &Vec<u8>,
    src_stride: u32,
    dst: &mut Vec<u8>,
    dst_stride: u32,
    width: u32,
    height: u32,
    grid_size: ClaheGridSize,
    bins_count: usize,
) -> (r: Result<(), EqualizeError>)
    ensures
        final(dst)@.len() == old(dst)@.len(),
        r.is_err() ==> final(dst)@ == old(dst)@,
        r == entry_outcome(
            src@.len() as int,
            src_stride,
            old(dst)@.len() as int,
            dst_stride,
            width,
            height,
            Some(grid_size),
            bins_count,
            PixelLayout::Rgb,
        ),
        r.is_ok() ==> forall|j: int|
            0 <= j < old(dst)@.len() && !crate::layout::rgb_byte_pos(
                dst_stride as nat,
                width as nat,
                height as nat,
                PixelLayout::Rgb,
                j,
            ) && !crate::layout::alpha_byte_pos(
                dst_stride as nat,
                width as nat,
                height as nat,
                PixelLayout::Rgb,
                j,
            ) ==> final(dst)@[j] == old(dst)@[j],
        r.is_ok() ==> forall|j: int|
            0 <= j < old(dst)@.len() && crate::layout::alpha_byte_pos(
                dst_stride as nat,
                width as nat,
                height as nat,
                PixelLayout::Rgb,
                j,
            ) ==> final(dst)@[j] == crate::layout::carried_alpha_byte(
                src@,
                src_stride as nat,
                dst_stride as nat,
                width as nat,
                PixelLayout::Rgb,
                j,
            ),
{
    space_pipeline(
        EqualizeSpace::Lab,
        PixelLayout::Rgb,
        src,
        src_stride,
        dst,
        dst_stride,
        width,
        height,
        None,
        Some(grid_size),
        bins_count,
    )
}

/// Converts the image to CIE LAB, performs CLAHE on the lightness
/// channel and reverts back into RGBA.
///
/// * `threshold_milli` - clip level in thousandths: `3000` clips each tile
///   histogram at `3.0 * tile_area / bins_count`
/// * `grid_size` - tile grid for the local histograms
/// * `bins_count` - number of histogram bins
pub fn clahe_lab_rgba(
    src: &Vec<u8>,
    src_stride: u32,
    dst: &mut Vec<u8>,
    dst_stride: u32,
    width: u32,
    height: u32,
    threshold_milli: u64,
    grid_size: ClaheGridSize,
    bins_count: usize,
) -> (r: Result<(), EqualizeError>)
    ensures
        final(dst)@.len() == old(dst)@.len(),
        r.is_err() ==> final(dst)@ == old(dst)@,
        r == entry_outcome(
            src@.len() as int,
            src_stride,
            old(dst)@.len() as int,
            dst_stride,
            width,
            height,
            Some(grid_size),
            bins_count,
            PixelLayout::Rgba,
        ),
        r.is_ok() ==> forall|j: int|
            0 <= j < old(dst)@.len() && !crate::layout::rgb_byte_pos(
                dst_stride as nat,
                width as nat,
                height as nat,
                PixelLayout::Rgba,
                j,
            ) && !crate::layout::alpha_byte_pos(
                dst_stride as nat,
                width as nat,
                height as nat,
                PixelLayout::Rgba,
                j,
            ) ==> final(dst)@[j] == old(dst)@[j],
        r.is_ok() ==> forall|j: int|
            0 <= j < old(dst)@.len() && crate::layout::alpha_byte_pos(
                dst_stride as nat,
                width as nat,
                height as nat,
                PixelLayout::Rgba,
                j,
            ) ==> final(dst)@[j] == crate::layout::carried_alpha_byte(
                src@,
                src_stride as nat,
                dst_stride as nat,
                width as nat,
                PixelLayout::Rgba,
                j,
            ),
{
    space_pipeline(
        EqualizeSpace::Lab,
        PixelLayout::Rgba,
        src,
        src_stride,
        dst,
        dst_stride,
        width,
        height,
        Some(threshold_milli),
        Some(grid_size),
        bins_count,
    )
}

/// Converts the image to CIE LAB, performs AHE on the lightness channel
/// and reverts back into RGBA.
///
/// * `grid_size` - tile grid for the local histograms
/// * `bins_count` - number of histogram bins
pub fn ahe_lab_rgba(
    src: &Vec<u8>,
    src_stride: u32,
    dst: &mut Vec<u8>,
    dst_stride: u32,
    width: u32,
    height: u32,
    grid_size: ClaheGridSize,
    bins_count: usize,
) -> (r: Result<(), EqualizeError>)
    ensures
        final(dst)@.len() == old(dst)@.len(),
        r.is_err() ==> final(dst)@ == old(dst)@,
        r == entry_outcome(
            src@.len() as int,
            src_stride,
            old(dst)@.len() as int,
            dst_stride,
            width,
            height,
            Some(grid_size),
            bins_count,
            PixelLayout::Rgba,
        ),
        r.is_ok() ==> forall|j: int|
            0 <= j < old(dst)@.len() && !crate::layout::rgb_byte_pos(
                dst_stride as nat,
                width as nat,
                height as nat,
                PixelLayout::Rgba,
                j,
            ) && !crate::layout::alpha_byte_pos(
                dst_stride as nat,
                width as nat,
                height as nat,
                PixelLayout::Rgba,
                j,
            ) ==> final(dst)@[j] == old(dst)@[j],
        r.is_ok() ==> forall|j: int|
            0 <= j < old(dst)@.len() && crate::layout::alpha_byte_pos(
                dst_stride as nat,
                width as nat,
                height as nat,
                PixelLayout::Rgba,
                j,
            ) ==> final(dst)@[j] == crate::layout::carried_alpha_byte(
                src@,
                src_stride as nat,
                dst_stride as nat,
                width as nat,
                PixelLayout::Rgba,
                j,
            ),
{
    space_pipeline(
        EqualizeSpace::Lab,
        PixelLayout::Rgba,
        src,
        src_stride,
        dst,
        dst_stride,
        width,
        height,
        None,
        Some(grid_size),
        bins_count,
    )
}

/// Converts the image to CIE LAB, performs CLAHE on the lightness
/// channel and reverts back into BGRA.
///
/// * `threshold_milli` - clip level in thousandths: `3000` clips each tile
///   histogram at `3.0 * tile_area / bins_count`
/// * `grid_size` - tile grid for the local histograms
/// * `bins_count` - number of histogram bins
pub fn clahe_lab_bgra(
    src: &Vec<u8>,
    src_stride: u32,
    dst: &mut Vec<u8>,
    dst_stride: u32,
    width: u32,
    height: u32,
    threshold_milli: u64,
    grid_size: ClaheGridSize,
    bins_count: usize,
) -> (r: Result<(), EqualizeError>)
    ensures
        final(dst)@.len() == old(dst)@.len(),
        r.is_err() ==> final(dst)@ == old(dst)@,
        r == entry_outcome(
            src@.len() as int,
            src_stride,
            old(dst)@.len() as int,
            dst_stride,
            width,
            height,
            Some(grid_size),
            bins_count,
            PixelLayout::Bgra,
        ),
        r.is_ok() ==> forall|j: int|
            0 <= j < old(dst)@.len() && !crate::layout::rgb_byte_pos(
                dst_stride as nat,
                width as nat,
                height as nat,
                PixelLayout::Bgra,
                j,
            ) && !crate::layout::alpha_byte_pos(
                dst_stride as nat,
                width as nat,
                height as nat,
                PixelLayout::Bgra,
                j,
            ) ==> final(dst)@[j] == old(dst)@[j],
        r.is_ok() ==> forall|j: int|
            0 <= j < old(dst)@.len() && crate::layout::alpha_byte_pos(
                dst_stride as nat,
                width as nat,
                height as nat,
                PixelLayout::Bgra,
                j,
            ) ==> final(dst)@[j] == crate::layout::carried_alpha_byte(
                src@,
                src_stride as nat,
                dst_stride as nat,
                width as nat,
                PixelLayout::Bgra,
                j,
            ),
{
    space_pipeline(
        EqualizeSpace::Lab,
        PixelLayout::Bgra,
        src,
        src_stride,
        dst,
        dst_stride,
        width,
        height,
        Some(threshold_milli),
        Some(grid_size),
        bins_count,
    )
}

/// Converts the image to CIE LAB, performs AHE on the lightness channel
/// and reverts back into BGRA.
///
/// * `grid_size` - tile grid for the local histograms
/// * `bins_count` - number of histogram bins
pub fn ahe_lab_bgra(
    src: &Vec<u8>,
    src_stride: u32,
    dst: &mut Vec<u8>,
    dst_stride: u32,
    width: u32,
    height: u32,
    grid_size: ClaheGridSize,
    bins_count: usize,
) -> (r: Result<(), EqualizeError>)
    ensures
        final(dst)@.len() == old(dst)@.len(),
        r.is_err() ==> final(dst)@ == old(dst)@,
        r == entry_outcome(
            src@.len() as int,
            src_stride,
            old(dst)@.len() as int,
            dst_stride,
            width,
            height,
            Some(grid_size),
            bins_count,
            PixelLayout::Bgra,
        ),
        r.is_ok() ==> forall|j: int|
            0 <= j < old(dst)@.len() && !crate::layout::rgb_byte_pos(
                dst_stride as nat,
                width as nat,
                height as nat,
                PixelLayout::Bgra,
                j,
            ) && !crate::layout::alpha_byte_pos(
                dst_stride as nat,
                width as nat,
                height as nat,
                PixelLayout::Bgra,
                j,
            ) ==> final(dst)@[j] == old(dst)@[j],
        r.is_ok() ==> forall|j: int|
            0 <= j < old(dst)@.len() && crate::layout::alpha_byte_pos(
                dst_stride as nat,
                width as nat,
                height as nat,
                PixelLayout::Bgra,
                j,
            ) ==> final(dst)@[j] == crate::layout::carried_alpha_byte(
                src@,
                src_stride as nat,
                dst_stride as nat,
                width as nat,
                PixelLayout::Bgra,
                j,
            ),
{
    space_pipeline(
        EqualizeSpace::Lab,
        PixelLayout::Bgra,
        src,
        src_stride,
        dst,
        dst_stride,
        width,
        height,
        None,
        Some(grid_size),
        bins_count,
    )
}

/// Converts the image to CIE LUV, performs CLAHE on the lightness
/// channel and reverts back into RGB.
///
/// * `threshold_milli` - clip level in thousandths: `3000` clips each tile
///   histogram at `3.0 * tile_area / bins_count`
/// * `grid_size` - tile grid for the local histograms
/// * `bins_count` - number of histogram bins
pub fn clahe_luv_rgb(
    src: &Vec<u8>,
    src_stride: u32,
    dst: &mut Vec<u8>,
    dst_stride: u32,
    width: u32,
    height: u32,
    threshold_milli: u64,
    grid_size: ClaheGridSize,
    bins_count: usize,
) -> (r: Result<(), EqualizeError>)
    ensures
        final(dst)@.len() == old(dst)@.len(),
        r.is_err() ==> final(dst)@ == old(dst)@,
        r == entry_outcome(
            src@.len() as int,
            src_stride,
            old(dst)@.len() as int,
            dst_stride,
            width,
            height,
            Some(grid_size),
            bins_count,
            PixelLayout::Rgb,
        ),
        r.is_ok() ==> forall|j: int|
            0 <= j < old(dst)@.len() && !crate::layout::rgb_byte_pos(
                dst_stride as nat,
                width as nat,
                height as nat,
                PixelLayout::Rgb,
                j,
            ) && !crate::layout::alpha_byte_pos(
                dst_stride as nat,
                width as nat,
                height as nat,
                PixelLayout::Rgb,
                j,
            ) ==> final(dst)@[j] == old(dst)@[j],
        r.is_ok() ==> forall|j: int|
            0 <= j < old(dst)@.len() && crate::layout::alpha_byte_pos(
                dst_stride as nat,
                width as nat,
                height as nat,
                PixelLayout::Rgb,
                j,
            ) ==> final(dst)@[j] == crate::layout::carried_alpha_byte(
                src@,
                src_stride as nat,
                dst_stride as nat,
                width as nat,
                PixelLayout::Rgb,
                j,
            ),
{
    space_pipeline(
        EqualizeSpace::Luv,
        PixelLayout::Rgb,
        src,
        src_stride,
        dst,
        dst_stride,
        width,
        height,
        Some(threshold_milli),
        Some(grid_size),
        bins_count,
    )
}

/// Converts the image to CIE LUV, performs AHE on the lightness channel
/// and reverts back into RGB.
///
/// * `grid_size` - tile grid for the local histograms
/// * `bins_count` - number of histogram bins
pub fn ahe_luv_rgb(
    src: &Vec<u8>,
    src_stride: u32,
    dst: &mut Vec<u8>,
    dst_stride: u32,
    width: u32,
    height: u32,
    grid_size: ClaheGridSize,
    bins_count: usize,
) -> (r: Result<(), EqualizeError>)
    ensures
        final(dst)@.len() == old(dst)@.len(),
        r.is_err() ==> final(dst)@ == old(dst)@,
        r == entry_outcome(
            src@.len() as int,
            src_stride,
            old(dst)@.len() as int,
            dst_stride,
            width,
            height,
            Some(grid_size),
            bins_count,
            PixelLayout::Rgb,
        ),
        r.is_ok() ==> forall|j: int|
            0 <= j < old(dst)@.len() && !crate::layout::rgb_byte_pos(
                dst_stride as nat,
                width as nat,
                height as nat,
                PixelLayout::Rgb,
                j,
            ) && !crate::layout::alpha_byte_pos(
                dst_stride as nat,
                width as nat,
                height as nat,
                PixelLayout::Rgb,
                j,
            ) ==> final(dst)@[j] == old(dst)@[j],
        r.is_ok() ==> forall|j: int|
            0 <= j < old(dst)@.len() && crate::layout::alpha_byte_pos(
                dst_stride as nat,
                width as nat,
                height as nat,
                PixelLayout::Rgb,
                j,
            ) ==> final(dst)@[j] == crate::layout::carried_alpha_byte(
                src@,
                src_stride as nat,
                dst_stride as nat,
                width as nat,
                PixelLayout::Rgb,
                j,
            ),
{
    space_pipeline(
        EqualizeSpace::Luv,
        PixelLayout::Rgb,
        src,
        src_stride,
        dst,
        dst_stride,
        width,
        height,
        None,
        Some(grid_size),
        bins_count,
    )
}

/// Converts the image to CIE LUV, performs CLAHE on the lightness
/// channel and reverts back into RGBA.
///
/// * `threshold_milli` - clip level in thousandths: `3000` clips each tile
///   histogram at `3.0 * tile_area / bins_count`
/// * `grid_size` - tile grid for the local histograms
/// * `bins_count` - number of histogram bins
pub fn clahe_luv_rgba(
    src: &Vec<u8>,
    src_stride: u32,
    dst: &mut Vec<u8>,
    dst_stride: u32,
    width: u32,
    height: u32,
    threshold_milli: u64,
    grid_size: ClaheGridSize,
    bins_count: usize,
) -> (r: Result<(), EqualizeError>)
    ensures
        final(dst)@.len() == old(dst)@.len(),
        r.is_err() ==> final(dst)@ == old(dst)@,
        r == entry_outcome(
            src@.len() as int,
            src_stride,
            old(dst)@.len() as int,
            dst_stride,
            width,
            height,
            Some(grid_size),
            bins_count,
            PixelLayout::Rgba,
        ),
        r.is_ok() ==> forall|j: int|
            0 <= j < old(dst)@.len() && !crate::layout::rgb_byte_pos(
                dst_stride as nat,
                width as nat,
                height as nat,
                PixelLayout::Rgba,
                j,
            ) && !crate::layout::alpha_byte_pos(
                dst_stride as nat,
                width as nat,
                height as nat,
                PixelLayout::Rgba,
                j,
            ) ==> final(dst)@[j] == old(dst)@[j],
        r.is_ok() ==> forall|j: int|
            0 <= j < old(dst)@.len() && crate::layout::alpha_byte_pos(
                dst_stride as nat,
                width as nat,
                height as nat,
                PixelLayout::Rgba,
                j,
            ) ==> final(dst)@[j] == crate::layout::carried_alpha_byte(
                src@,
                src_stride as nat,
                dst_stride as nat,
                width as nat,
                PixelLayout::Rgba,
                j,
            ),
{
    space_pipeline(
        EqualizeSpace::Luv,
        PixelLayout::Rgba,
        src,
        src_stride,
        dst,
        dst_stride,
        width,
        height,
        Some(threshold_milli),
        Some(grid_size),
        bins_count,
    )
}

/// Converts the image to CIE LUV, performs AHE on the lightness channel
/// and reverts back into RGBA.
///
/// * `grid_size` - tile grid for the local histograms
/// * `bins_count` - number of histogram bins
pub fn ahe_luv_rgba(
    src: &Vec<u8>,
    src_stride: u32,
    dst: &mut Vec<u8>,
    dst_stride: u32,
    width: u32,
    height: u32,
    grid_size: ClaheGridSize,
    bins_count: usize,
) -> (r: Result<(), EqualizeError>)
    ensures
        final(dst)@.len() == old(dst)@.len(),
        r.is_err() ==> final(dst)@ == old(dst)@,
        r == entry_outcome(
            src@.len() as int,
            src_stride,
            old(dst)@.len() as int,
            dst_stride,
            width,
            height,
            Some(grid_size),
            bins_count,
            PixelLayout::Rgba,
        ),
        r.is_ok() ==> forall|j: int|
            0 <= j < old(dst)@.len() && !crate::layout::rgb_byte_pos(
                dst_stride as nat,
                width as nat,
                height as nat,
                PixelLayout::Rgba,
                j,
            ) && !crate::layout::alpha_byte_pos(
                dst_stride as nat,
                width as nat,
                height as nat,
                PixelLayout::Rgba,
                j,
            ) ==> final(dst)@[j] == old(dst)@[j],
        r.is_ok() ==> forall|j: int|
            0 <= j < old(dst)@.len() && crate::layout::alpha_byte_pos(
                dst_stride as nat,
                width as nat,
                height as nat,
                PixelLayout::Rgba,
                j,
            ) ==> final(dst)@[j] == crate::layout::carried_alpha_byte(
                src@,
                src_stride as nat,
                dst_stride as nat,
                width as nat,
                PixelLayout::Rgba,
                j,
            ),
{
    space_pipeline(
        EqualizeSpace::Luv,
        PixelLayout::Rgba,
        src,
        src_stride,
        dst,
        dst_stride,
        width,
        height,
        None,
        Some(grid_size),
        bins_count,
    )
}

/// Converts the image to CIE LUV, performs CLAHE on the lightness
/// channel and reverts back into BGRA.
///
/// * `threshold_milli` - clip level in thousandths: `3000` clips each tile
///   histogram at `3.0 * tile_area / bins_count`
/// * `grid_size` - tile grid for the local histograms
/// * `bins_count` - number of histogram bins
pub fn clahe_luv_bgra(
    src: &Vec<u8>,
    src_stride: u32,
    dst: &mut Vec<u8>,
    dst_stride: u32,
    width: u32,
    height: u32,
    threshold_milli: u64,
    grid_size: ClaheGridSize,
    bins_count: usize,
) -> (r: Result<(), EqualizeError>)
    ensures
        final(dst)@.len() == old(dst)@.len(),
        r.is_err() ==> final(dst)@ == old(dst)@,
        r == entry_outcome(
            src@.len() as int,
            src_stride,
            old(dst)@.len() as int,
            dst_stride,
            width,
            height,
            Some(grid_size),
            bins_count,
            PixelLayout::Bgra,
        ),
        r.is_ok() ==> forall|j: int|
            0 <= j < old(dst)@.len() && !crate::layout::rgb_byte_pos(
                dst_stride as nat,
                width as nat,
                height as nat,
                PixelLayout::Bgra,
                j,
            ) && !crate::layout::alpha_byte_pos(
                dst_stride as nat,
                width as nat,
                height as nat,
                PixelLayout::Bgra,
                j,
            ) ==> final(dst)@[j] == old(dst)@[j],
        r.is_ok() ==> forall|j: int|
            0 <= j < old(dst)@.len() && crate::layout::alpha_byte_pos(
                dst_stride as nat,
                width as nat,
                height as nat,
                PixelLayout::Bgra,
                j,
            ) ==> final(dst)@[j] == crate::layout::carried_alpha_byte(
                src@,
                src_stride as nat,
                dst_stride as nat,
                width as nat,
                PixelLayout::Bgra,
                j,
            ),
{
    space_pipeline(
        EqualizeSpace::Luv,
        PixelLayout::Bgra,
        src,
        src_stride,
        dst,
        dst_stride,
        width,
        height,
        Some(threshold_milli),
        Some(grid_size),
        bins_count,
    )
}

/// Converts the image to CIE LUV, performs AHE on the lightness channel
/// and reverts back into BGRA.
///
/// * `grid_size` - tile grid for the local histograms
/// * `bins_count` - number of histogram bins
pub fn ahe_luv_bgra(
    src: &Vec<u8>,
    src_stride: u32,
    dst: &mut Vec<u8>,
    dst_stride: u32,
    width: u32,
    height: u32,
    grid_size: ClaheGridSize,
    bins_count: usize,
) -> (r: Result<(), EqualizeError>)
    ensures
        final(dst)@.len() == old(dst)@.len(),
        r.is_err() ==> final(dst)@ == old(dst)@,
        r == entry_outcome(
            src@.len() as int,
            src_stride,
            old(dst)@.len() as int,
            dst_stride,
            width,
            height,
            Some(grid_size),
            bins_count,
            PixelLayout::Bgra,
        ),
        r.is_ok() ==> forall|j: int|
            0 <= j < old(dst)@.len() && !crate::layout::rgb_byte_pos(
                dst_stride as nat,
                width as nat,
                height as nat,
                PixelLayout::Bgra,
                j,
            ) && !crate::layout::alpha_byte_pos(
                dst_stride as nat,
                width as nat,
                height as nat,
                PixelLayout::Bgra,
                j,
            ) ==> final(dst)@[j] == old(dst)@[j],
        r.is_ok() ==> forall|j: int|
            0 <= j < old(dst)@.len() && crate::layout::alpha_byte_pos(
                dst_stride as nat,
                width as nat,
                height as nat,
                PixelLayout::Bgra,
                j,
            ) ==> final(dst)@[j] == crate::layout::carried_alpha_byte(
                src@,
                src_stride as nat,
                dst_stride as nat,
                width as nat,
                PixelLayout::Bgra,
                j,
            ),
{
    space_pipeline(
        EqualizeSpace::Luv,
        PixelLayout::Bgra,
        src,
        src_stride,
        dst,
        dst_stride,
        width,
        height,
        None,
        Some(grid_size),
        bins_count,
    )
}

/// Converts the image to Oklab, performs CLAHE on the lightness
/// channel and reverts back into RGB.
///
/// * `threshold_milli` - clip level in thousandths: `3000` clips each tile
///   histogram at `3.0 * tile_area / bins_count`
/// * `grid_size` - tile grid for the local histograms
/// * `bins_count` - number of histogram bins
pub fn clahe_oklab_rgb(
    src: &Vec<u8>,
    src_stride: u32,
    dst: &mut Vec<u8>,
    dst_stride: u32,
    width: u32,
    height: u32,
    threshold_milli: u64,
    grid_size: ClaheGridSize,
    bins_count: usize,
) -> (r: Result<(), EqualizeError>)
    ensures
        final(dst)@.len() == old(dst)@.len(),
        r.is_err() ==> final(dst)@ == old(dst)@,
        r == entry_outcome(
            src@.len() as int,
            src_stride,
            old(dst)@.len() as int,
            dst_stride,
            width,
            height,
            Some(grid_size),
            bins_count,
            PixelLayout::Rgb,
        ),
        r.is_ok() ==> forall|j: int|
            0 <= j < old(dst)@.len() && !crate::layout::rgb_byte_pos(
                dst_stride as nat,
                width as nat,
                height as nat,
                PixelLayout::Rgb,
                j,
            ) && !crate::layout::alpha_byte_pos(
                dst_stride as nat,
                width as nat,
                height as nat,
                PixelLayout::Rgb,
                j,
            ) ==> final(dst)@[j] == old(dst)@[j],
        r.is_ok() ==> forall|j: int|
            0 <= j < old(dst)@.len() && crate::layout::alpha_byte_pos(
                dst_stride as nat,
                width as nat,
                height as nat,
                PixelLayout::Rgb,
                j,
            ) ==> final(dst)@[j] == crate::layout::carried_alpha_byte(
                src@,
                src_stride as nat,
                dst_stride as nat,
                width as nat,
                PixelLayout::Rgb,
                j,
            ),
{
    space_pipeline(
        EqualizeSpace::Oklab,
        PixelLayout::Rgb,
        src,
        src_stride,
        dst,
        dst_stride,
        width,
        height,
        Some(threshold_milli),
        Some(grid_size),
        bins_count,
    )
}

/// Converts the image to Oklab, performs AHE on the lightness channel
/// and reverts back into RGB.
///
/// * `grid_size` - tile grid for the local histograms
/// * `bins_count` - number of histogram bins
pub fn ahe_oklab_rgb(
    src: &Vec<u8>,
    src_stride: u32,
    dst: &mut Vec<u8>,
    dst_stride: u32,
    width: u32,
    height: u32,
    grid_size: ClaheGridSize,
    bins_count: usize,
) -> (r: Result<(), EqualizeError>)
    ensures
        final(dst)@.len() == old(dst)@.len(),
        r.is_err() ==> final(dst)@ == old(dst)@,
        r == entry_outcome(
            src@.len() as int,
            src_stride,
            old(dst)@.len() as int,
            dst_stride,
            width,
            height,
            Some(grid_size),
            bins_count,
            PixelLayout::Rgb,
        ),
        r.is_ok() ==> forall|j: int|
            0 <= j < old(dst)@.len() && !crate::layout::rgb_byte_pos(
                dst_stride as nat,
                width as nat,
                height as nat,
                PixelLayout::Rgb,
                j,
            ) && !crate::layout::alpha_byte_pos(
                dst_stride as nat,
                width as nat,
                height as nat,
                PixelLayout::Rgb,
                j,
            ) ==> final(dst)@[j] == old(dst)@[j],
        r.is_ok() ==> forall|j: int|
            0 <= j < old(dst)@.len() && crate::layout::alpha_byte_pos(
                dst_stride as nat,
                width as nat,
                height as nat,
                PixelLayout::Rgb,
                j,
            ) ==> final(dst)@[j] == crate::layout::carried_alpha_byte(
                src@,
                src_stride as nat,
                dst_stride as nat,
                width as nat,
                PixelLayout::Rgb,
                j,
            ),
{
    space_pipeline(
        EqualizeSpace::Oklab,
        PixelLayout::Rgb,
        src,
        src_stride,
        dst,
        dst_stride,
        width,
        height,
        None,
        Some(grid_size),
        bins_count,
    )
}

/// Converts the image to Oklab, performs CLAHE on the lightness
/// channel and reverts back into RGBA.
///
/// * `threshold_milli` - clip level in thousandths: `3000` clips each tile
///   histogram at `3.0 * tile_area / bins_count`
/// * `grid_size` - tile grid for the local histograms
/// * `bins_count` - number of histogram bins
pub fn clahe_oklab_rgba(
    src: &Vec<u8>,
    src_stride: u32,
    dst: &mut Vec<u8>,
    dst_stride: u32,
    width: u32,
    height: u32,
    threshold_milli: u64,
    grid_size: ClaheGridSize,
    bins_count: usize,
) -> (r: Result<(), EqualizeError>)
    ensures
        final(dst)@.len() == old(dst)@.len(),
        r.is_err() ==> final(dst)@ == old(dst)@,
        r == entry_outcome(
            src@.len() as int,
            src_stride,
            old(dst)@.len() as int,
            dst_stride,
            width,
            height,
            Some(grid_size),
            bins_count,
            PixelLayout::Rgba,
        ),
        r.is_ok() ==> forall|j: int|
            0 <= j < old(dst)@.len() && !crate::layout::rgb_byte_pos(
                dst_stride as nat,
                width as nat,
                height as nat,
                PixelLayout::Rgba,
                j,
            ) && !crate::layout::alpha_byte_pos(
                dst_stride as nat,
                width as nat,
                height as nat,
                PixelLayout::Rgba,
                j,
            ) ==> final(dst)@[j] == old(dst)@[j],
        r.is_ok() ==> forall|j: int|
            0 <= j < old(dst)@.len() && crate::layout::alpha_byte_pos(
                dst_stride as nat,
                width as nat,
                height as nat,
                PixelLayout::Rgba,
                j,
            ) ==> final(dst)@[j] == crate::layout::carried_alpha_byte(
                src@,
                src_stride as nat,
                dst_stride as nat,
                width as nat,
                PixelLayout::Rgba,
                j,
            ),
{
    space_pipeline(
        EqualizeSpace::Oklab,
        PixelLayout::Rgba,
        src,
        src_stride,
        dst,
        dst_stride,
        width,
        height,
        Some(threshold_milli),
        Some(grid_size),
        bins_count,
    )
}

/// Converts the image to Oklab, performs AHE on the lightness channel
/// and reverts back into RGBA.
///
/// * `grid_size` - tile grid for the local histograms
/// * `bins_count` - number of histogram bins
pub fn ahe_oklab_rgba(
    src: &Vec<u8>,
    src_stride: u32,
    dst: &mut Vec<u8>,
    dst_stride: u32,
    width: u32,
    height: u32,
    grid_size: ClaheGridSize,
    bins_count: usize,
) -> (r: Result<(), EqualizeError>)
    ensures
        final(dst)@.len() == old(dst)@.len(),
        r.is_err() ==> final(dst)@ == old(dst)@,
        r == entry_outcome(
            src@.len() as int,
            src_stride,
            old(dst)@.len() as int,
            dst_stride,
            width,
            height,
            Some(grid_size),
            bins_count,
            PixelLayout::Rgba,
        ),
        r.is_ok() ==> forall|j: int|
            0 <= j < old(dst)@.len() && !crate::layout::rgb_byte_pos(
                dst_stride as nat,
                width as nat,
                height as nat,
                PixelLayout::Rgba,
                j,
            ) && !crate::layout::alpha_byte_pos(
                dst_stride as nat,
                width as nat,
                height as nat,
                PixelLayout::Rgba,
                j,
            ) ==> final(dst)@[j] == old(dst)@[j],
        r.is_ok() ==> forall|j: int|
            0 <= j < old(dst)@.len() && crate::layout::alpha_byte_pos(
                dst_stride as nat,
                width as nat,
                height as nat,
                PixelLayout::Rgba,
                j,
            ) ==> final(dst)@[j] == crate::layout::carried_alpha_byte(
                src@,
                src_stride as nat,
                dst_stride as nat,
                width as nat,
                PixelLayout::Rgba,
                j,
            ),
{
    space_pipeline(
        EqualizeSpace::Oklab,
        PixelLayout::Rgba,
        src,
        src_stride,
        dst,
        dst_stride,
        width,
        height,
        None,
        Some(grid_size),
        bins_count,
    )
}

/// Converts the image to Oklab, performs CLAHE on the lightness
/// channel and reverts back into BGRA.
///
/// * `threshold_milli` - clip level in thousandths: `3000` clips each tile
///   histogram at `3.0 * tile_area / bins_count`
/// * `grid_size` - tile grid for the local histograms
/// * `bins_count` - number of histogram bins
pub fn clahe_oklab_bgra(
    src: &Vec<u8>,
    src_stride: u32,
    dst: &mut Vec<u8>,
    dst_stride: u32,
    width: u32,
    height: u32,
    threshold_milli: u64,
    grid_size: ClaheGridSize,
    bins_count: usize,
) -> (r: Result<(), EqualizeError>)
    ensures
        final(dst)@.len() == old(dst)@.len(),
        r.is_err() ==> final(dst)@ == old(dst)@,
        r == entry_outcome(
            src@.len() as int,
            src_stride,
            old(dst)@.len() as int,
            dst_stride,
            width,
            height,
            Some(grid_size),
            bins_count,
            PixelLayout::Bgra,
        ),
        r.is_ok() ==> forall|j: int|
            0 <= j < old(dst)@.len() && !crate::layout::rgb_byte_pos(
                dst_stride as nat,
                width as nat,
                height as nat,
                PixelLayout::Bgra,
                j,
            ) && !crate::layout::alpha_byte_pos(
                dst_stride as nat,
                width as nat,
                height as nat,
                PixelLayout::Bgra,
                j,
            ) ==> final(dst)@[j] == old(dst)@[j],
        r.is_ok() ==> forall|j: int|
            0 <= j < old(dst)@.len() && crate::layout::alpha_byte_pos(
                dst_stride as nat,
                width as nat,
                height as nat,
                PixelLayout::Bgra,
                j,
            ) ==> final(dst)@[j] == crate::layout::carried_alpha_byte(
                src@,
                src_stride as nat,
                dst_stride as nat,
                width as nat,
                PixelLayout::Bgra,
                j,
            ),
{
    space_pipeline(
        EqualizeSpace::Oklab,
        PixelLayout::Bgra,
        src,
        src_stride,
        dst,
        dst_stride,
        width,
        height,
        Some(threshold_milli),
        Some(grid_size),
        bins_count,
    )
}

/// Converts the image to Oklab, performs AHE on the lightness channel
/// and reverts back into BGRA.
///
/// * `grid_size` - tile grid for the local histograms
/// * `bins_count` - number of histogram bins
pub fn ahe_oklab_bgra(
    src: &Vec<u8>,
    src_stride: u32,
    dst: &mut Vec<u8>,
    dst_stride: u32,
    width: u32,
    height: u32,
    grid_size: ClaheGridSize,
    bins_count: usize,
) -> (r: Result<(), EqualizeError>)
    ensures
        final(dst)@.len() == old(dst)@.len(),
        r.is_err() ==> final(dst)@ == old(dst)@,
        r == entry_outcome(
            src@.len() as int,
            src_stride,
            old(dst)@.len() as int,
            dst_stride,
            width,
            height,
            Some(grid_size),
            bins_count,
            PixelLayout::Bgra,
        ),
        r.is_ok() ==> forall|j: int|
            0 <= j < old(dst)@.len() && !crate::layout::rgb_byte_pos(
                dst_stride as nat,
                width as nat,
                height as nat,
                PixelLayout::Bgra,
                j,
            ) && !crate::layout::alpha_byte_pos(
                dst_stride as nat,
                width as nat,
                height as nat,
                PixelLayout::Bgra,
                j,
            ) ==> final(dst)@[j] == old(dst)@[j],
        r.is_ok() ==> forall|j: int|
            0 <= j < old(dst)@.len() && crate::layout::alpha_byte_pos(
                dst_stride as nat,
                width as nat,
                height as nat,
                PixelLayout::Bgra,
                j,
            ) ==> final(dst)@[j] == crate::layout::carried_alpha_byte(
                src@,
                src_stride as nat,
                dst_stride as nat,
                width as nat,
                PixelLayout::Bgra,
                j,
            ),
{
    space_pipeline(
        EqualizeSpace::Oklab,
        PixelLayout::Bgra,
        src,
        src_stride,
        dst,
        dst_stride,
        width,
        height,
        None,
        Some(grid_size),
        bins_count,
    )
}

/// Converts the image to Oklch, performs CLAHE on the lightness
/// channel and reverts back into RGB.
///
/// * `threshold_milli` - clip level in thousandths: `3000` clips each tile
///   histogram at `3.0 * tile_area / bins_count`
/// * `grid_size` - tile grid for the local histograms
/// * `bins_count` - number of histogram bins
pub fn clahe_oklch_rgb(
    src: &Vec<u8>,
    src_stride: u32,
    dst: &mut Vec<u8>,
    dst_stride: u32,
    width: u32,
    height: u32,
    threshold_milli: u64,
    grid_size: ClaheGridSize,
    bins_count: usize,
) -> (r: Result<(), EqualizeError>)
    ensures
        final(dst)@.len() == old(dst)@.len(),
        r.is_err() ==> final(dst)@ == old(dst)@,
        r == entry_outcome(
            src@.len() as int,
            src_stride,
            old(dst)@.len() as int,
            dst_stride,
            width,
            height,
            Some(grid_size),
            bins_count,
            PixelLayout::Rgb,
        ),
        r.is_ok() ==> forall|j: int|
            0 <= j < old(dst)@.len() && !crate::layout::rgb_byte_pos(
                dst_stride as nat,
                width as nat,
                height as nat,
                PixelLayout::Rgb,
                j,
            ) && !crate::layout::alpha_byte_pos(
                dst_stride as nat,
                width as nat,
                height as nat,
                PixelLayout::Rgb,
                j,
            ) ==> final(dst)@[j] == old(dst)@[j],
        r.is_ok() ==> forall|j: int|
            0 <= j < old(dst)@.len() && crate::layout::alpha_byte_pos(
                dst_stride as nat,
                width as nat,
                height as nat,
                PixelLayout::Rgb,
                j,
            ) ==> final(dst)@[j] == crate::layout::carried_alpha_byte(
                src@,
                src_stride as nat,
                dst_stride as nat,
                width as nat,
                PixelLayout::Rgb,
                j,
            ),
{
    space_pipeline(
        EqualizeSpace::Oklch,
        PixelLayout::Rgb,
        src,
        src_stride,
        dst,
        dst_stride,
        width,
        height,
        Some(threshold_milli),
        Some(grid_size),
        bins_count,
    )
}

/// Converts the image to Oklch, performs AHE on the lightness channel
/// and reverts back into RGB.
///
/// * `grid_size` - tile grid for the local histograms
/// * `bins_count` - number of histogram bins
pub fn ahe_oklch_rgb(
    src: &Vec<u8>,
    src_stride: u32,
    dst: &mut Vec<u8>,
    dst_stride: u32,
    width: u32,
    height: u32,
    grid_size: ClaheGridSize,
    bins_count: usize,
) -> (r: Result<(), EqualizeError>)
    ensures
        final(dst)@.len() == old(dst)@.len(),
        r.is_err() ==> final(dst)@ == old(dst)@,
        r == entry_outcome(
            src@.len() as int,
            src_stride,
            old(dst)@.len() as int,
            dst_stride,
            width,
            height,
            Some(grid_size),
            bins_count,
            PixelLayout::Rgb,
        ),
        r.is_ok() ==> forall|j: int|
            0 <= j < old(dst)@.len() && !crate::layout::rgb_byte_pos(
                dst_stride as nat,
                width as nat,
                height as nat,
                PixelLayout::Rgb,
                j,
            ) && !crate::layout::alpha_byte_pos(
                dst_stride as nat,
                width as nat,
                height as nat,
                PixelLayout::Rgb,
                j,
            ) ==> final(dst)@[j] == old(dst)@[j],
        r.is_ok() ==> forall|j: int|
            0 <= j < old(dst)@.len() && crate::layout::alpha_byte_pos(
                dst_stride as nat,
                width as nat,
                height as nat,
                PixelLayout::Rgb,
                j,
            ) ==> final(dst)@[j] == crate::layout::carried_alpha_byte(
                src@,
                src_stride as nat,
                dst_stride as nat,
                width as nat,
                PixelLayout::Rgb,
                j,
            ),
{
    space_pipeline(
        EqualizeSpace::Oklch,
        PixelLayout::Rgb,
        src,
        src_stride,
        dst,
        dst_stride,
        width,
        height,
        None,
        Some(grid_size),
        bins_count,
    )
}

/// Converts the image to Oklch, performs CLAHE on the lightness
/// channel and reverts back into RGBA.
///
/// * `threshold_milli` - clip level in thousandths: `3000` clips each tile
///   histogram at `3.0 * tile_area / bins_count`
/// * `grid_size` - tile grid for the local histograms
/// * `bins_count` - number of histogram bins
pub fn clahe_oklch_rgba(
    src: &Vec<u8>,
    src_stride: u32,
    dst: &mut Vec<u8>,
    dst_stride: u32,
    width: u32,
    height: u32,
    threshold_milli: u64,
    grid_size: ClaheGridSize,
    bins_count: usize,
) -> (r: Result<(), EqualizeError>)
    ensures
        final(dst)@.len() == old(dst)@.len(),
        r.is_err() ==> final(dst)@ == old(dst)@,
        r == entry_outcome(
            src@.len() as int,
            src_stride,
            old(dst)@.len() as int,
            dst_stride,
            width,
            height,
            Some(grid_size),
            bins_count,
            PixelLayout::Rgba,
        ),
        r.is_ok() ==> forall|j: int|
            0 <= j < old(dst)@.len() && !crate::layout::rgb_byte_pos(
                dst_stride as nat,
                width as nat,
                height as nat,
                PixelLayout::Rgba,
                j,
            ) && !crate::layout::alpha_byte_pos(
                dst_stride as nat,
                width as nat,
                height as nat,
                PixelLayout::Rgba,
                j,
            ) ==> final(dst)@[j] == old(dst)@[j],
        r.is_ok() ==> forall|j: int|
            0 <= j < old(dst)@.len() && crate::layout::alpha_byte_pos(
                dst_stride as nat,
                width as nat,
                height as nat,
                PixelLayout::Rgba,
                j,
            ) ==> final(dst)@[j] == crate::layout::carried_alpha_byte(
                src@,
                src_stride as nat,
                dst_stride as nat,
                width as nat,
                PixelLayout::Rgba,
                j,
            ),
{
    space_pipeline(
        EqualizeSpace::Oklch,
        PixelLayout::Rgba,
        src,
        src_stride,
        dst,
        dst_stride,
        width,
        height,
        Some(threshold_milli),
        Some(grid_size),
        bins_count,
    )
}

/// Converts the image to Oklch, performs AHE on the lightness channel
/// and reverts back into RGBA.
///
/// * `grid_size` - tile grid for the local histograms
/// * `bins_count` - number of histogram bins
pub fn ahe_oklch_rgba(
    src: &Vec<u8>,
    src_stride: u32,
    dst: &mut Vec<u8>,
    dst_stride: u32,
    width: u32,
    height: u32,
    grid_size: ClaheGridSize,
    bins_count: usize,
) -> (r: Result<(), EqualizeError>)
    ensures
        final(dst)@.len() == old(dst)@.len(),
        r.is_err() ==> final(dst)@ == old(dst)@,
        r == entry_outcome(
            src@.len() as int,
            src_stride,
            old(dst)@.len() as int,
            dst_stride,
            width,
            height,
            Some(grid_size),
            bins_count,
            PixelLayout::Rgba,
        ),
        r.is_ok() ==> forall|j: int|
            0 <= j < old(dst)@.len() && !crate::layout::rgb_byte_pos(
                dst_stride as nat,
                width as nat,
                height as nat,
                PixelLayout::Rgba,
                j,
            ) && !crate::layout::alpha_byte_pos(
                dst_stride as nat,
                width as nat,
                height as nat,
                PixelLayout::Rgba,
                j,
            ) ==> final(dst)@[j] == old(dst)@[j],
        r.is_ok() ==> forall|j: int|
            0 <= j < old(dst)@.len() && crate::layout::alpha_byte_pos(
                dst_stride as nat,
                width as nat,
                height as nat,
                PixelLayout::Rgba,
                j,
            ) ==> final(dst)@[j] == crate::layout::carried_alpha_byte(
                src@,
                src_stride as nat,
                dst_stride as nat,
                width as nat,
                PixelLayout::Rgba,
                j,
            ),
{
    space_pipeline(
        EqualizeSpace::Oklch,
        PixelLayout::Rgba,
        src,
        src_stride,
        dst,
        dst_stride,
        width,
        height,
        None,
        Some(grid_size),
        bins_count,
    )
}

/// Converts the image to Oklch, performs CLAHE on the lightness
/// channel and reverts back into BGRA.
///
/// * `threshold_milli` - clip level in thousandths: `3000` clips each tile
///   histogram at `3.0 * tile_area / bins_count`
/// * `grid_size` - tile grid for the local histograms
/// * `bins_count` - number of histogram bins
pub fn clahe_oklch_bgra(
    src: &Vec<u8>,
    src_stride: u32,
    dst: &mut Vec<u8>,
    dst_stride: u32,
    width: u32,
    height: u32,
    threshold_milli: u64,
    grid_size: ClaheGridSize,
    bins_count: usize,
) -> (r: Result<(), EqualizeError>)
    ensures
        final(dst)@.len() == old(dst)@.len(),
        r.is_err() ==> final(dst)@ == old(dst)@,
        r == entry_outcome(
            src@.len() as int,
            src_stride,
            old(dst)@.len() as int,
            dst_stride,
            width,
            height,
            Some(grid_size),
            bins_count,
            PixelLayout::Bgra,
        ),
        r.is_ok() ==> forall|j: int|
            0 <= j < old(dst)@.len() && !crate::layout::rgb_byte_pos(
                dst_stride as nat,
                width as nat,
                height as nat,
                PixelLayout::Bgra,
                j,
            ) && !crate::layout::alpha_byte_pos(
                dst_stride as nat,
                width as nat,
                height as nat,
                PixelLayout::Bgra,
                j,
            ) ==> final(dst)@[j] == old(dst)@[j],
        r.is_ok() ==> forall|j: int|
            0 <= j < old(dst)@.len() && crate::layout::alpha_byte_pos(
                dst_stride as nat,
                width as nat,
                height as nat,
                PixelLayout::Bgra,
                j,
            ) ==> final(dst)@[j] == crate::layout::carried_alpha_byte(
                src@,
                src_stride as nat,
                dst_stride as nat,
                width as nat,
                PixelLayout::Bgra,
                j,
            ),
{
    space_pipeline(
        EqualizeSpace::Oklch,
        PixelLayout::Bgra,
        src,
        src_stride,
        dst,
        dst_stride,
        width,
        height,
        Some(threshold_milli),
        Some(grid_size),
        bins_count,
    )
}

/// Converts the image to Oklch, performs AHE on the lightness channel
/// and reverts back into BGRA.
///
/// * `grid_size` - tile grid for the local histograms
/// * `bins_count` - number of histogram bins
pub fn ahe_oklch_bgra(
    src: &Vec<u8>,
    src_stride: u32,
    dst: &mut Vec<u8>,
    dst_stride: u32,
    width: u32,
    height: u32,
    grid_size: ClaheGridSize,
    bins_count: usize,
) -> (r: Result<(), EqualizeError>)
    ensures
        final(dst)@.len() == old(dst)@.len(),
        r.is_err() ==> final(dst)@ == old(dst)@,
        r == entry_outcome(
            src@.len() as int,
            src_stride,
            old(dst)@.len() as int,
            dst_stride,
            width,
            height,
            Some(grid_size),
            bins_count,
            PixelLayout::Bgra,
        ),
        r.is_ok() ==> forall|j: int|
            0 <= j < old(dst)@.len() && !crate::layout::rgb_byte_pos(
                dst_stride as nat,
                width as nat,
                height as nat,
                PixelLayout::Bgra,
                j,
            ) && !crate::layout::alpha_byte_pos(
                dst_stride as nat,
                width as nat,
                height as nat,
                PixelLayout::Bgra,
                j,
            ) ==> final(dst)@[j] == old(dst)@[j],
        r.is_ok() ==> forall|j: int|
            0 <= j < old(dst)@.len() && crate::layout::alpha_byte_pos(
                dst_stride as nat,
                width as nat,
                height as nat,
                PixelLayout::Bgra,
                j,
            ) ==> final(dst)@[j] == crate::layout::carried_alpha_byte(
                src@,
                src_stride as nat,
                dst_stride as nat,
                width as nat,
                PixelLayout::Bgra,
                j,
            ),
{
    space_pipeline(
        EqualizeSpace::Oklch,
        PixelLayout::Bgra,
        src,
        src_stride,
        dst,
        dst_stride,
        width,
        height,
        None,
        Some(grid_size),
        bins_count,
    )
}

/// Converts the image to CIE LAB, performs global histogram equalization
/// on the lightness channel and reverts back into RGB.
///
/// * `bins_count` - number of histogram bins
pub fn hist_equal_lab_rgb(
    src: &Vec<u8>,
    src_stride: u32,
    dst: &mut Vec<u8>,
    dst_stride: u32,
    width: u32,
    height: u32,
    bins_count: usize,
) -> (r: Result<(), EqualizeError>)
    ensures
        final(dst)@.len() == old(dst)@.len(),
        r.is_err() ==> final(dst)@ == old(dst)@,
        r == entry_outcome(
            src@.len() as int,
            src_stride,
            old(dst)@.len() as int,
            dst_stride,
            width,
            height,
            None::<ClaheGridSize>,
            bins_count,
            PixelLayout::Rgb,
        ),
        r.is_ok() ==> forall|j: int|
            0 <= j < old(dst)@.len() && !crate::layout::rgb_byte_pos(
                dst_stride as nat,
                width as nat,
                height as nat,
                PixelLayout::Rgb,
                j,
            ) && !crate::layout::alpha_byte_pos(
                dst_stride as nat,
                width as nat,
                height as nat,
                PixelLayout::Rgb,
                j,
            ) ==> final(dst)@[j] == old(dst)@[j],
        r.is_ok() ==> forall|j: int|
            0 <= j < old(dst)@.len() && crate::layout::alpha_byte_pos(
                dst_stride as nat,
                width as nat,
                height as nat,
                PixelLayout::Rgb,
                j,
            ) ==> final(dst)@[j] == crate::layout::carried_alpha_byte(
                src@,
                src_stride as nat,
                dst_stride as nat,
                width as nat,
                PixelLayout::Rgb,
                j,
            ),
{
    space_pipeline(
        EqualizeSpace::Lab,
        PixelLayout::Rgb,
        src,
        src_stride,
        dst,
        dst_stride,
        width,
        height,
        None,
        None,
        bins_count,
    )
}

/// Converts the image to CIE LAB, performs global histogram equalization
/// on the lightness channel and reverts back into RGBA.
///
/// * `bins_count` - number of histogram bins
pub fn hist_equal_lab_rgba(
    src: &Vec<u8>,
    src_stride: u32,
    dst: &mut Vec<u8>,
    dst_stride: u32,
    width: u32,
    height: u32,
    bins_count: usize,
) -> (r: Result<(), EqualizeError>)
    ensures
        final(dst)@.len() == old(dst)@.len(),
        r.is_err() ==> final(dst)@ == old(dst)@,
        r == entry_outcome(
            src@.len() as int,
            src_stride,
            old(dst)@.len() as int,
            dst_stride,
            width,
            height,
            None::<ClaheGridSize>,
            bins_count,
            PixelLayout::Rgba,
        ),
        r.is_ok() ==> forall|j: int|
            0 <= j < old(dst)@.len() && !crate::layout::rgb_byte_pos(
                dst_stride as nat,
                width as nat,
                height as nat,
                PixelLayout::Rgba,
                j,
            ) && !crate::layout::alpha_byte_pos(
                dst_stride as nat,
                width as nat,
                height as nat,
                PixelLayout::Rgba,
                j,
            ) ==> final(dst)@[j] == old(dst)@[j],
        r.is_ok() ==> forall|j: int|
            0 <= j < old(dst)@.len() && crate::layout::alpha_byte_pos(
                dst_stride as nat,
                width as nat,
                height as nat,
                PixelLayout::Rgba,
                j,
            ) ==> final(dst)@[j] == crate::layout::carried_alpha_byte(
                src@,
                src_stride as nat,
                dst_stride as nat,
                width as nat,
                PixelLayout::Rgba,
                j,
            ),
{
    space_pipeline(
        EqualizeSpace::Lab,
        PixelLayout::Rgba,
        src,
        src_stride,
        dst,
        dst_stride,
        width,
        height,
        None,
        None,
        bins_count,
    )
}

/// Converts the image to CIE LAB, performs global histogram equalization
/// on the lightness channel and reverts back into BGRA.
///
/// * `bins_count` - number of histogram bins
pub fn hist_equal_lab_bgra(
    src: &Vec<u8>,
    src_stride: u32,
    dst: &mut Vec<u8>,
    dst_stride: u32,
    width: u32,
    height: u32,
    bins_count: usize,
) -> (r: Result<(), EqualizeError>)
    ensures
        final(dst)@.len() == old(dst)@.len(),
        r.is_err() ==> final(dst)@ == old(dst)@,
        r == entry_outcome(
            src@.len() as int,
            src_stride,
            old(dst)@.len() as int,
            dst_stride,
            width,
            height,
            None::<ClaheGridSize>,
            bins_count,
            PixelLayout::Bgra,
        ),
        r.is_ok() ==> forall|j: int|
            0 <= j < old(dst)@.len() && !crate::layout::rgb_byte_pos(
                dst_stride as nat,
                width as nat,
                height as nat,
                PixelLayout::Bgra,
                j,
            ) && !crate::layout::alpha_byte_pos(
                dst_stride as nat,
                width as nat,
                height as nat,
                PixelLayout::Bgra,
                j,
            ) ==> final(dst)@[j] == old(dst)@[j],
        r.is_ok() ==> forall|j: int|
            0 <= j < old(dst)@.len() && crate::layout::alpha_byte_pos(
                dst_stride as nat,
                width as nat,
                height as nat,
                PixelLayout::Bgra,
                j,
            ) ==> final(dst)@[j] == crate::layout::carried_alpha_byte(
                src@,
                src_stride as nat,
                dst_stride as nat,
                width as nat,
                PixelLayout::Bgra,
                j,
            ),
{
    space_pipeline(
        EqualizeSpace::Lab,
        PixelLayout::Bgra,
        src,
        src_stride,
        dst,
        dst_stride,
        width,
        height,
        None,
        None,
        bins_count,
    )
}

/// Converts the image to CIE LUV, performs global histogram equalization
/// on the lightness channel and reverts back into RGB.
///
/// * `bins_count` - number of histogram bins
pub fn hist_equal_luv_rgb(
    src: &Vec<u8>,
    src_stride: u32,
    dst: &mut Vec<u8>,
    dst_stride: u32,
    width: u32,
    height: u32,
    bins_count: usize,
) -> (r: Result<(), EqualizeError>)
    ensures
        final(dst)@.len() == old(dst)@.len(),
        r.is_err() ==> final(dst)@ == old(dst)@,
        r == entry_outcome(
            src@.len() as int,
            src_stride,
            old(dst)@.len() as int,
            dst_stride,
            width,
            height,
            None::<ClaheGridSize>,
            bins_count,
            PixelLayout::Rgb,
        ),
        r.is_ok() ==> forall|j: int|
            0 <= j < old(dst)@.len() && !crate::layout::rgb_byte_pos(
                dst_stride as nat,
                width as nat,
                height as nat,
                PixelLayout::Rgb,
                j,
            ) && !crate::layout::alpha_byte_pos(
                dst_stride as nat,
                width as nat,
                height as nat,
                PixelLayout::Rgb,
                j,
            ) ==> final(dst)@[j] == old(dst)@[j],
        r.is_ok() ==> forall|j: int|
            0 <= j < old(dst)@.len() && crate::layout::alpha_byte_pos(
                dst_stride as nat,
                width as nat,
                height as nat,
                PixelLayout::Rgb,
                j,
            ) ==> final(dst)@[j] == crate::layout::carried_alpha_byte(
                src@,
                src_stride as nat,
                dst_stride as nat,
                width as nat,
                PixelLayout::Rgb,
                j,
            ),
{
    space_pipeline(
        EqualizeSpace::Luv,
        PixelLayout::Rgb,
        src,
        src_stride,
        dst,
        dst_stride,
        width,
        height,
        None,
        None,
        bins_count,
    )
}

/// Converts the image to CIE LUV, performs global histogram equalization
/// on the lightness channel and reverts back into RGBA.
///
/// * `bins_count` - number of histogram bins
pub fn hist_equal_luv_rgba(
    src: &Vec<u8>,
    src_stride: u32,
    dst: &mut Vec<u8>,
    dst_stride: u32,
    width: u32,
    height: u32,
    bins_count: usize,
) -> (r: Result<(), EqualizeError>)
    ensures
        final(dst)@.len() == old(dst)@.len(),
        r.is_err() ==> final(dst)@ == old(dst)@,
        r == entry_outcome(
            src@.len() as int,
            src_stride,
            old(dst)@.len() as int,
            dst_stride,
            width,
            height,
            None::<ClaheGridSize>,
            bins_count,
            PixelLayout::Rgba,
        ),
        r.is_ok() ==> forall|j: int|
            0 <= j < old(dst)@.len() && !crate::layout::rgb_byte_pos(
                dst_stride as nat,
                width as nat,
                height as nat,
                PixelLayout::Rgba,
                j,
            ) && !crate::layout::alpha_byte_pos(
                dst_stride as nat,
                width as nat,
                height as nat,
                PixelLayout::Rgba,
                j,
            ) ==> final(dst)@[j] == old(dst)@[j],
        r.is_ok() ==> forall|j: int|
            0 <= j < old(dst)@.len() && crate::layout::alpha_byte_pos(
                dst_stride as nat,
                width as nat,
                height as nat,
                PixelLayout::Rgba,
                j,
            ) ==> final(dst)@[j] == crate::layout::carried_alpha_byte(
                src@,
                src_stride as nat,
                dst_stride as nat,
                width as nat,
                PixelLayout::Rgba,
                j,
            ),
{
    space_pipeline(
        EqualizeSpace::Luv,
        PixelLayout::Rgba,
        src,
        src_stride,
        dst,
        dst_stride,
        width,
        height,
        None,
        None,
        bins_count,
    )
}

/// Converts the image to CIE LUV, performs global histogram equalization
/// on the lightness channel and reverts back into BGRA.
///
/// * `bins_count` - number of histogram bins
pub fn hist_equal_luv_bgra(
    src: &Vec<u8>,
    src_stride: u32,
    dst: &mut Vec<u8>,
    dst_stride: u32,
    width: u32,
    height: u32,
    bins_count: usize,
) -> (r: Result<(), EqualizeError>)
    ensures
        final(dst)@.len() == old(dst)@.len(),
        r.is_err() ==> final(dst)@ == old(dst)@,
        r == entry_outcome(
            src@.len() as int,
            src_stride,
            old(dst)@.len() as int,
            dst_stride,
            width,
            height,
            None::<ClaheGridSize>,
            bins_count,
            PixelLayout::Bgra,
        ),
        r.is_ok() ==> forall|j: int|
            0 <= j < old(dst)@.len() && !crate::layout::rgb_byte_pos(
                dst_stride as nat,
                width as nat,
                height as nat,
                PixelLayout::Bgra,
                j,
            ) && !crate::layout::alpha_byte_pos(
                dst_stride as nat,
                width as nat,
                height as nat,
                PixelLayout::Bgra,
                j,
            ) ==> final(dst)@[j] == old(dst)@[j],
        r.is_ok() ==> forall|j: int|
            0 <= j < old(dst)@.len() && crate::layout::alpha_byte_pos(
                dst_stride as nat,
                width as nat,
                height as nat,
                PixelLayout::Bgra,
                j,
            ) ==> final(dst)@[j] == crate::layout::carried_alpha_byte(
                src@,
                src_stride as nat,
                dst_stride as nat,
                width as nat,
                PixelLayout::Bgra,
                j,
            ),
{
    space_pipeline(
        EqualizeSpace::Luv,
        PixelLayout::Bgra,
        src,
        src_stride,
        dst,
        dst_stride,
        width,
        height,
        None,
        None,
        bins_count,
    )
}

/// Converts the image to YCgCo, performs CLAHE on the luma channel and
/// reverts back into RGB. The luma plane is 8-bit, so this path always
/// uses 256 histogram bins.
///
/// * `threshold_milli` - clip level in thousandths: `3000` clips each tile
///   histogram at `3.0 * tile_area / 256`
/// * `grid_size` - tile grid for the local histograms
pub fn clahe_yuv_rgb(
    src: &Vec<u8>,
    src_stride: u32,
    dst: &mut Vec<u8>,
    dst_stride: u32,
    width: u32,
    height: u32,
    threshold_milli: u64,
    grid_size: ClaheGridSize,
) -> (r: Result<(), EqualizeError>)
    ensures
        final(dst)@.len() == old(dst)@.len(),
        r.is_err() ==> final(dst)@ == old(dst)@,
        r == entry_outcome(
            src@.len() as int,
            src_stride,
            old(dst)@.len() as int,
            dst_stride,
            width,
            height,
            Some(grid_size),
            256,
            PixelLayout::Rgb,
        ),
        r.is_ok() ==> forall|j: int|
            0 <= j < old(dst)@.len() && !crate::layout::rgb_byte_pos(
                dst_stride as nat,
                width as nat,
                height as nat,
                PixelLayout::Rgb,
                j,
            ) && !crate::layout::alpha_byte_pos(
                dst_stride as nat,
                width as nat,
                height as nat,
                PixelLayout::Rgb,
                j,
            ) ==> final(dst)@[j] == old(dst)@[j],
        r.is_ok() ==> forall|j: int|
            0 <= j < old(dst)@.len() && crate::layout::alpha_byte_pos(
                dst_stride as nat,
                width as nat,
                height as nat,
                PixelLayout::Rgb,
                j,
            ) ==> final(dst)@[j] == crate::layout::carried_alpha_byte(
                src@,
                src_stride as nat,
                dst_stride as nat,
                width as nat,
                PixelLayout::Rgb,
                j,
            ),
{
    ycgco_pipeline(
        PixelLayout::Rgb,
        src,
        src_stride,
        dst,
        dst_stride,
        width,
        height,
        Some(threshold_milli),
        Some(grid_size),
    )
}

/// Converts the image to YCgCo, performs AHE on the luma channel and
/// reverts back into RGB. The luma plane is 8-bit, so this path always
/// uses 256 histogram bins.
///
/// * `grid_size` - tile grid for the local histograms
pub fn ahe_yuv_rgb(
    src: &Vec<u8>,
    src_stride: u32,
    dst: &mut Vec<u8>,
    dst_stride: u32,
    width: u32,
    height: u32,
    grid_size: ClaheGridSize,
) -> (r: Result<(), EqualizeError>)
    ensures
        final(dst)@.len() == old(dst)@.len(),
        r.is_err() ==> final(dst)@ == old(dst)@,
        r == entry_outcome(
            src@.len() as int,
            src_stride,
            old(dst)@.len() as int,
            dst_stride,
            width,
            height,
            Some(grid_size),
            256,
            PixelLayout::Rgb,
        ),
        r.is_ok() ==> forall|j: int|
            0 <= j < old(dst)@.len() && !crate::layout::rgb_byte_pos(
                dst_stride as nat,
                width as nat,
                height as nat,
                PixelLayout::Rgb,
                j,
            ) && !crate::layout::alpha_byte_pos(
                dst_stride as nat,
                width as nat,
                height as nat,
                PixelLayout::Rgb,
                j,
            ) ==> final(dst)@[j] == old(dst)@[j],
        r.is_ok() ==> forall|j: int|
            0 <= j < old(dst)@.len() && crate::layout::alpha_byte_pos(
                dst_stride as nat,
                width as nat,
                height as nat,
                PixelLayout::Rgb,
                j,
            ) ==> final(dst)@[j] == crate::layout::carried_alpha_byte(
                src@,
                src_stride as nat,
                dst_stride as nat,
                width as nat,
                PixelLayout::Rgb,
                j,
            ),
{
    ycgco_pipeline(
        PixelLayout::Rgb,
        src,
        src_stride,
        dst,
        dst_stride,
        width,
        height,
        None,
        Some(grid_size),
    )
}

/// Converts the image to YCgCo, performs global histogram equalization on
/// the luma channel and reverts back into RGB. The luma plane is 8-bit,
/// so this path always uses 256 histogram bins.
pub fn hist_equal_yuv_rgb(
    src: &Vec<u8>,
    src_stride: u32,
    dst: &mut Vec<u8>,
    dst_stride: u32,
    width: u32,
    height: u32,
) -> (r: Result<(), EqualizeError>)
    ensures
        final(dst)@.len() == old(dst)@.len(),
        r.is_err() ==> final(dst)@ == old(dst)@,
        r == entry_outcome(
            src@.len() as int,
            src_stride,
            old(dst)@.len() as int,
            dst_stride,
            width,
            height,
            None::<ClaheGridSize>,
            256,
            PixelLayout::Rgb,
        ),
        r.is_ok() ==> forall|j: int|
            0 <= j < old(dst)@.len() && !crate::layout::rgb_byte_pos(
                dst_stride as nat,
                width as nat,
                height as nat,
                PixelLayout::Rgb,
                j,
            ) && !crate::layout::alpha_byte_pos(
                dst_stride as nat,
                width as nat,
                height as nat,
                PixelLayout::Rgb,
                j,
            ) ==> final(dst)@[j] == old(dst)@[j],
        r.is_ok() ==> forall|j: int|
            0 <= j < old(dst)@.len() && crate::layout::alpha_byte_pos(
                dst_stride as nat,
                width as nat,
                height as nat,
                PixelLayout::Rgb,
                j,
            ) ==> final(dst)@[j] == crate::layout::carried_alpha_byte(
                src@,
                src_stride as nat,
                dst_stride as nat,
                width as nat,
                PixelLayout::Rgb,
                j,
            ),
{
    ycgco_pipeline(
        PixelLayout::Rgb,
        src,
        src_stride,
        dst,
        dst_stride,
        width,
        height,
        None,
        None,
    )
}

/// Converts the image to YCgCo, performs CLAHE on the luma channel and
/// reverts back into RGBA. The luma plane is 8-bit, so this path always
/// uses 256 histogram bins.
///
/// * `threshold_milli` - clip level in thousandths: `3000` clips each tile
///   histogram at `3.0 * tile_area / 256`
/// * `grid_size` - tile grid for the local histograms
pub fn clahe_yuv_rgba(
    src: &Vec<u8>,
    src_stride: u32,
    dst: &mut Vec<u8>,
    dst_stride: u32,
    width: u32,
    height: u32,
    threshold_milli: u64,
    grid_size: ClaheGridSize,
) -> (r: Result<(), EqualizeError>)
    ensures
        final(dst)@.len() == old(dst)@.len(),
        r.is_err() ==> final(dst)@ == old(dst)@,
        r == entry_outcome(
            src@.len() as int,
            src_stride,
            old(dst)@.len() as int,
            dst_stride,
            width,
            height,
            Some(grid_size),
            256,
            PixelLayout::Rgba,
        ),
        r.is_ok() ==> forall|j: int|
            0 <= j < old(dst)@.len() && !crate::layout::rgb_byte_pos(
                dst_stride as nat,
                width as nat,
                height as nat,
                PixelLayout::Rgba,
                j,
            ) && !crate::layout::alpha_byte_pos(
                dst_stride as nat,
                width as nat,
                height as nat,
                PixelLayout::Rgba,
                j,
            ) ==> final(dst)@[j] == old(dst)@[j],
        r.is_ok() ==> forall|j: int|
            0 <= j < old(dst)@.len() && crate::layout::alpha_byte_pos(
                dst_stride as nat,
                width as nat,
                height as nat,
                PixelLayout::Rgba,
                j,
            ) ==> final(dst)@[j] == crate::layout::carried_alpha_byte(
                src@,
                src_stride as nat,
                dst_stride as nat,
                width as nat,
                PixelLayout::Rgba,
                j,
            ),
{
    ycgco_pipeline(
        PixelLayout::Rgba,
        src,
        src_stride,
        dst,
        dst_stride,
        width,
        height,
        Some(threshold_milli),
        Some(grid_size),
    )
}

/// Converts the image to YCgCo, performs AHE on the luma channel and
/// reverts back into RGBA. The luma plane is 8-bit, so this path always
/// uses 256 histogram bins.
///
/// * `grid_size` - tile grid for the local histograms
pub fn ahe_yuv_rgba(
    src: &Vec<u8>,
    src_stride: u32,
    dst: &mut Vec<u8>,
    dst_stride: u32,
    width: u32,
    height: u32,
    grid_size: ClaheGridSize,
) -> (r: Result<(), EqualizeError>)
    ensures
        final(dst)@.len() == old(dst)@.len(),
        r.is_err() ==> final(dst)@ == old(dst)@,
        r == entry_outcome(
            src@.len() as int,
            src_stride,
            old(dst)@.len() as int,
            dst_stride,
            width,
            height,
            Some(grid_size),
            256,
            PixelLayout::Rgba,
        ),
        r.is_ok() ==> forall|j: int|
            0 <= j < old(dst)@.len() && !crate::layout::rgb_byte_pos(
                dst_stride as nat,
                width as nat,
                height as nat,
                PixelLayout::Rgba,
                j,
            ) && !crate::layout::alpha_byte_pos(
                dst_stride as nat,
                width as nat,
                height as nat,
                PixelLayout::Rgba,
                j,
            ) ==> final(dst)@[j] == old(dst)@[j],
        r.is_ok() ==> forall|j: int|
            0 <= j < old(dst)@.len() && crate::layout::alpha_byte_pos(
                dst_stride as nat,
                width as nat,
                height as nat,
                PixelLayout::Rgba,
                j,
            ) ==> final(dst)@[j] == crate::layout::carried_alpha_byte(
                src@,
                src_stride as nat,
                dst_stride as nat,
                width as nat,
                PixelLayout::Rgba,
                j,
            ),
{
    ycgco_pipeline(
        PixelLayout::Rgba,
        src,
        src_stride,
        dst,
        dst_stride,
        width,
        height,
        None,
        Some(grid_size),
    )
}

/// Converts the image to YCgCo, performs global histogram equalization on
/// the luma channel and reverts back into RGBA. The luma plane is 8-bit,
/// so this path always uses 256 histogram bins.
pub fn hist_equal_yuv_rgba(
    src: &Vec<u8>,
    src_stride: u32,
    dst: &mut Vec<u8>,
    dst_stride: u32,
    width: u32,
    height: u32,
) -> (r: Result<(), EqualizeError>)
    ensures
        final(dst)@.len() == old(dst)@.len(),
        r.is_err() ==> final(dst)@ == old(dst)@,
        r == entry_outcome(
            src@.len() as int,
            src_stride,
            old(dst)@.len() as int,
            dst_stride,
            width,
            height,
            None::<ClaheGridSize>,
            256,
            PixelLayout::Rgba,
        ),
        r.is_ok() ==> forall|j: int|
            0 <= j < old(dst)@.len() && !crate::layout::rgb_byte_pos(
                dst_stride as nat,
                width as nat,
                height as nat,
                PixelLayout::Rgba,
                j,
            ) && !crate::layout::alpha_byte_pos(
                dst_stride as nat,
                width as nat,
                height as nat,
                PixelLayout::Rgba,
                j,
            ) ==> final(dst)@[j] == old(dst)@[j],
        r.is_ok() ==> forall|j: int|
            0 <= j < old(dst)@.len() && crate::layout::alpha_byte_pos(
                dst_stride as nat,
                width as nat,
                height as nat,
                PixelLayout::Rgba,
                j,
            ) ==> final(dst)@[j] == crate::layout::carried_alpha_byte(
                src@,
                src_stride as nat,
                dst_stride as nat,
                width as nat,
                PixelLayout::Rgba,
                j,
            ),
{
    ycgco_pipeline(
        PixelLayout::Rgba,
        src,
        src_stride,
        dst,
        dst_stride,
        width,
        height,
        None,
        None,
    )
}

/// Converts the image to YCgCo, performs CLAHE on the luma channel and
/// reverts back into BGRA. The luma plane is 8-bit, so this path always
/// uses 256 histogram bins.
///
/// * `threshold_milli` - clip level in thousandths: `3000` clips each tile
///   histogram at `3.0 * tile_area / 256`
/// * `grid_size` - tile grid for the local histograms
pub fn clahe_yuv_bgra(
    src: &Vec<u8>,
    src_stride: u32,
    dst: &mut Vec<u8>,
    dst_stride: u32,
    width: u32,
    height: u32,
    threshold_milli: u64,
    grid_size: ClaheGridSize,
) -> (r: Result<(), EqualizeError>)
    ensures
        final(dst)@.len() == old(dst)@.len(),
        r.is_err() ==> final(dst)@ == old(dst)@,
        r == entry_outcome(
            src@.len() as int,
            src_stride,
            old(dst)@.len() as int,
            dst_stride,
            width,
            height,
            Some(grid_size),
            256,
            PixelLayout::Bgra,
        ),
        r.is_ok() ==> forall|j: int|
            0 <= j < old(dst)@.len() && !crate::layout::rgb_byte_pos(
                dst_stride as nat,
                width as nat,
                height as nat,
                PixelLayout::Bgra,
                j,
            ) && !crate::layout::alpha_byte_pos(
                dst_stride as nat,
                width as nat,
                height as nat,
                PixelLayout::Bgra,
                j,
            ) ==> final(dst)@[j] == old(dst)@[j],
        r.is_ok() ==> forall|j: int|
            0 <= j < old(dst)@.len() && crate::layout::alpha_byte_pos(
                dst_stride as nat,
                width as nat,
                height as nat,
                PixelLayout::Bgra,
                j,
            ) ==> final(dst)@[j] == crate::layout::carried_alpha_byte(
                src@,
                src_stride as nat,
                dst_stride as nat,
                width as nat,
                PixelLayout::Bgra,
                j,
            ),
{
    ycgco_pipeline(
        PixelLayout::Bgra,
        src,
        src_stride,
        dst,
        dst_stride,
        width,
        height,
        Some(threshold_milli),
        Some(grid_size),
    )
}

/// Converts the image to YCgCo, performs AHE on the luma channel and
/// reverts back into BGRA. The luma plane is 8-bit, so this path always
/// uses 256 histogram bins.
///
/// * `grid_size` - tile grid for the local histograms
pub fn ahe_yuv_bgra(
    src: &Vec<u8>,
    src_stride: u32,
    dst: &mut Vec<u8>,
    dst_stride: u32,
    width: u32,
    height: u32,
    grid_size: ClaheGridSize,
) -> (r: Result<(), EqualizeError>)
    ensures
        final(dst)@.len() == old(dst)@.len(),
        r.is_err() ==> final(dst)@ == old(dst)@,
        r == entry_outcome(
            src@.len() as int,
            src_stride,
            old(dst)@.len() as int,
            dst_stride,
            width,
            height,
            Some(grid_size),
            256,
            PixelLayout::Bgra,
        ),
        r.is_ok() ==> forall|j: int|
            0 <= j < old(dst)@.len() && !crate::layout::rgb_byte_pos(
                dst_stride as nat,
                width as nat,
                height as nat,
                PixelLayout::Bgra,
                j,
            ) && !crate::layout::alpha_byte_pos(
                dst_stride as nat,
                width as nat,
                height as nat,
                PixelLayout::Bgra,
                j,
            ) ==> final(dst)@[j] == old(dst)@[j],
        r.is_ok() ==> forall|j: int|
            0 <= j < old(dst)@.len() && crate::layout::alpha_byte_pos(
                dst_stride as nat,
                width as nat,
                height as nat,
                PixelLayout::Bgra,
                j,
            ) ==> final(dst)@[j] == crate::layout::carried_alpha_byte(
                src@,
                src_stride as nat,
                dst_stride as nat,
                width as nat,
                PixelLayout::Bgra,
                j,
            ),
{
    ycgco_pipeline(
        PixelLayout::Bgra,
        src,
        src_stride,
        dst,
        dst_stride,
        width,
        height,
        None,
        Some(grid_size),
    )
}

/// Converts the image to YCgCo, performs global histogram equalization on
/// the luma channel and reverts back into BGRA. The luma plane is 8-bit,
/// so this path always uses 256 histogram bins.
pub fn hist_equal_yuv_bgra(
    src: &Vec<u8>,
    src_stride: u32,
    dst: &mut Vec<u8>,
    dst_stride: u32,
    width: u32,
    height: u32,
) -> (r: Result<(), EqualizeError>)
    ensures
        final(dst)@.len() == old(dst)@.len(),
        r.is_err() ==> final(dst)@ == old(dst)@,
        r == entry_outcome(
            src@.len() as int,
            src_stride,
            old(dst)@.len() as int,
            dst_stride,
            width,
            height,
            None::<ClaheGridSize>,
            256,
            PixelLayout::Bgra,
        ),
        r.is_ok() ==> forall|j: int|
            0 <= j < old(dst)@.len() && !crate::layout::rgb_byte_pos(
                dst_stride as nat,
                width as nat,
                height as nat,
                PixelLayout::Bgra,
                j,
            ) && !crate::layout::alpha_byte_pos(
                dst_stride as nat,
                width as nat,
                height as nat,
                PixelLayout::Bgra,
                j,
            ) ==> final(dst)@[j] == old(dst)@[j],
        r.is_ok() ==> forall|j: int|
            0 <= j < old(dst)@.len() && crate::layout::alpha_byte_pos(
                dst_stride as nat,
                width as nat,
                height as nat,
                PixelLayout::Bgra,
                j,
            ) ==> final(dst)@[j] == crate::layout::carried_alpha_byte(
                src@,
                src_stride as nat,
                dst_stride as nat,
                width as nat,
                PixelLayout::Bgra,
                j,
            ),
{
    ycgco_pipeline(
        PixelLayout::Bgra,
        src,
        src_stride,
        dst,
        dst_stride,
        width,
        height,
        None,
        None,
    )
}

/// Converts the image to HSV, performs CLAHE on the value channel
/// and reverts back into RGB.
///
/// * `threshold_milli` - clip level in thousandths: `3000` clips each tile
///   histogram at `3.0 * tile_area / bins_count`
/// * `grid_size` - tile grid for the local histograms
/// * `bins_count` - number of histogram bins
pub fn clahe_hsv_rgb(
    src: &Vec<u8>,
    src_stride: u32,
    dst: &mut Vec<u8>,
    dst_stride: u32,
    width: u32,
    height: u32,
    threshold_milli: u64,
    grid_size: ClaheGridSize,
    bins_count: usize,
) -> (r: Result<(), EqualizeError>)
    ensures
        final(dst)@.len() == old(dst)@.len(),
        r.is_err() ==> final(dst)@ == old(dst)@,
        r == entry_outcome(
            src@.len() as int,
            src_stride,
            old(dst)@.len() as int,
            dst_stride,
            width,
            height,
            Some(grid_size),
            bins_count,
            PixelLayout::Rgb,
        ),
        r.is_ok() ==> forall|j: int|
            0 <= j < old(dst)@.len() && !crate::layout::rgb_byte_pos(
                dst_stride as nat,
                width as nat,
                height as nat,
                PixelLayout::Rgb,
                j,
            ) && !crate::layout::alpha_byte_pos(
                dst_stride as nat,
                width as nat,
                height as nat,
                PixelLayout::Rgb,
                j,
            ) ==> final(dst)@[j] == old(dst)@[j],
        r.is_ok() ==> forall|j: int|
            0 <= j < old(dst)@.len() && crate::layout::alpha_byte_pos(
                dst_stride as nat,
                width as nat,
                height as nat,
                PixelLayout::Rgb,
                j,
            ) ==> final(dst)@[j] == crate::layout::carried_alpha_byte(
                src@,
                src_stride as nat,
                dst_stride as nat,
                width as nat,
                PixelLayout::Rgb,
                j,
            ),
{
    space_pipeline(
        EqualizeSpace::Hsv,
        PixelLayout::Rgb,
        src,
        src_stride,
        dst,
        dst_stride,
        width,
        height,
        Some(threshold_milli),
        Some(grid_size),
        bins_count,
    )
}

/// Converts the image to HSV, performs AHE on the value channel and
/// reverts back into RGB.
///
/// * `grid_size` - tile grid for the local histograms
/// * `bins_count` - number of histogram bins
pub fn ahe_hsv_rgb(
    src: &Vec<u8>,
    src_stride: u32,
    dst: &mut Vec<u8>,
    dst_stride: u32,
    width: u32,
    height: u32,
    grid_size: ClaheGridSize,
    bins_count: usize,
) -> (r: Result<(), EqualizeError>)
    ensures
        final(dst)@.len() == old(dst)@.len(),
        r.is_err() ==> final(dst)@ == old(dst)@,
        r == entry_outcome(
            src@.len() as int,
            src_stride,
            old(dst)@.len() as int,
            dst_stride,
            width,
            height,
            Some(grid_size),
            bins_count,
            PixelLayout::Rgb,
        ),
        r.is_ok() ==> forall|j: int|
            0 <= j < old(dst)@.len() && !crate::layout::rgb_byte_pos(
                dst_stride as nat,
                width as nat,
                height as nat,
                PixelLayout::Rgb,
                j,
            ) && !crate::layout::alpha_byte_pos(
                dst_stride as nat,
                width as nat,
                height as nat,
                PixelLayout::Rgb,
                j,
            ) ==> final(dst)@[j] == old(dst)@[j],
        r.is_ok() ==> forall|j: int|
            0 <= j < old(dst)@.len() && crate::layout::alpha_byte_pos(
                dst_stride as nat,
                width as nat,
                height as nat,
                PixelLayout::Rgb,
                j,
            ) ==> final(dst)@[j] == crate::layout::carried_alpha_byte(
                src@,
                src_stride as nat,
                dst_stride as nat,
                width as nat,
                PixelLayout::Rgb,
                j,
            ),
{
    space_pipeline(
        EqualizeSpace::Hsv,
        PixelLayout::Rgb,
        src,
        src_stride,
        dst,
        dst_stride,
        width,
        height,
        None,
        Some(grid_size),
        bins_count,
    )
}

/// Converts the image to HSV, performs global histogram equalization
/// on the value channel and reverts back into RGB.
///
/// * `bins_count` - number of histogram bins
pub fn hist_equal_hsv_rgb(
    src: &Vec<u8>,
    src_stride: u32,
    dst: &mut Vec<u8>,
    dst_stride: u32,
    width: u32,
    height: u32,
    bins_count: usize,
) -> (r: Result<(), EqualizeError>)
    ensures
        final(dst)@.len() == old(dst)@.len(),
        r.is_err() ==> final(dst)@ == old(dst)@,
        r == entry_outcome(
            src@.len() as int,
            src_stride,
            old(dst)@.len() as int,
            dst_stride,
            width,
            height,
            None::<ClaheGridSize>,
            bins_count,
            PixelLayout::Rgb,
        ),
        r.is_ok() ==> forall|j: int|
            0 <= j < old(dst)@.len() && !crate::layout::rgb_byte_pos(
                dst_stride as nat,
                width as nat,
                height as nat,
                PixelLayout::Rgb,
                j,
            ) && !crate::layout::alpha_byte_pos(
                dst_stride as nat,
                width as nat,
                height as nat,
                PixelLayout::Rgb,
                j,
            ) ==> final(dst)@[j] == old(dst)@[j],
        r.is_ok() ==> forall|j: int|
            0 <= j < old(dst)@.len() && crate::layout::alpha_byte_pos(
                dst_stride as nat,
                width as nat,
                height as nat,
                PixelLayout::Rgb,
                j,
            ) ==> final(dst)@[j] == crate::layout::carried_alpha_byte(
                src@,
                src_stride as nat,
                dst_stride as nat,
                width as nat,
                PixelLayout::Rgb,
                j,
            ),
{
    space_pipeline(
        EqualizeSpace::Hsv,
        PixelLayout::Rgb,
        src,
        src_stride,
        dst,
        dst_stride,
        width,
        height,
        None,
        None,
        bins_count,
    )
}

/// Converts the image to HSV, performs CLAHE on the value channel
/// and reverts back into RGBA.
///
/// * `threshold_milli` - clip level in thousandths: `3000` clips each tile
///   histogram at `3.0 * tile_area / bins_count`
/// * `grid_size` - tile grid for the local histograms
/// * `bins_count` - number of histogram bins
pub fn clahe_hsv_rgba(
    src: &Vec<u8>,
    src_stride: u32,
    dst: &mut Vec<u8>,
    dst_stride: u32,
    width: u32,
    height: u32,
    threshold_milli: u64,
    grid_size: ClaheGridSize,
    bins_count: usize,
) -> (r: Result<(), EqualizeError>)
    ensures
        final(dst)@.len() == old(dst)@.len(),
        r.is_err() ==> final(dst)@ == old(dst)@,
        r == entry_outcome(
            src@.len() as int,
            src_stride,
            old(dst)@.len() as int,
            dst_stride,
            width,
            height,
            Some(grid_size),
            bins_count,
            PixelLayout::Rgba,
        ),
        r.is_ok() ==> forall|j: int|
            0 <= j < old(dst)@.len() && !crate::layout::rgb_byte_pos(
                dst_stride as nat,
                width as nat,
                height as nat,
                PixelLayout::Rgba,
                j,
            ) && !crate::layout::alpha_byte_pos(
                dst_stride as nat,
                width as nat,
                height as nat,
                PixelLayout::Rgba,
                j,
            ) ==> final(dst)@[j] == old(dst)@[j],
        r.is_ok() ==> forall|j: int|
            0 <= j < old(dst)@.len() && crate::layout::alpha_byte_pos(
                dst_stride as nat,
                width as nat,
                height as nat,
                PixelLayout::Rgba,
                j,
            ) ==> final(dst)@[j] == crate::layout::carried_alpha_byte(
                src@,
                src_stride as nat,
                dst_stride as nat,
                width as nat,
                PixelLayout::Rgba,
                j,
            ),
{
    space_pipeline(
        EqualizeSpace::Hsv,
        PixelLayout::Rgba,
        src,
        src_stride,
        dst,
        dst_stride,
        width,
        height,
        Some(threshold_milli),
        Some(grid_size),
        bins_count,
    )
}

/// Converts the image to HSV, performs AHE on the value channel and
/// reverts back into RGBA.
///
/// * `grid_size` - tile grid for the local histograms
/// * `bins_count` - number of histogram bins
pub fn ahe_hsv_rgba(
    src: &Vec<u8>,
    src_stride: u32,
    dst: &mut Vec<u8>,
    dst_stride: u32,
    width: u32,
    height: u32,
    grid_size: ClaheGridSize,
    bins_count: usize,
) -> (r: Result<(), EqualizeError>)
    ensures
        final(dst)@.len() == old(dst)@.len(),
        r.is_err() ==> final(dst)@ == old(dst)@,
        r == entry_outcome(
            src@.len() as int,
            src_stride,
            old(dst)@.len() as int,
            dst_stride,
            width,
            height,
            Some(grid_size),
            bins_count,
            PixelLayout::Rgba,
        ),
        r.is_ok() ==> forall|j: int|
            0 <= j < old(dst)@.len() && !crate::layout::rgb_byte_pos(
                dst_stride as nat,
                width as nat,
                height as nat,
                PixelLayout::Rgba,
                j,
            ) && !crate::layout::alpha_byte_pos(
                dst_stride as nat,
                width as nat,
                height as nat,
                PixelLayout::Rgba,
                j,
            ) ==> final(dst)@[j] == old(dst)@[j],
        r.is_ok() ==> forall|j: int|
            0 <= j < old(dst)@.len() && crate::layout::alpha_byte_pos(
                dst_stride as nat,
                width as nat,
                height as nat,
                PixelLayout::Rgba,
                j,
            ) ==> final(dst)@[j] == crate::layout::carried_alpha_byte(
                src@,
                src_stride as nat,
                dst_stride as nat,
                width as nat,
                PixelLayout::Rgba,
                j,
            ),
{
    space_pipeline(
        EqualizeSpace::Hsv,
        PixelLayout::Rgba,
        src,
        src_stride,
        dst,
        dst_stride,
        width,
        height,
        None,
        Some(grid_size),
        bins_count,
    )
}

/// Converts the image to HSV, performs global histogram equalization
/// on the value channel and reverts back into RGBA.
///
/// * `bins_count` - number of histogram bins
pub fn hist_equal_hsv_rgba(
    src: &Vec<u8>,
    src_stride: u32,
    dst: &mut Vec<u8>,
    dst_stride: u32,
    width: u32,
    height: u32,
    bins_count: usize,
) -> (r: Result<(), EqualizeError>)
    ensures
        final(dst)@.len() == old(dst)@.len(),
        r.is_err() ==> final(dst)@ == old(dst)@,
        r == entry_outcome(
            src@.len() as int,
            src_stride,
            old(dst)@.len() as int,
            dst_stride,
            width,
            height,
            None::<ClaheGridSize>,
            bins_count,
            PixelLayout::Rgba,
        ),
        r.is_ok() ==> forall|j: int|
            0 <= j < old(dst)@.len() && !crate::layout::rgb_byte_pos(
                dst_stride as nat,
                width as nat,
                height as nat,
                PixelLayout::Rgba,
                j,
            ) && !crate::layout::alpha_byte_pos(
                dst_stride as nat,
                width as nat,
                height as nat,
                PixelLayout::Rgba,
                j,
            ) ==> final(dst)@[j] == old(dst)@[j],
        r.is_ok() ==> forall|j: int|
            0 <= j < old(dst)@.len() && crate::layout::alpha_byte_pos(
                dst_stride as nat,
                width as nat,
                height as nat,
                PixelLayout::Rgba,
                j,
            ) ==> final(dst)@[j] == crate::layout::carried_alpha_byte(
                src@,
                src_stride as nat,
                dst_stride as nat,
                width as nat,
                PixelLayout::Rgba,
                j,
            ),
{
    space_pipeline(
        EqualizeSpace::Hsv,
        PixelLayout::Rgba,
        src,
        src_stride,
        dst,
        dst_stride,
        width,
        height,
        None,
        None,
        bins_count,
    )
}

/// Converts the image to HSV, performs CLAHE on the value channel
/// and reverts back into BGRA.
///
/// * `threshold_milli` - clip level in thousandths: `3000` clips each tile
///   histogram at `3.0 * tile_area / bins_count`
/// * `grid_size` - tile grid for the local histograms
/// * `bins_count` - number of histogram bins
pub fn clahe_hsv_bgra(
    src: &Vec<u8>,
    src_stride: u32,
    dst: &mut Vec<u8>,
    dst_stride: u32,
    width: u32,
    height: u32,
    threshold_milli: u64,
    grid_size: ClaheGridSize,
    bins_count: usize,
) -> (r: Result<(), EqualizeError>)
    ensures
        final(dst)@.len() == old(dst)@.len(),
        r.is_err() ==> final(dst)@ == old(dst)@,
        r == entry_outcome(
            src@.len() as int,
            src_stride,
            old(dst)@.len() as int,
            dst_stride,
            width,
            height,
            Some(grid_size),
            bins_count,
            PixelLayout::Bgra,
        ),
        r.is_ok() ==> forall|j: int|
            0 <= j < old(dst)@.len() && !crate::layout::rgb_byte_pos(
                dst_stride as nat,
                width as nat,
                height as nat,
                PixelLayout::Bgra,
                j,
            ) && !crate::layout::alpha_byte_pos(
                dst_stride as nat,
                width as nat,
                height as nat,
                PixelLayout::Bgra,
                j,
            ) ==> final(dst)@[j] == old(dst)@[j],
        r.is_ok() ==> forall|j: int|
            0 <= j < old(dst)@.len() && crate::layout::alpha_byte_pos(
                dst_stride as nat,
                width as nat,
                height as nat,
                PixelLayout::Bgra,
                j,
            ) ==> final(dst)@[j] == crate::layout::carried_alpha_byte(
                src@,
                src_stride as nat,
                dst_stride as nat,
                width as nat,
                PixelLayout::Bgra,
                j,
            ),
{
    space_pipeline(
        EqualizeSpace::Hsv,
        PixelLayout::Bgra,
        src,
        src_stride,
        dst,
        dst_stride,
        width,
        height,
        Some(threshold_milli),
        Some(grid_size),
        bins_count,
    )
}

/// Converts the image to HSV, performs AHE on the value channel and
/// reverts back into BGRA.
///
/// * `grid_size` - tile grid for the local histograms
/// * `bins_count` - number of histogram bins
pub fn ahe_hsv_bgra(
    src: &Vec<u8>,
    src_stride: u32,
    dst: &mut Vec<u8>,
    dst_stride: u32,
    width: u32,
    height: u32,
    grid_size: ClaheGridSize,
    bins_count: usize,
) -> (r: Result<(), EqualizeError>)
    ensures
        final(dst)@.len() == old(dst)@.len(),
        r.is_err() ==> final(dst)@ == old(dst)@,
        r == entry_outcome(
            src@.len() as int,
            src_stride,
            old(dst)@.len() as int,
            dst_stride,
            width,
            height,
            Some(grid_size),
            bins_count,
            PixelLayout::Bgra,
        ),
        r.is_ok() ==> forall|j: int|
            0 <= j < old(dst)@.len() && !crate::layout::rgb_byte_pos(
                dst_stride as nat,
                width as nat,
                height as nat,
                PixelLayout::Bgra,
                j,
            ) && !crate::layout::alpha_byte_pos(
                dst_stride as nat,
                width as nat,
                height as nat,
                PixelLayout::Bgra,
                j,
            ) ==> final(dst)@[j] == old(dst)@[j],
        r.is_ok() ==> forall|j: int|
            0 <= j < old(dst)@.len() && crate::layout::alpha_byte_pos(
                dst_stride as nat,
                width as nat,
                height as nat,
                PixelLayout::Bgra,
                j,
            ) ==> final(dst)@[j] == crate::layout::carried_alpha_byte(
                src@,
                src_stride as nat,
                dst_stride as nat,
                width as nat,
                PixelLayout::Bgra,
                j,
            ),
{
    space_pipeline(
        EqualizeSpace::Hsv,
        PixelLayout::Bgra,
        src,
        src_stride,
        dst,
        dst_stride,
        width,
        height,
        None,
        Some(grid_size),
        bins_count,
    )
}

/// Converts the image to HSV, performs global histogram equalization
/// on the value channel and reverts back into BGRA.
///
/// * `bins_count` - number of histogram bins
pub fn hist_equal_hsv_bgra(
    src: &Vec<u8>,
    src_stride: u32,
    dst: &mut Vec<u8>,
    dst_stride: u32,
    width: u32,
    height: u32,
    bins_count: usize,
) -> (r: Result<(), EqualizeError>)
    ensures
        final(dst)@.len() == old(dst)@.len(),
        r.is_err() ==> final(dst)@ == old(dst)@,
        r == entry_outcome(
            src@.len() as int,
            src_stride,
            old(dst)@.len() as int,
            dst_stride,
            width,
            height,
            None::<ClaheGridSize>,
            bins_count,
            PixelLayout::Bgra,
        ),
        r.is_ok() ==> forall|j: int|
            0 <= j < old(dst)@.len() && !crate::layout::rgb_byte_pos(
                dst_stride as nat,
                width as nat,
                height as nat,
                PixelLayout::Bgra,
                j,
            ) && !crate::layout::alpha_byte_pos(
                dst_stride as nat,
                width as nat,
                height as nat,
                PixelLayout::Bgra,
                j,
            ) ==> final(dst)@[j] == old(dst)@[j],
        r.is_ok() ==> forall|j: int|
            0 <= j < old(dst)@.len() && crate::layout::alpha_byte_pos(
                dst_stride as nat,
                width as nat,
                height as nat,
                PixelLayout::Bgra,
                j,
            ) ==> final(dst)@[j] == crate::layout::carried_alpha_byte(
                src@,
                src_stride as nat,
                dst_stride as nat,
                width as nat,
                PixelLayout::Bgra,
                j,
            ),
{
    space_pipeline(
        EqualizeSpace::Hsv,
        PixelLayout::Bgra,
        src,
        src_stride,
        dst,
        dst_stride,
        width,
        height,
        None,
        None,
        bins_count,
    )
}

/// Converts the image to HSL, performs CLAHE on the lightness channel
/// and reverts back into RGB.
///
/// * `threshold_milli` - clip level in thousandths: `3000` clips each tile
///   histogram at `3.0 * tile_area / bins_count`
/// * `grid_size` - tile grid for the local histograms
/// * `bins_count` - number of histogram bins
pub fn clahe_hsl_rgb(
    src: &Vec<u8>,
    src_stride: u32,
    dst: &mut Vec<u8>,
    dst_stride: u32,
    width: u32,
    height: u32,
    threshold_milli: u64,
    grid_size: ClaheGridSize,
    bins_count: usize,
) -> (r: Result<(), EqualizeError>)
    ensures
        final(dst)@.len() == old(dst)@.len(),
        r.is_err() ==> final(dst)@ == old(dst)@,
        r == entry_outcome(
            src@.len() as int,
            src_stride,
            old(dst)@.len() as int,
            dst_stride,
            width,
            height,
            Some(grid_size),
            bins_count,
            PixelLayout::Rgb,
        ),
        r.is_ok() ==> forall|j: int|
            0 <= j < old(dst)@.len() && !crate::layout::rgb_byte_pos(
                dst_stride as nat,
                width as nat,
                height as nat,
                PixelLayout::Rgb,
                j,
            ) && !crate::layout::alpha_byte_pos(
                dst_stride as nat,
                width as nat,
                height as nat,
                PixelLayout::Rgb,
                j,
            ) ==> final(dst)@[j] == old(dst)@[j],
        r.is_ok() ==> forall|j: int|
            0 <= j < old(dst)@.len() && crate::layout::alpha_byte_pos(
                dst_stride as nat,
                width as nat,
                height as nat,
                PixelLayout::Rgb,
                j,
            ) ==> final(dst)@[j] == crate::layout::carried_alpha_byte(
                src@,
                src_stride as nat,
                dst_stride as nat,
                width as nat,
                PixelLayout::Rgb,
                j,
            ),
{
    space_pipeline(
        EqualizeSpace::Hsl,
        PixelLayout::Rgb,
        src,
        src_stride,
        dst,
        dst_stride,
        width,
        height,
        Some(threshold_milli),
        Some(grid_size),
        bins_count,
    )
}

/// Converts the image to HSL, performs AHE on the lightness channel and
/// reverts back into RGB.
///
/// * `grid_size` - tile grid for the local histograms
/// * `bins_count` - number of histogram bins
pub fn ahe_hsl_rgb(
    src: &Vec<u8>,
    src_stride: u32,
    dst: &mut Vec<u8>,
    dst_stride: u32,
    width: u32,
    height: u32,
    grid_size: ClaheGridSize,
    bins_count: usize,
) -> (r: Result<(), EqualizeError>)
    ensures
        final(dst)@.len() == old(dst)@.len(),
        r.is_err() ==> final(dst)@ == old(dst)@,
        r == entry_outcome(
            src@.len() as int,
            src_stride,
            old(dst)@.len() as int,
            dst_stride,
            width,
            height,
            Some(grid_size),
            bins_count,
            PixelLayout::Rgb,
        ),
        r.is_ok() ==> forall|j: int|
            0 <= j < old(dst)@.len() && !crate::layout::rgb_byte_pos(
                dst_stride as nat,
                width as nat,
                height as nat,
                PixelLayout::Rgb,
                j,
            ) && !crate::layout::alpha_byte_pos(
                dst_stride as nat,
                width as nat,
                height as nat,
                PixelLayout::Rgb,
                j,
            ) ==> final(dst)@[j] == old(dst)@[j],
        r.is_ok() ==> forall|j: int|
            0 <= j < old(dst)@.len() && crate::layout::alpha_byte_pos(
                dst_stride as nat,
                width as nat,
                height as nat,
                PixelLayout::Rgb,
                j,
            ) ==> final(dst)@[j] == crate::layout::carried_alpha_byte(
                src@,
                src_stride as nat,
                dst_stride as nat,
                width as nat,
                PixelLayout::Rgb,
                j,
            ),
{
    space_pipeline(
        EqualizeSpace::Hsl,
        PixelLayout::Rgb,
        src,
        src_stride,
        dst,
        dst_stride,
        width,
        height,
        None,
        Some(grid_size),
        bins_count,
    )
}

/// Converts the image to HSL, performs global histogram equalization
/// on the lightness channel and reverts back into RGB.
///
/// * `bins_count` - number of histogram bins
pub fn hist_equal_hsl_rgb(
    src: &Vec<u8>,
    src_stride: u32,
    dst: &mut Vec<u8>,
    dst_stride: u32,
    width: u32,
    height: u32,
    bins_count: usize,
) -> (r: Result<(), EqualizeError>)
    ensures
        final(dst)@.len() == old(dst)@.len(),
        r.is_err() ==> final(dst)@ == old(dst)@,
        r == entry_outcome(
            src@.len() as int,
            src_stride,
            old(dst)@.len() as int,
            dst_stride,
            width,
            height,
            None::<ClaheGridSize>,
            bins_count,
            PixelLayout::Rgb,
        ),
        r.is_ok() ==> forall|j: int|
            0 <= j < old(dst)@.len() && !crate::layout::rgb_byte_pos(
                dst_stride as nat,
                width as nat,
                height as nat,
                PixelLayout::Rgb,
                j,
            ) && !crate::layout::alpha_byte_pos(
                dst_stride as nat,
                width as nat,
                height as nat,
                PixelLayout::Rgb,
                j,
            ) ==> final(dst)@[j] == old(dst)@[j],
        r.is_ok() ==> forall|j: int|
            0 <= j < old(dst)@.len() && crate::layout::alpha_byte_pos(
                dst_stride as nat,
                width as nat,
                height as nat,
                PixelLayout::Rgb,
                j,
            ) ==> final(dst)@[j] == crate::layout::carried_alpha_byte(
                src@,
                src_stride as nat,
                dst_stride as nat,
                width as nat,
                PixelLayout::Rgb,
                j,
            ),
{
    space_pipeline(
        EqualizeSpace::Hsl,
        PixelLayout::Rgb,
        src,
        src_stride,
        dst,
        dst_stride,
        width,
        height,
        None,
        None,
        bins_count,
    )
}

/// Converts the image to HSL, performs CLAHE on the lightness channel
/// and reverts back into RGBA.
///
/// * `threshold_milli` - clip level in thousandths: `3000` clips each tile
///   histogram at `3.0 * tile_area / bins_count`
/// * `grid_size` - tile grid for the local histograms
/// * `bins_count` - number of histogram bins
pub fn clahe_hsl_rgba(
    src: &Vec<u8>,
    src_stride: u32,
    dst: &mut Vec<u8>,
    dst_stride: u32,
    width: u32,
    height: u32,
    threshold_milli: u64,
    grid_size: ClaheGridSize,
    bins_count: usize,
) -> (r: Result<(), EqualizeError>)
    ensures
        final(dst)@.len() == old(dst)@.len(),
        r.is_err() ==> final(dst)@ == old(dst)@,
        r == entry_outcome(
            src@.len() as int,
            src_stride,
            old(dst)@.len() as int,
            dst_stride,
            width,
            height,
            Some(grid_size),
            bins_count,
            PixelLayout::Rgba,
        ),
        r.is_ok() ==> forall|j: int|
            0 <= j < old(dst)@.len() && !crate::layout::rgb_byte_pos(
                dst_stride as nat,
                width as nat,
                height as nat,
                PixelLayout::Rgba,
                j,
            ) && !crate::layout::alpha_byte_pos(
                dst_stride as nat,
                width as nat,
                height as nat,
                PixelLayout::Rgba,
                j,
            ) ==> final(dst)@[j] == old(dst)@[j],
        r.is_ok() ==> forall|j: int|
            0 <= j < old(dst)@.len() && crate::layout::alpha_byte_pos(
                dst_stride as nat,
                width as nat,
                height as nat,
                PixelLayout::Rgba,
                j,
            ) ==> final(dst)@[j] == crate::layout::carried_alpha_byte(
                src@,
                src_stride as nat,
                dst_stride as nat,
                width as nat,
                PixelLayout::Rgba,
                j,
            ),
{
    space_pipeline(
        EqualizeSpace::Hsl,
        PixelLayout::Rgba,
        src,
        src_stride,
        dst,
        dst_stride,
        width,
        height,
        Some(threshold_milli),
        Some(grid_size),
        bins_count,
    )
}

/// Converts the image to HSL, performs AHE on the lightness channel and
/// reverts back into RGBA.
///
/// * `grid_size` - tile grid for the local histograms
/// * `bins_count` - number of histogram bins
pub fn ahe_hsl_rgba(
    src: &Vec<u8>,
    src_stride: u32,
    dst: &mut Vec<u8>,
    dst_stride: u32,
    width: u32,
    height: u32,
    grid_size: ClaheGridSize,
    bins_count: usize,
) -> (r: Result<(), EqualizeError>)
    ensures
        final(dst)@.len() == old(dst)@.len(),
        r.is_err() ==> final(dst)@ == old(dst)@,
        r == entry_outcome(
            src@.len() as int,
            src_stride,
            old(dst)@.len() as int,
            dst_stride,
            width,
            height,
            Some(grid_size),
            bins_count,
            PixelLayout::Rgba,
        ),
        r.is_ok() ==> forall|j: int|
            0 <= j < old(dst)@.len() && !crate::layout::rgb_byte_pos(
                dst_stride as nat,
                width as nat,
                height as nat,
                PixelLayout::Rgba,
                j,
            ) && !crate::layout::alpha_byte_pos(
                dst_stride as nat,
                width as nat,
                height as nat,
                PixelLayout::Rgba,
                j,
            ) ==> final(dst)@[j] == old(dst)@[j],
        r.is_ok() ==> forall|j: int|
            0 <= j < old(dst)@.len() && crate::layout::alpha_byte_pos(
                dst_stride as nat,
                width as nat,
                height as nat,
                PixelLayout::Rgba,
                j,
            ) ==> final(dst)@[j] == crate::layout::carried_alpha_byte(
                src@,
                src_stride as nat,
                dst_stride as nat,
                width as nat,
                PixelLayout::Rgba,
                j,
            ),
{
    space_pipeline(
        EqualizeSpace::Hsl,
        PixelLayout::Rgba,
        src,
        src_stride,
        dst,
        dst_stride,
        width,
        height,
        None,
        Some(grid_size),
        bins_count,
    )
}

/// Converts the image to HSL, performs global histogram equalization
/// on the lightness channel and reverts back into RGBA.
///
/// * `bins_count` - number of histogram bins
pub fn hist_equal_hsl_rgba(
    src: &Vec<u8>,
    src_stride: u32,
    dst: &mut Vec<u8>,
    dst_stride: u32,
    width: u32,
    height: u32,
    bins_count: usize,
) -> (r: Result<(), EqualizeError>)
    ensures
        final(dst)@.len() == old(dst)@.len(),
        r.is_err() ==> final(dst)@ == old(dst)@,
        r == entry_outcome(
            src@.len() as int,
            src_stride,
            old(dst)@.len() as int,
            dst_stride,
            width,
            height,
            None::<ClaheGridSize>,
            bins_count,
            PixelLayout::Rgba,
        ),
        r.is_ok() ==> forall|j: int|
            0 <= j < old(dst)@.len() && !crate::layout::rgb_byte_pos(
                dst_stride as nat,
                width as nat,
                height as nat,
                PixelLayout::Rgba,
                j,
            ) && !crate::layout::alpha_byte_pos(
                dst_stride as nat,
                width as nat,
                height as nat,
                PixelLayout::Rgba,
                j,
            ) ==> final(dst)@[j] == old(dst)@[j],
        r.is_ok() ==> forall|j: int|
            0 <= j < old(dst)@.len() && crate::layout::alpha_byte_pos(
                dst_stride as nat,
                width as nat,
                height as nat,
                PixelLayout::Rgba,
                j,
            ) ==> final(dst)@[j] == crate::layout::carried_alpha_byte(
                src@,
                src_stride as nat,
                dst_stride as nat,
                width as nat,
                PixelLayout::Rgba,
                j,
            ),
{
    space_pipeline(
        EqualizeSpace::Hsl,
        PixelLayout::Rgba,
        src,
        src_stride,
        dst,
        dst_stride,
        width,
        height,
        None,
        None,
        bins_count,
    )
}

/// Converts the image to HSL, performs CLAHE on the lightness channel
/// and reverts back into BGRA.
///
/// * `threshold_milli` - clip level in thousandths: `3000` clips each tile
///   histogram at `3.0 * tile_area / bins_count`
/// * `grid_size` - tile grid for the local histograms
/// * `bins_count` - number of histogram bins
pub fn clahe_hsl_bgra(
    src: &Vec<u8>,
    src_stride: u32,
    dst: &mut Vec<u8>,
    dst_stride: u32,
    width: u32,
    height: u32,
    threshold_milli: u64,
    grid_size: ClaheGridSize,
    bins_count: usize,
) -> (r: Result<(), EqualizeError>)
    ensures
        final(dst)@.len() == old(dst)@.len(),
        r.is_err() ==> final(dst)@ == old(dst)@,
        r == entry_outcome(
            src@.len() as int,
            src_stride,
            old(dst)@.len() as int,
            dst_stride,
            width,
            height,
            Some(grid_size),
            bins_count,
            PixelLayout::Bgra,
        ),
        r.is_ok() ==> forall|j: int|
            0 <= j < old(dst)@.len() && !crate::layout::rgb_byte_pos(
                dst_stride as nat,
                width as nat,
                height as nat,
                PixelLayout::Bgra,
                j,
            ) && !crate::layout::alpha_byte_pos(
                dst_stride as nat,
                width as nat,
                height as nat,
                PixelLayout::Bgra,
                j,
            ) ==> final(dst)@[j] == old(dst)@[j],
        r.is_ok() ==> forall|j: int|
            0 <= j < old(dst)@.len() && crate::layout::alpha_byte_pos(
                dst_stride as nat,
                width as nat,
                height as nat,
                PixelLayout::Bgra,
                j,
            ) ==> final(dst)@[j] == crate::layout::carried_alpha_byte(
                src@,
                src_stride as nat,
                dst_stride as nat,
                width as nat,
                PixelLayout::Bgra,
                j,
            ),
{
    space_pipeline(
        EqualizeSpace::Hsl,
        PixelLayout::Bgra,
        src,
        src_stride,
        dst,
        dst_stride,
        width,
        height,
        Some(threshold_milli),
        Some(grid_size),
        bins_count,
    )
}

/// Converts the image to HSL, performs AHE on the lightness channel and
/// reverts back into BGRA.
///
/// * `grid_size` - tile grid for the local histograms
/// * `bins_count` - number of histogram bins
pub fn ahe_hsl_bgra(
    src: &Vec<u8>,
    src_stride: u32,
    dst: &mut Vec<u8>,
    dst_stride: u32,
    width: u32,
    height: u32,
    grid_size: ClaheGridSize,
    bins_count: usize,
) -> (r: Result<(), EqualizeError>)
    ensures
        final(dst)@.len() == old(dst)@.len(),
        r.is_err() ==> final(dst)@ == old(dst)@,
        r == entry_outcome(
            src@.len() as int,
            src_stride,
            old(dst)@.len() as int,
            dst_stride,
            width,
            height,
            Some(grid_size),
            bins_count,
            PixelLayout::Bgra,
        ),
        r.is_ok() ==> forall|j: int|
            0 <= j < old(dst)@.len() && !crate::layout::rgb_byte_pos(
                dst_stride as nat,
                width as nat,
                height as nat,
                PixelLayout::Bgra,
                j,
            ) && !crate::layout::alpha_byte_pos(
                dst_stride as nat,
                width as nat,
                height as nat,
                PixelLayout::Bgra,
                j,
            ) ==> final(dst)@[j] == old(dst)@[j],
        r.is_ok() ==> forall|j: int|
            0 <= j < old(dst)@.len() && crate::layout::alpha_byte_pos(
                dst_stride as nat,
                width as nat,
                height as nat,
                PixelLayout::Bgra,
                j,
            ) ==> final(dst)@[j] == crate::layout::carried_alpha_byte(
                src@,
                src_stride as nat,
                dst_stride as nat,
                width as nat,
                PixelLayout::Bgra,
                j,
            ),
{
    space_pipeline(
        EqualizeSpace::Hsl,
        PixelLayout::Bgra,
        src,
        src_stride,
        dst,
        dst_stride,
        width,
        height,
        None,
        Some(grid_size),
        bins_count,
    )
}

/// Converts the image to HSL, performs global histogram equalization
/// on the lightness channel and reverts back into BGRA.
///
/// * `bins_count` - number of histogram bins
pub fn hist_equal_hsl_bgra(
    src: &Vec<u8>,
    src_stride: u32,
    dst: &mut Vec<u8>,
    dst_stride: u32,
    width: u32,
    height: u32,
    bins_count: usize,
) -> (r: Result<(), EqualizeError>)
    ensures
        final(dst)@.len() == old(dst)@.len(),
        r.is_err() ==> final(dst)@ == old(dst)@,
        r == entry_outcome(
            src@.len() as int,
            src_stride,
            old(dst)@.len() as int,
            dst_stride,
            width,
            height,
            None::<ClaheGridSize>,
            bins_count,
            PixelLayout::Bgra,
        ),
        r.is_ok() ==> forall|j: int|
            0 <= j < old(dst)@.len() && !crate::layout::rgb_byte_pos(
                dst_stride as nat,
                width as nat,
                height as nat,
                PixelLayout::Bgra,
                j,
            ) && !crate::layout::alpha_byte_pos(
                dst_stride as nat,
                width as nat,
                height as nat,
                PixelLayout::Bgra,
                j,
            ) ==> final(dst)@[j] == old(dst)@[j],
        r.is_ok() ==> forall|j: int|
            0 <= j < old(dst)@.len() && crate::layout::alpha_byte_pos(
                dst_stride as nat,
                width as nat,
                height as nat,
                PixelLayout::Bgra,
                j,
            ) ==> final(dst)@[j] == crate::layout::carried_alpha_byte(
                src@,
                src_stride as nat,
                dst_stride as nat,
                width as nat,
                PixelLayout::Bgra,
                j,
            ),
{
    space_pipeline(
        EqualizeSpace::Hsl,
        PixelLayout::Bgra,
        src,
        src_stride,
        dst,
        dst_stride,
        width,
        height,
        None,
        None,
        bins_count,
    )
}

} // verus!
