//! The YCgCo channel adapter: the outside conversions that split a tight
//! RGB byte image into full-range Y, Cg and Co planes and join them again.
//! The Y plane is the lightness channel the engine equalizes; it is already
//! an 8-bit plane, so this path always works with 256 histogram bins.

use vstd::prelude::*;
use yuvutils_rs::{
    rgb_to_ycgco444, ycgco444_to_rgb, BufferStoreMut, YuvPlanarImage, YuvPlanarImageMut, YuvRange,
};

verus! {

/// Relies on `yuvutils_rs::rgb_to_ycgco444` (full range): splits tight RGB
/// bytes into Y, Cg and Co planes of `width * height` bytes each. The call
/// validates the buffer geometry and fails only on an invalid one.
#[verifier::external_body]
pub(crate) fn ycgco_from_rgb(src: &Vec<u8>, width: u32, height: u32) -> (r: Option<
    (Vec<u8>, Vec<u8>, Vec<u8>),
>)
    requires
        3 * width <= u32::MAX,
    ensures
        (1 <= width && 1 <= height && 3 * width <= u32::MAX && src@.len() >= 3 * (width as int) * (
        height as int)) ==> r.is_some(),
        r matches Some(p) ==> p.0@.len() == (width as int) * (height as int) && p.1@.len() == (
        width as int) * (height as int) && p.2@.len() == (width as int) * (height as int),
{
    let n = width as usize * height as usize;
    let mut img: YuvPlanarImageMut<u8> = YuvPlanarImageMut {
        y_plane: BufferStoreMut::Owned(vec![0; n]), y_stride: width,
        u_plane: BufferStoreMut::Owned(vec![0; n]), u_stride: width,
        v_plane: BufferStoreMut::Owned(vec![0; n]), v_stride: width,
        width, height,
    };
    rgb_to_ycgco444(&mut img, src, width.checked_mul(3)?, YuvRange::Full).ok()?;
    match (img.y_plane, img.u_plane, img.v_plane) {
        (BufferStoreMut::Owned(y), BufferStoreMut::Owned(u), BufferStoreMut::Owned(v)) => Some(
            (y, u, v),
        ),
        _ => None,
    }
}

/// Relies on `yuvutils_rs::ycgco444_to_rgb` (full range): joins Y, Cg and
/// Co planes of `width * height` bytes back into tight RGB bytes. The call
/// validates the buffer geometry and fails only on an invalid one.
#[verifier::external_body]
pub(crate) fn rgb_from_ycgco(y: &Vec<u8>, u: &Vec<u8>, v: &Vec<u8>, width: u32, height: u32) -> (r: Option<
    Vec<u8>,
>)
    requires
        3 * width <= u32::MAX,
    ensures
        (1 <= width && 1 <= height && 3 * width <= u32::MAX && y@.len() == (width as int) * (
        height as int) && u@.len() == (width as int) * (height as int) && v@.len() == (
        width as int) * (height as int)) ==> r.is_some(),
        r matches Some(o) ==> o@.len() == 3 * (width as int) * (height as int),
{
    let img: YuvPlanarImage<u8> = YuvPlanarImage {
        y_plane: y, y_stride: width,
        u_plane: u, u_stride: width,
        v_plane: v, v_stride: width,
        width, height,
    };
    let mut out = vec![0u8; 3 * width as usize * height as usize];
    ycgco444_to_rgb(&img, &mut out, width.checked_mul(3)?, YuvRange::Full).ok()?;
    Some(out)
}

} // verus!
