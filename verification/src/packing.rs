//! Channel packing adapters: the outside color conversions that carry an
//! image into a perceptual or device color space and back. Each adapter
//! packs tightly laid-out RGB bytes into three interleaved fixed-point
//! components per pixel — one of them the lightness (or value) channel the
//! engine equalizes, scaled so that 10000 stands for its full range — and
//! unpacks them again.
//!
//! The conversions run in the outside crate on the machine's vector units,
//! so only their success conditions and output sizes are stated; the engine
//! is specified exactly for every value they may produce.
//!
//! Packing quantizes: each component is held in the fixed point its
//! adapter's comment gives, the equalized one with 10000 as full scale (the
//! same constant the verified rescaling in `layout` uses). A pack-unpack
//! round trip therefore reproduces the source bytes exactly only where no
//! quantization step can flip one: mid-tone grays survive everywhere, while
//! at the steep dark end of the sRGB transfer curve a byte may move by one.

use colorutils_rs::{
    hsl_to_rgb, hsv_to_rgb, lab_to_srgb, luv_to_rgb, oklab_to_rgb, oklch_to_rgb, rgb_to_hsl,
    rgb_to_hsv, rgb_to_lab, rgb_to_luv, rgb_to_oklab, rgb_to_oklch, BufferStore, ImageBuffer,
    ImageBufferMut, TransferFunction, SRGB_TO_XYZ_D65, XYZ_TO_SRGB_D65,
};
use vstd::prelude::*;

verus! {

/// The packed-geometry condition under which every adapter here succeeds:
/// a non-empty image whose tight 3-channel rows fit the buffer.
pub open spec fn pack_geometry_ok(len: int, width: u32, height: u32) -> bool {
    &&& 1 <= width
    &&& 1 <= height
    &&& 3 * width <= u32::MAX
    &&& len >= 3 * (width as int) * (height as int)
}

/// Relies on `colorutils_rs::rgb_to_lab` (sRGB transfer, D65 matrix): packs
/// tight RGB bytes into interleaved CIE LAB held in fixed point — L in
/// hundredths, a and b in hundredths offset by 20000. The call validates
/// the buffer geometry and fails only on an invalid one.
#[verifier::external_body]
fn lab_from_rgb(src: &Vec<u8>, width: u32, height: u32) -> (r: Option<Vec<u16>>)
    requires
        3 * width <= u32::MAX,
    ensures
        pack_geometry_ok(src@.len() as int, width, height) ==> r.is_some(),
        r matches Some(v) ==> v@.len() == 3 * (width as int) * (height as int),
{
    let sb = ImageBuffer::new(src, width, height, 3).ok()?;
    let n = 3 * width as usize * height as usize;
    let mut buf = vec![Default::default(); n];
    let mut db = ImageBufferMut::new(BufferStore::Borrowed(&mut buf), width, height, 3).ok()?;
    rgb_to_lab(&sb, &mut db, &SRGB_TO_XYZ_D65, TransferFunction::Srgb).ok()?;
    let mut c100 = buf[0];
    c100 = 100u8.into();
    let mut c20k = c100;
    c20k = 20000u16.into();
    let mut out = Vec::new();
    for (i, &f) in buf.iter().enumerate() {
        out.push((if i % 3 == 0 { f * c100 } else { f * c100 + c20k }).round() as u16);
    }
    Some(out)
}

/// Relies on `colorutils_rs::lab_to_srgb`: unpacks interleaved fixed-point
/// CIE LAB (as `lab_from_rgb` lays it out) back into tight RGB bytes. The
/// call validates the buffer geometry and fails only on an invalid one.
#[verifier::external_body]
fn rgb_from_lab(packed: &Vec<u16>, width: u32, height: u32) -> (r: Option<Vec<u8>>)
    requires
        3 * width <= u32::MAX,
    ensures
        (pack_geometry_ok(packed@.len() as int, width, height) && packed@.len() == 3 * (
        width as int) * (height as int)) ==> r.is_some(),
        r matches Some(v) ==> v@.len() == packed@.len(),
{
    let mut c100 = XYZ_TO_SRGB_D65[0][0];
    c100 = 100u8.into();
    let mut c20k = c100;
    c20k = 20000u16.into();
    let mut buf = vec![c100; packed.len()];
    for i in 0..buf.len() {
        let mut t = c100;
        t = packed[i].into();
        buf[i] = (if i % 3 == 0 { t } else { t - c20k }) / c100;
    }
    let sb = ImageBuffer::from_vec(buf, width, height, 3).ok()?;
    let mut out = vec![0u8; packed.len()];
    let mut db = ImageBufferMut::new(BufferStore::Borrowed(&mut out), width, height, 3).ok()?;
    lab_to_srgb(&sb, &mut db).ok()?;
    Some(out)
}

/// Relies on `colorutils_rs::rgb_to_luv` (sRGB transfer, D65 matrix): packs
/// tight RGB bytes into interleaved CIE LUV held in fixed point — L in
/// hundredths, u and v in hundredths offset by 20000. The call validates
/// the buffer geometry and fails only on an invalid one.
#[verifier::external_body]
fn luv_from_rgb(src: &Vec<u8>, width: u32, height: u32) -> (r: Option<Vec<u16>>)
    requires
        3 * width <= u32::MAX,
    ensures
        pack_geometry_ok(src@.len() as int, width, height) ==> r.is_some(),
        r matches Some(v) ==> v@.len() == 3 * (width as int) * (height as int),
{
    let sb = ImageBuffer::new(src, width, height, 3).ok()?;
    let n = 3 * width as usize * height as usize;
    let mut buf = vec![Default::default(); n];
    let mut db = ImageBufferMut::new(BufferStore::Borrowed(&mut buf), width, height, 3).ok()?;
    rgb_to_luv(&sb, &mut db, &SRGB_TO_XYZ_D65, TransferFunction::Srgb).ok()?;
    let mut c100 = buf[0];
    c100 = 100u8.into();
    let mut c20k = c100;
    c20k = 20000u16.into();
    let mut out = Vec::new();
    for (i, &f) in buf.iter().enumerate() {
        out.push((if i % 3 == 0 { f * c100 } else { f * c100 + c20k }).round() as u16);
    }
    Some(out)
}

/// Relies on `colorutils_rs::luv_to_rgb` (sRGB transfer, D65 matrix):
/// unpacks interleaved fixed-point CIE LUV (as `luv_from_rgb` lays it out)
/// back into tight RGB bytes. The call validates the buffer geometry and
/// fails only on an invalid one.
#[verifier::external_body]
fn rgb_from_luv(packed: &Vec<u16>, width: u32, height: u32) -> (r: Option<Vec<u8>>)
    requires
        3 * width <= u32::MAX,
    ensures
        (pack_geometry_ok(packed@.len() as int, width, height) && packed@.len() == 3 * (
        width as int) * (height as int)) ==> r.is_some(),
        r matches Some(v) ==> v@.len() == packed@.len(),
{
    let mut c100 = XYZ_TO_SRGB_D65[0][0];
    c100 = 100u8.into();
    let mut c20k = c100;
    c20k = 20000u16.into();
    let mut buf = vec![c100; packed.len()];
    for i in 0..buf.len() {
        let mut t = c100;
        t = packed[i].into();
        buf[i] = (if i % 3 == 0 { t } else { t - c20k }) / c100;
    }
    let sb = ImageBuffer::from_vec(buf, width, height, 3).ok()?;
    let mut out = vec![0u8; packed.len()];
    let mut db = ImageBufferMut::new(BufferStore::Borrowed(&mut out), width, height, 3).ok()?;
    luv_to_rgb(&sb, &mut db, &XYZ_TO_SRGB_D65, TransferFunction::Srgb).ok()?;
    Some(out)
}

/// Relies on `colorutils_rs::rgb_to_oklab` (sRGB transfer): packs tight RGB
/// bytes into interleaved Oklab held in fixed point — L in
/// ten-thousandths, a and b in ten-thousandths offset by 20000. The call
/// validates the buffer geometry and fails only on an invalid one.
#[verifier::external_body]
fn oklab_from_rgb(src: &Vec<u8>, width: u32, height: u32) -> (r: Option<Vec<u16>>)
    requires
        3 * width <= u32::MAX,
    ensures
        pack_geometry_ok(src@.len() as int, width, height) ==> r.is_some(),
        r matches Some(v) ==> v@.len() == 3 * (width as int) * (height as int),
{
    let sb = ImageBuffer::new(src, width, height, 3).ok()?;
    let n = 3 * width as usize * height as usize;
    let mut buf = vec![Default::default(); n];
    let mut db = ImageBufferMut::new(BufferStore::Borrowed(&mut buf), width, height, 3).ok()?;
    rgb_to_oklab(&sb, &mut db, TransferFunction::Srgb).ok()?;
    let mut c10k = buf[0];
    c10k = 10000u16.into();
    let mut c20k = c10k;
    c20k = 20000u16.into();
    let mut out = Vec::new();
    for (i, &f) in buf.iter().enumerate() {
        out.push((if i % 3 == 0 { f * c10k } else { f * c10k + c20k }).round() as u16);
    }
    Some(out)
}

/// Relies on `colorutils_rs::oklab_to_rgb` (sRGB transfer): unpacks
/// interleaved fixed-point Oklab (as `oklab_from_rgb` lays it out) back
/// into tight RGB bytes. The call validates the buffer geometry and fails
/// only on an invalid one.
#[verifier::external_body]
fn rgb_from_oklab(packed: &Vec<u16>, width: u32, height: u32) -> (r: Option<Vec<u8>>)
    requires
        3 * width <= u32::MAX,
    ensures
        (pack_geometry_ok(packed@.len() as int, width, height) && packed@.len() == 3 * (
        width as int) * (height as int)) ==> r.is_some(),
        r matches Some(v) ==> v@.len() == packed@.len(),
{
    let mut c10k = XYZ_TO_SRGB_D65[0][0];
    c10k = 10000u16.into();
    let mut c20k = c10k;
    c20k = 20000u16.into();
    let mut buf = vec![c10k; packed.len()];
    for i in 0..buf.len() {
        let mut t = c10k;
        t = packed[i].into();
        buf[i] = (if i % 3 == 0 { t } else { t - c20k }) / c10k;
    }
    let sb = ImageBuffer::from_vec(buf, width, height, 3).ok()?;
    let mut out = vec![0u8; packed.len()];
    let mut db = ImageBufferMut::new(BufferStore::Borrowed(&mut out), width, height, 3).ok()?;
    oklab_to_rgb(&sb, &mut db, TransferFunction::Srgb).ok()?;
    Some(out)
}

/// Relies on `colorutils_rs::rgb_to_oklch` (sRGB transfer): packs tight RGB
/// bytes into interleaved Oklch held in fixed point — L and chroma in
/// ten-thousandths, hue in hundredths of a degree. The call validates the
/// buffer geometry and fails only on an invalid one.
#[verifier::external_body]
fn oklch_from_rgb(src: &Vec<u8>, width: u32, height: u32) -> (r: Option<Vec<u16>>)
    requires
        3 * width <= u32::MAX,
    ensures
        pack_geometry_ok(src@.len() as int, width, height) ==> r.is_some(),
        r matches Some(v) ==> v@.len() == 3 * (width as int) * (height as int),
{
    let sb = ImageBuffer::new(src, width, height, 3).ok()?;
    let n = 3 * width as usize * height as usize;
    let mut buf = vec![Default::default(); n];
    let mut db = ImageBufferMut::new(BufferStore::Borrowed(&mut buf), width, height, 3).ok()?;
    rgb_to_oklch(&sb, &mut db, TransferFunction::Srgb).ok()?;
    let mut c10k = buf[0];
    c10k = 10000u16.into();
    let mut c100 = c10k;
    c100 = 100u8.into();
    let mut out = Vec::new();
    for (i, &f) in buf.iter().enumerate() {
        out.push((if i % 3 == 2 { f * c100 } else { f * c10k }).round() as u16);
    }
    Some(out)
}

/// Relies on `colorutils_rs::oklch_to_rgb` (sRGB transfer): unpacks
/// interleaved fixed-point Oklch (as `oklch_from_rgb` lays it out) back
/// into tight RGB bytes. The call validates the buffer geometry and fails
/// only on an invalid one.
#[verifier::external_body]
fn rgb_from_oklch(packed: &Vec<u16>, width: u32, height: u32) -> (r: Option<Vec<u8>>)
    requires
        3 * width <= u32::MAX,
    ensures
        (pack_geometry_ok(packed@.len() as int, width, height) && packed@.len() == 3 * (
        width as int) * (height as int)) ==> r.is_some(),
        r matches Some(v) ==> v@.len() == packed@.len(),
{
    let mut c10k = XYZ_TO_SRGB_D65[0][0];
    c10k = 10000u16.into();
    let mut c100 = c10k;
    c100 = 100u8.into();
    let mut buf = vec![c10k; packed.len()];
    for i in 0..buf.len() {
        let mut t = c10k;
        t = packed[i].into();
        buf[i] = if i % 3 == 2 { t / c100 } else { t / c10k };
    }
    let sb = ImageBuffer::from_vec(buf, width, height, 3).ok()?;
    let mut out = vec![0u8; packed.len()];
    let mut db = ImageBufferMut::new(BufferStore::Borrowed(&mut out), width, height, 3).ok()?;
    oklch_to_rgb(&sb, &mut db, TransferFunction::Srgb).ok()?;
    Some(out)
}

/// Relies on `colorutils_rs::rgb_to_hsv`: packs tight RGB bytes into
/// interleaved HSV — hue in whole degrees, saturation and value scaled to
/// `[0, 10000]`. The call validates the buffer geometry and fails only on
/// an invalid one.
#[verifier::external_body]
fn hsv_from_rgb(src: &Vec<u8>, width: u32, height: u32) -> (r: Option<Vec<u16>>)
    requires
        3 * width <= u32::MAX,
    ensures
        pack_geometry_ok(src@.len() as int, width, height) ==> r.is_some(),
        r matches Some(v) ==> v@.len() == 3 * (width as int) * (height as int),
{
    let sb = ImageBuffer::new(src, width, height, 3).ok()?;
    let mut buf = vec![0u16; 3 * width as usize * height as usize];
    let mut db = ImageBufferMut::new(BufferStore::Borrowed(&mut buf), width, height, 3).ok()?;
    rgb_to_hsv(&sb, &mut db, 10000u16.into()).ok()?;
    Some(buf)
}

/// Relies on `colorutils_rs::hsv_to_rgb`: unpacks interleaved HSV (as
/// `hsv_from_rgb` lays it out) back into tight RGB bytes. The call
/// validates the buffer geometry and fails only on an invalid one.
#[verifier::external_body]
fn rgb_from_hsv(packed: &Vec<u16>, width: u32, height: u32) -> (r: Option<Vec<u8>>)
    requires
        3 * width <= u32::MAX,
    ensures
        (pack_geometry_ok(packed@.len() as int, width, height) && packed@.len() == 3 * (
        width as int) * (height as int)) ==> r.is_some(),
        r matches Some(v) ==> v@.len() == packed@.len(),
{
    let sb = ImageBuffer::new(packed, width, height, 3).ok()?;
    let mut out = vec![0u8; packed.len()];
    let mut db = ImageBufferMut::new(BufferStore::Borrowed(&mut out), width, height, 3).ok()?;
    hsv_to_rgb(&sb, &mut db, 10000u16.into()).ok()?;
    Some(out)
}

/// Relies on `colorutils_rs::rgb_to_hsl`: packs tight RGB bytes into
/// interleaved HSL — hue in whole degrees, saturation and lightness scaled
/// to `[0, 10000]`. The call validates the buffer geometry and fails only
/// on an invalid one.
#[verifier::external_body]
fn hsl_from_rgb(src: &Vec<u8>, width: u32, height: u32) -> (r: Option<Vec<u16>>)
    requires
        3 * width <= u32::MAX,
    ensures
        pack_geometry_ok(src@.len() as int, width, height) ==> r.is_some(),
        r matches Some(v) ==> v@.len() == 3 * (width as int) * (height as int),
{
    let sb = ImageBuffer::new(src, width, height, 3).ok()?;
    let mut buf = vec![0u16; 3 * width as usize * height as usize];
    let mut db = ImageBufferMut::new(BufferStore::Borrowed(&mut buf), width, height, 3).ok()?;
    rgb_to_hsl(&sb, &mut db, 10000u16.into()).ok()?;
    Some(buf)
}

/// Relies on `colorutils_rs::hsl_to_rgb`: unpacks interleaved HSL (as
/// `hsl_from_rgb` lays it out) back into tight RGB bytes. The call
/// validates the buffer geometry and fails only on an invalid one.
#[verifier::external_body]
fn rgb_from_hsl(packed: &Vec<u16>, width: u32, height: u32) -> (r: Option<Vec<u8>>)
    requires
        3 * width <= u32::MAX,
    ensures
        (pack_geometry_ok(packed@.len() as int, width, height) && packed@.len() == 3 * (
        width as int) * (height as int)) ==> r.is_some(),
        r matches Some(v) ==> v@.len() == packed@.len(),
{
    let sb = ImageBuffer::new(packed, width, height, 3).ok()?;
    let mut out = vec![0u8; packed.len()];
    let mut db = ImageBufferMut::new(BufferStore::Borrowed(&mut out), width, height, 3).ok()?;
    hsl_to_rgb(&sb, &mut db, 10000u16.into()).ok()?;
    Some(out)
}

/// The color spaces the library can equalize in. All share one packed
/// layout: three interleaved fixed-point components per pixel, the
/// equalized one (see `space_channel_pos`) with 10000 as full scale.
#[derive(Debug, Copy, Clone, PartialEq, Eq, Structural)]
pub enum EqualizeSpace {
    Lab,
    Luv,
    Oklab,
    Oklch,
    Hsv,
    Hsl,
}

/// Which of the three packed components is the channel the engine
/// equalizes: the value or lightness at position 2 for HSV and HSL, the
/// lightness at position 0 everywhere else.
pub open spec fn space_channel_pos(space: EqualizeSpace) -> nat {
    match space {
        EqualizeSpace::Hsv => 2,
        EqualizeSpace::Hsl => 2,
        _ => 0,
    }
}

/// Exec counterpart of `space_channel_pos`.
pub fn channel_pos(space: EqualizeSpace) -> (p: usize)
    ensures
        p == space_channel_pos(space),
        p < 3,
{
    match space {
        EqualizeSpace::Hsv => 2,
        EqualizeSpace::Hsl => 2,
        _ => 0,
    }
}

/// Packs a tight RGB byte image into the chosen space's fixed-point
/// components. Succeeds exactly on valid geometry; the component values
/// come from the outside conversion.
pub fn pack_space(space: EqualizeSpace, src: &Vec<u8>, width: u32, height: u32) -> (r: Option<
    Vec<u16>,
>)
    requires
        3 * width <= u32::MAX,
    ensures
        pack_geometry_ok(src@.len() as int, width, height) ==> r.is_some(),
        r matches Some(v) ==> v@.len() == 3 * (width as int) * (height as int),
{
    match space {
        EqualizeSpace::Lab => lab_from_rgb(src, width, height),
        EqualizeSpace::Luv => luv_from_rgb(src, width, height),
        EqualizeSpace::Oklab => oklab_from_rgb(src, width, height),
        EqualizeSpace::Oklch => oklch_from_rgb(src, width, height),
        EqualizeSpace::Hsv => hsv_from_rgb(src, width, height),
        EqualizeSpace::Hsl => hsl_from_rgb(src, width, height),
    }
}

/// Unpacks the chosen space's fixed-point components back into a tight RGB
/// byte image. Succeeds exactly on valid geometry.
pub fn unpack_space(space: EqualizeSpace, packed: &Vec<u16>, width: u32, height: u32) -> (r:
    Option<Vec<u8>>)
    requires
        3 * width <= u32::MAX,
    ensures
        (pack_geometry_ok(packed@.len() as int, width, height) && packed@.len() == 3 * (
        width as int) * (height as int)) ==> r.is_some(),
        r matches Some(v) ==> v@.len() == packed@.len(),
{
    match space {
        EqualizeSpace::Lab => rgb_from_lab(packed, width, height),
        EqualizeSpace::Luv => rgb_from_luv(packed, width, height),
        EqualizeSpace::Oklab => rgb_from_oklab(packed, width, height),
        EqualizeSpace::Oklch => rgb_from_oklch(packed, width, height),
        EqualizeSpace::Hsv => rgb_from_hsv(packed, width, height),
        EqualizeSpace::Hsl => rgb_from_hsl(packed, width, height),
    }
}

} // verus!
