//! Verified buffer plumbing around the engine: gathering tight RGB triples
//! (and the alpha plane) out of a strided interleaved image, scattering them
//! back, extracting and storing the lightness plane of the packed
//! representation, and the exact fixed-point rescaling between the packed
//! scale and the histogram bin range.

use vstd::prelude::*;

use crate::hist_support::round_half_up_div;

verus! {

/// The interleaved byte layouts the public entry points accept.
#[derive(Debug, Copy, Clone, PartialEq, Eq, Structural)]
pub enum PixelLayout {
    Rgb,
    Rgba,
    Bgra,
}

/// Bytes per pixel of a layout.
pub open spec fn channels_of(layout: PixelLayout) -> nat {
    match layout {
        PixelLayout::Rgb => 3,
        PixelLayout::Rgba => 4,
        PixelLayout::Bgra => 4,
    }
}

/// Whether the layout carries an alpha byte (always at offset 3).
pub open spec fn layout_has_alpha(layout: PixelLayout) -> bool {
    !(layout is Rgb)
}

/// Byte offsets of the red, green and blue components within one pixel.
pub open spec fn offsets_of(layout: PixelLayout) -> (nat, nat, nat) {
    match layout {
        PixelLayout::Rgb => (0nat, 1nat, 2nat),
        PixelLayout::Rgba => (0nat, 1nat, 2nat),
        PixelLayout::Bgra => (2nat, 1nat, 0nat),
    }
}

fn layout_channels(layout: PixelLayout) -> (c: u32)
    ensures
        c == channels_of(layout),
{
    match layout {
        PixelLayout::Rgb => 3,
        PixelLayout::Rgba => 4,
        PixelLayout::Bgra => 4,
    }
}

fn layout_offsets(layout: PixelLayout) -> (r: (u32, u32, u32))
    ensures
        r.0 == offsets_of(layout).0,
        r.1 == offsets_of(layout).1,
        r.2 == offsets_of(layout).2,
{
    match layout {
        PixelLayout::Rgb => (0, 1, 2),
        PixelLayout::Rgba => (0, 1, 2),
        PixelLayout::Bgra => (2, 1, 0),
    }
}

/// Byte `i` of the tight RGB image gathered from a strided interleaved
/// image: `i` names component `i % 3` (red, green, blue in that order) of
/// pixel `i / 3`.
pub open spec fn gathered_byte(
    src: Seq<u8>,
    stride: nat,
    width: nat,
    layout: PixelLayout,
    i: int,
) -> u8 {
    let px = i / 3;
    let ch = i % 3;
    let y = px / width as int;
    let x = px % width as int;
    let off = if ch == 0 {
        offsets_of(layout).0
    } else if ch == 1 {
        offsets_of(layout).1
    } else {
        offsets_of(layout).2
    };
    src[y * stride + x * channels_of(layout) + off]
}

/// Gathers the red, green and blue bytes of every pixel of a strided
/// interleaved image into a tight `3 * width * height` RGB buffer.
pub fn gather_rgb(src: &Vec<u8>, stride: u32, width: u32, height: u32, layout: PixelLayout) -> (out:
    Vec<u8>)
    requires
        1 <= width,
        channels_of(layout) * width <= stride,
        stride * height <= src@.len(),
    ensures
        out@.len() == 3 * (width as int) * (height as int),
        forall|i: int|
            0 <= i < out@.len() ==> out@[i] == gathered_byte(
                src@,
                stride as nat,
                width as nat,
                layout,
                i,
            ),
{
    let channels = layout_channels(layout);
    let offs = layout_offsets(layout);
    let ghost cs: Seq<u8> = src@;
    let n_src: usize = src.len();
    let mut out: Vec<u8> = Vec::new();
    let mut y: u32 = 0;
    while y < height
        invariant
            cs == src@,
            channels == channels_of(layout),
            offs.0 == offsets_of(layout).0 && offs.1 == offsets_of(layout).1 && offs.2
                == offsets_of(layout).2,
            offs.0 < channels && offs.1 < channels && offs.2 < channels,
            channels * width <= stride,
            stride * height <= cs.len(),
            n_src == cs.len(),
            0 <= y <= height,
            out@.len() == 3 * ((y as int) * (width as int)),
            forall|i: int|
                0 <= i < out@.len() ==> out@[i] == gathered_byte(
                    cs,
                    stride as nat,
                    width as nat,
                    layout,
                    i,
                ),
        decreases height - y,
    {
        let mut x: u32 = 0;
        while x < width
            invariant
                cs == src@,
                channels == channels_of(layout),
                offs.0 == offsets_of(layout).0 && offs.1 == offsets_of(layout).1 && offs.2
                    == offsets_of(layout).2,
                offs.0 < channels && offs.1 < channels && offs.2 < channels,
                channels * width <= stride,
                stride * height <= cs.len(),
                n_src == cs.len(),
                0 <= y < height,
                0 <= x <= width,
                out@.len() == 3 * ((y as int) * (width as int) + x as int),
                forall|i: int|
                    0 <= i < out@.len() ==> out@[i] == gathered_byte(
                        cs,
                        stride as nat,
                        width as nat,
                        layout,
                        i,
                    ),
            decreases width - x,
        {
            proof {
                lemma_pixel_byte_bounds(
                    y as int,
                    x as int,
                    stride as int,
                    width as int,
                    height as int,
                    channels as int,
                    cs.len() as int,
                );
            }
            let base: usize = (y as usize) * (stride as usize) + (x as usize) * (channels as usize);
            let r = src[base + (offs.0 as usize)];
            let g = src[base + (offs.1 as usize)];
            let b = src[base + (offs.2 as usize)];
            proof {
                lemma_gather_index(
                    cs,
                    stride as nat,
                    width as nat,
                    layout,
                    y as int,
                    x as int,
                    out@.len() as int,
                );
            }
            out.push(r);
            out.push(g);
            out.push(b);
            x = x + 1;
        }
        proof {
            assert(3 * (((y + 1) as int) * (width as int)) == 3 * ((y as int) * (width as int)
                + width as int)) by (nonlinear_arith);
        }
        y = y + 1;
    }
    proof {
        assert(3 * (width as int) * (height as int) == 3 * ((height as int) * (width as int)))
            by (nonlinear_arith);
    }
    out
}

/// The three fresh byte positions of pixel `(y, x)` decompose back to that
/// pixel and its components.
proof fn lemma_gather_index(
    src: Seq<u8>,
    stride: nat,
    width: nat,
    layout: PixelLayout,
    y: int,
    x: int,
    len: int,
)
    requires
        0 <= x < width,
        0 <= y,
        len == 3 * (y * width + x),
    ensures
        gathered_byte(src, stride, width, layout, len) == src[y * stride + x * channels_of(layout)
            + offsets_of(layout).0],
        gathered_byte(src, stride, width, layout, len + 1) == src[y * stride + x * channels_of(
            layout,
        ) + offsets_of(layout).1],
        gathered_byte(src, stride, width, layout, len + 2) == src[y * stride + x * channels_of(
            layout,
        ) + offsets_of(layout).2],
{
    vstd::arithmetic::div_mod::lemma_fundamental_div_mod_converse(len, 3, y * width + x, 0);
    vstd::arithmetic::div_mod::lemma_fundamental_div_mod_converse(len + 1, 3, y * width + x, 1);
    vstd::arithmetic::div_mod::lemma_fundamental_div_mod_converse(len + 2, 3, y * width + x, 2);
    vstd::arithmetic::div_mod::lemma_fundamental_div_mod_converse(
        y * width + x,
        width as int,
        y,
        x,
    );
}

/// One pixel's bytes lie inside the buffer.
proof fn lemma_pixel_byte_bounds(
    y: int,
    x: int,
    stride: int,
    width: int,
    height: int,
    channels: int,
    len: int,
)
    requires
        0 <= y < height,
        0 <= x < width,
        1 <= channels,
        channels * width <= stride,
        stride * height <= len,
    ensures
        0 <= y * stride,
        y * stride + x * channels + channels <= len,
{
    assert(y * stride >= 0 && y * stride + x * channels + channels <= len) by (nonlinear_arith)
        requires
            0 <= y < height,
            0 <= x < width,
            1 <= channels,
            channels * width <= stride,
            stride * height <= len,
    ;
}

/// The alpha byte of every pixel of a strided 4-channel image, as one tight
/// plane.
pub open spec fn alpha_byte(src: Seq<u8>, stride: nat, width: nat, p: int) -> u8 {
    src[(p / width as int) * stride + (p % width as int) * 4 + 3]
}

/// Gathers the alpha plane of a strided 4-channel image.
pub fn gather_alpha(src: &Vec<u8>, stride: u32, width: u32, height: u32) -> (out: Vec<u8>)
    requires
        1 <= width,
        4 * width <= stride,
        stride * height <= src@.len(),
    ensures
        out@.len() == (width as int) * (height as int),
        forall|p: int|
            0 <= p < out@.len() ==> out@[p] == alpha_byte(src@, stride as nat, width as nat, p),
{
    let ghost cs: Seq<u8> = src@;
    let n_src: usize = src.len();
    let mut out: Vec<u8> = Vec::new();
    let mut y: u32 = 0;
    while y < height
        invariant
            cs == src@,
            4 * width <= stride,
            stride * height <= cs.len(),
            n_src == cs.len(),
            0 <= y <= height,
            out@.len() == (y as int) * (width as int),
            forall|p: int|
                0 <= p < out@.len() ==> out@[p] == alpha_byte(cs, stride as nat, width as nat, p),
        decreases height - y,
    {
        let mut x: u32 = 0;
        while x < width
            invariant
                cs == src@,
                4 * width <= stride,
                stride * height <= cs.len(),
                n_src == cs.len(),
                0 <= y < height,
                0 <= x <= width,
                out@.len() == (y as int) * (width as int) + x as int,
                forall|p: int|
                    0 <= p < out@.len() ==> out@[p] == alpha_byte(
                        cs,
                        stride as nat,
                        width as nat,
                        p,
                    ),
            decreases width - x,
        {
            proof {
                lemma_pixel_byte_bounds(
                    y as int,
                    x as int,
                    stride as int,
                    width as int,
                    height as int,
                    4,
                    cs.len() as int,
                );
                vstd::arithmetic::div_mod::lemma_fundamental_div_mod_converse(
                    y as int * width as int + x as int,
                    width as int,
                    y as int,
                    x as int,
                );
            }
            let a = src[(y as usize) * (stride as usize) + (x as usize) * 4 + 3];
            out.push(a);
            x = x + 1;
        }
        proof {
            assert((y + 1) as int * (width as int) == (y as int) * (width as int) + width as int)
                by (nonlinear_arith);
        }
        y = y + 1;
    }
    proof {
        assert((height as int) * (width as int) == (width as int) * (height as int))
            by (nonlinear_arith);
    }
    out
}

/// Byte `j` of the destination after scattering a tight RGB image (and an
/// alpha plane, for layouts that carry one) back into a strided interleaved
/// buffer: pixel bytes take the gathered components, padding and rows past
/// the image keep their old value.
pub open spec fn scattered_byte(
    olds: Seq<u8>,
    rgb: Seq<u8>,
    al: Seq<u8>,
    stride: nat,
    width: nat,
    height: nat,
    layout: PixelLayout,
    j: int,
) -> u8 {
    let y = j / stride as int;
    let rem = j % stride as int;
    let x = rem / channels_of(layout) as int;
    let ch = rem % channels_of(layout) as int;
    if y < height && rem < width * channels_of(layout) {
        if ch == offsets_of(layout).0 {
            rgb[3 * (y * width + x)]
        } else if ch == offsets_of(layout).1 {
            rgb[3 * (y * width + x) + 1]
        } else if ch == offsets_of(layout).2 {
            rgb[3 * (y * width + x) + 2]
        } else if layout_has_alpha(layout) && ch == 3 {
            al[y * width + x]
        } else {
            olds[j]
        }
    } else {
        olds[j]
    }
}

/// Scatters a tight RGB image (with an alpha plane for 4-channel layouts)
/// into a strided interleaved destination, leaving padding bytes and
/// anything past the image untouched.
#[verifier::rlimit(60)]
pub fn scatter_rgb(
    dst: &mut Vec<u8>,
    stride: u32,
    width: u32,
    height: u32,
    layout: PixelLayout,
    rgb: &Vec<u8>,
    alpha: &Vec<u8>,
)
    requires
        1 <= width,
        channels_of(layout) * width <= stride,
        stride * height <= old(dst)@.len(),
        rgb@.len() == 3 * (width as int) * (height as int),
        layout_has_alpha(layout) ==> alpha@.len() == (width as int) * (height as int),
    ensures
        final(dst)@.len() == old(dst)@.len(),
        forall|j: int|
            0 <= j < old(dst)@.len() ==> final(dst)@[j] == scattered_byte(
                old(dst)@,
                rgb@,
                alpha@,
                stride as nat,
                width as nat,
                height as nat,
                layout,
                j,
            ),
{
    let channels = layout_channels(layout);
    let offs = layout_offsets(layout);
    let ghost olds: Seq<u8> = dst@;
    let ghost rs: Seq<u8> = rgb@;
    let ghost als: Seq<u8> = alpha@;
    let n_dst: usize = dst.len();
    let n_rgb: usize = rgb.len();
    let mut y: u32 = 0;
    while y < height
        invariant
            channels == channels_of(layout),
            offs.0 == offsets_of(layout).0 && offs.1 == offsets_of(layout).1 && offs.2
                == offsets_of(layout).2,
            offs.0 < channels && offs.1 < channels && offs.2 < channels,
            channels == 3 || channels == 4,
            channels == 4 <==> layout_has_alpha(layout),
            channels * width <= stride,
            stride * height <= olds.len(),
            n_dst == olds.len(),
            dst@.len() == n_dst,
            rs == rgb@,
            als == alpha@,
            n_rgb == rs.len(),
            rs.len() == 3 * (width as int) * (height as int),
            layout_has_alpha(layout) ==> als.len() == (width as int) * (height as int),
            1 <= width,
            1 <= stride,
            0 <= y <= height,
            forall|j: int|
                0 <= j < y * stride ==> dst@[j] == scattered_byte(
                    olds,
                    rs,
                    als,
                    stride as nat,
                    width as nat,
                    height as nat,
                    layout,
                    j,
                ),
            forall|j: int| y * stride <= j < n_dst ==> dst@[j] == olds[j],
        decreases height - y,
    {
        let mut x: u32 = 0;
        while x < width
            invariant
                channels == channels_of(layout),
                offs.0 == offsets_of(layout).0 && offs.1 == offsets_of(layout).1 && offs.2
                    == offsets_of(layout).2,
                offs.0 < channels && offs.1 < channels && offs.2 < channels,
                channels == 3 || channels == 4,
                channels == 4 <==> layout_has_alpha(layout),
                channels * width <= stride,
                stride * height <= olds.len(),
                n_dst == olds.len(),
                dst@.len() == n_dst,
                rs == rgb@,
                als == alpha@,
                n_rgb == rs.len(),
                rs.len() == 3 * (width as int) * (height as int),
                layout_has_alpha(layout) ==> als.len() == (width as int) * (height as int),
                1 <= width,
                1 <= stride,
                0 <= y < height,
                0 <= x <= width,
                forall|j: int|
                    0 <= j < y * stride + x * channels ==> dst@[j] == scattered_byte(
                        olds,
                        rs,
                        als,
                        stride as nat,
                        width as nat,
                        height as nat,
                        layout,
                        j,
                    ),
                forall|j: int| y * stride + x * channels <= j < n_dst ==> dst@[j] == olds[j],
            decreases width - x,
        {
            proof {
                lemma_pixel_byte_bounds(
                    y as int,
                    x as int,
                    stride as int,
                    width as int,
                    height as int,
                    channels as int,
                    olds.len() as int,
                );
                lemma_scatter_pixel(
                    olds,
                    rs,
                    als,
                    stride as nat,
                    width as nat,
                    height as nat,
                    layout,
                    y as int,
                    x as int,
                );
                assert(3 * ((y as int) * (width as int) + x as int) + 2 < rs.len())
                    by (nonlinear_arith)
                    requires
                        rs.len() == 3 * (width as int) * (height as int),
                        0 <= y < height,
                        0 <= x < width,
                ;
                if layout_has_alpha(layout) {
                    assert((y as int) * (width as int) + (x as int) < als.len())
                        by (nonlinear_arith)
                        requires
                            als.len() == (width as int) * (height as int),
                            0 <= y < height,
                            0 <= x < width,
                    ;
                }
            }
            proof {
                assert(3 * ((y as int) * (width as int) + (x as int)) + 2 < n_rgb);
            }
            let base: usize = (y as usize) * (stride as usize) + (x as usize) * (channels as usize);
            let pix: usize = (y as usize) * (width as usize) + (x as usize);
            dst.set(base + (offs.0 as usize), rgb[3 * pix]);
            dst.set(base + (offs.1 as usize), rgb[3 * pix + 1]);
            dst.set(base + (offs.2 as usize), rgb[3 * pix + 2]);
            if channels == 4 {
                dst.set(base + 3, alpha[pix]);
            }
            proof {
                assert((x + 1) as int * (channels as int) == (x as int) * (channels as int)
                    + channels as int) by (nonlinear_arith);
                assert forall|j: int|
                    0 <= j < y * stride + ((x + 1) as int) * (channels as int) implies dst@[j]
                    == scattered_byte(
                    olds,
                    rs,
                    als,
                    stride as nat,
                    width as nat,
                    height as nat,
                    layout,
                    j,
                ) by {
                    if j >= y * stride + x * channels {
                        let ch = j - (y * stride + x * channels);
                        assert(0 <= ch < channels);
                        assert(scattered_byte(
                            olds,
                            rs,
                            als,
                            stride as nat,
                            width as nat,
                            height as nat,
                            layout,
                            (y as int) * (stride as int) + (x as int) * (channels as int) + ch,
                        ) == (if ch == offsets_of(layout).0 {
                            rs[3 * ((y as int) * (width as int) + x as int)]
                        } else if ch == offsets_of(layout).1 {
                            rs[3 * ((y as int) * (width as int) + x as int) + 1]
                        } else if ch == offsets_of(layout).2 {
                            rs[3 * ((y as int) * (width as int) + x as int) + 2]
                        } else {
                            als[(y as int) * (width as int) + x as int]
                        }));
                    }
                }
            }
            x = x + 1;
        }
        proof {
            lemma_scatter_row_padding(
                olds,
                rs,
                als,
                stride as nat,
                width as nat,
                height as nat,
                layout,
                y as int,
            );
            assert(((y + 1) as int) * (stride as int) == (y as int) * (stride as int)
                + stride as int) by (nonlinear_arith);
            assert(((y + 1) as int) * (stride as int) <= (stride as int) * (height as int))
                by (nonlinear_arith)
                requires
                    0 <= y < height,
                    stride >= 1,
            ;
            assert forall|j: int|
                0 <= j < ((y + 1) as int) * (stride as int) implies dst@[j] == scattered_byte(
                olds,
                rs,
                als,
                stride as nat,
                width as nat,
                height as nat,
                layout,
                j,
            ) by {
                if j >= (y as int) * (stride as int) + (width as int) * (channels as int) {
                    assert(dst@[j] == olds[j]);
                    assert((width as int) * (channels as int) == width * channels_of(layout))
                        by (nonlinear_arith)
                        requires
                            channels == channels_of(layout),
                    ;
                }
            }
        }
        y = y + 1;
    }
    proof {
        assert forall|j: int| 0 <= j < n_dst implies dst@[j] == scattered_byte(
            olds,
            rs,
            als,
            stride as nat,
            width as nat,
            height as nat,
            layout,
            j,
        ) by {
            if j >= y * stride {
                vstd::arithmetic::div_mod::lemma_fundamental_div_mod(j, stride as int);
                vstd::arithmetic::div_mod::lemma_mod_bound(j, stride as int);
                assert(j / (stride as int) >= height) by (nonlinear_arith)
                    requires
                        j == (stride as int) * (j / (stride as int)) + (j % (stride as int)),
                        0 <= (j % (stride as int)) < stride,
                        j >= (height as int) * (stride as int),
                        stride >= 1,
                        j / (stride as int) >= 0,
                ;
            }
        }
    }
}

/// The bytes of pixel `(y, x)` decompose to that pixel under the scatter
/// spec, and every position strictly before them that the pixel does not
/// touch is already settled.
proof fn lemma_scatter_pixel(
    olds: Seq<u8>,
    rgb: Seq<u8>,
    al: Seq<u8>,
    stride: nat,
    width: nat,
    height: nat,
    layout: PixelLayout,
    y: int,
    x: int,
)
    requires
        0 <= y < height,
        0 <= x < width,
        channels_of(layout) * width <= stride,
    ensures
        forall|ch: int|
            0 <= ch < channels_of(layout) ==> #[trigger] scattered_byte(
                olds,
                rgb,
                al,
                stride,
                width,
                height,
                layout,
                y * stride + x * channels_of(layout) + ch,
            ) == (if ch == offsets_of(layout).0 {
                rgb[3 * (y * width + x)]
            } else if ch == offsets_of(layout).1 {
                rgb[3 * (y * width + x) + 1]
            } else if ch == offsets_of(layout).2 {
                rgb[3 * (y * width + x) + 2]
            } else {
                al[y * width + x]
            }),
{
    let c = channels_of(layout) as int;
    assert forall|ch: int| 0 <= ch < channels_of(layout) implies #[trigger] scattered_byte(
        olds,
        rgb,
        al,
        stride,
        width,
        height,
        layout,
        y * stride + x * c + ch,
    ) == (if ch == offsets_of(layout).0 {
        rgb[3 * (y * width + x)]
    } else if ch == offsets_of(layout).1 {
        rgb[3 * (y * width + x) + 1]
    } else if ch == offsets_of(layout).2 {
        rgb[3 * (y * width + x) + 2]
    } else {
        al[y * width + x]
    }) by {
        let j = y * stride + x * c + ch;
        assert(0 <= x * c + ch < stride) by (nonlinear_arith)
            requires
                0 <= x < width,
                0 <= ch < c,
                c * width <= stride,
                c >= 1,
        ;
        vstd::arithmetic::div_mod::lemma_fundamental_div_mod_converse(
            j,
            stride as int,
            y,
            x * c + ch,
        );
        vstd::arithmetic::div_mod::lemma_fundamental_div_mod_converse(x * c + ch, c, x, ch);
        assert(x * c + ch < width * c) by (nonlinear_arith)
            requires
                0 <= x < width,
                0 <= ch < c,
        ;
        assert(width * c == width * channels_of(layout));
    }
}

/// Padding bytes of row `y` (past the last pixel, before the next row)
/// keep their old value under the scatter spec.
proof fn lemma_scatter_row_padding(
    olds: Seq<u8>,
    rgb: Seq<u8>,
    al: Seq<u8>,
    stride: nat,
    width: nat,
    height: nat,
    layout: PixelLayout,
    y: int,
)
    requires
        0 <= y < height,
        channels_of(layout) * width <= stride,
    ensures
        forall|j: int|
            y * stride + width * channels_of(layout) <= j < (y + 1) * stride
                ==> #[trigger] scattered_byte(olds, rgb, al, stride, width, height, layout, j)
                == olds[j],
{
    let c = channels_of(layout) as int;
    assert forall|j: int|
        y * stride + width * c <= j < (y + 1) * stride implies #[trigger] scattered_byte(
        olds,
        rgb,
        al,
        stride,
        width,
        height,
        layout,
        j,
    ) == olds[j] by {
        assert((y + 1) * stride == y * stride + stride) by (nonlinear_arith);
        vstd::arithmetic::div_mod::lemma_fundamental_div_mod_converse(
            j,
            stride as int,
            y,
            j - y * stride,
        );
        assert(j % stride as int >= width * channels_of(layout));
    }
}

/// Whether byte `j` of a strided interleaved buffer is one of the red,
/// green or blue bytes of a pixel inside the image.
pub open spec fn rgb_byte_pos(stride: nat, width: nat, height: nat, layout: PixelLayout, j: int) -> bool {
    let y = j / stride as int;
    let rem = j % stride as int;
    let ch = rem % channels_of(layout) as int;
    y < height && rem < width * channels_of(layout) && (ch == offsets_of(layout).0 || ch
        == offsets_of(layout).1 || ch == offsets_of(layout).2)
}

/// Whether byte `j` of a strided interleaved buffer is the alpha byte of a
/// pixel inside the image.
pub open spec fn alpha_byte_pos(
    stride: nat,
    width: nat,
    height: nat,
    layout: PixelLayout,
    j: int,
) -> bool {
    let y = j / stride as int;
    let rem = j % stride as int;
    let ch = rem % channels_of(layout) as int;
    layout_has_alpha(layout) && y < height && rem < width * channels_of(layout) && ch == 3
}

/// The source alpha byte that lands on destination byte `j`: both buffers
/// address the same pixel grid, each through its own stride.
pub open spec fn carried_alpha_byte(
    src: Seq<u8>,
    src_stride: nat,
    dst_stride: nat,
    width: nat,
    layout: PixelLayout,
    j: int,
) -> u8 {
    alpha_byte(
        src,
        src_stride,
        width,
        (j / dst_stride as int) * width + (j % dst_stride as int) / channels_of(layout) as int,
    )
}

/// The equalized component of pixel `p` of the packed representation:
/// component `pos` of its three interleaved components.
pub open spec fn plane_value(packed: Seq<u16>, pos: int, p: int) -> u16 {
    packed[3 * p + pos]
}

/// Extracts the equalized component (`pos` of every pixel's three) of the
/// packed representation as one plane.
pub fn extract_plane(packed: &Vec<u16>, pixels: usize, pos: usize) -> (out: Vec<u16>)
    requires
        packed@.len() == 3 * pixels,
        pos < 3,
    ensures
        out@.len() == pixels,
        forall|p: int| 0 <= p < pixels ==> out@[p] == plane_value(packed@, pos as int, p),
{
    let n_packed: usize = packed.len();
    let mut out: Vec<u16> = Vec::new();
    let mut p: usize = 0;
    while p < pixels
        invariant
            packed@.len() == 3 * pixels,
            n_packed == packed@.len(),
            pos < 3,
            0 <= p <= pixels,
            out@.len() == p,
            forall|k: int| 0 <= k < p ==> out@[k] == plane_value(packed@, pos as int, k),
        decreases pixels - p,
    {
        out.push(packed[3 * p + pos]);
        p = p + 1;
    }
    out
}

/// Stores an equalized plane back into component `pos` of every pixel of
/// the packed representation, leaving the other components alone.
pub fn store_plane(packed: &mut Vec<u16>, plane: &Vec<u16>, pos: usize)
    requires
        old(packed)@.len() == 3 * plane@.len(),
        pos < 3,
    ensures
        final(packed)@.len() == old(packed)@.len(),
        forall|j: int|
            0 <= j < old(packed)@.len() ==> final(packed)@[j] == (if j % 3 == pos {
                plane@[j / 3]
            } else {
                old(packed)@[j]
            }),
{
    let ghost olds: Seq<u16> = packed@;
    let n_packed: usize = packed.len();
    let pixels = plane.len();
    let mut p: usize = 0;
    while p < pixels
        invariant
            olds.len() == 3 * pixels,
            n_packed == olds.len(),
            packed@.len() == olds.len(),
            plane@.len() == pixels,
            pos < 3,
            0 <= p <= pixels,
            forall|j: int|
                0 <= j < olds.len() ==> packed@[j] == (if j % 3 == pos && j / 3 < p {
                    plane@[j / 3]
                } else {
                    olds[j]
                }),
        decreases pixels - p,
    {
        proof {
            vstd::arithmetic::div_mod::lemma_fundamental_div_mod_converse(
                3 * (p as int) + pos as int,
                3,
                p as int,
                pos as int,
            );
        }
        packed.set(3 * p + pos, plane[p]);
        p = p + 1;
    }
}

/// The packed lightness value rescaled into the histogram bin range: the
/// value (cut to full scale) times `bins_count - 1` over the full scale,
/// rounded half away from zero.
pub open spec fn scaled_to_bins(v: u16, bins_count: int) -> int {
    round_half_up_div((if v > 10000 {
        10000int
    } else {
        v as int
    }) * (bins_count - 1), 10000)
}

/// The equalized bin value rescaled back to the packed lightness scale.
pub open spec fn scaled_from_bins(v: u16, bins_count: int) -> int {
    round_half_up_div((if v > bins_count - 1 {
        bins_count - 1
    } else {
        v as int
    }) * 10000, bins_count - 1)
}

/// Rescales a packed lightness plane into `[0, bins_count - 1]` so the
/// engine's histograms index it directly.
pub fn scale_plane_to_bins(plane: &mut Vec<u16>, bins_count: usize)
    requires
        2 <= bins_count <= 65536,
    ensures
        final(plane)@.len() == old(plane)@.len(),
        forall|p: int|
            0 <= p < old(plane)@.len() ==> final(plane)@[p] == scaled_to_bins(
                old(plane)@[p],
                bins_count as int,
            ) && final(plane)@[p] <= bins_count - 1,
{
    let ghost olds: Seq<u16> = plane@;
    let n = plane.len();
    let mut p: usize = 0;
    while p < n
        invariant
            olds.len() == n,
            plane@.len() == n,
            2 <= bins_count <= 65536,
            0 <= p <= n,
            forall|k: int|
                0 <= k < p ==> plane@[k] == scaled_to_bins(olds[k], bins_count as int) && plane@[k]
                    <= bins_count - 1,
            forall|k: int| p <= k < n ==> plane@[k] == olds[k],
        decreases n - p,
    {
        let mut v: u64 = plane[p] as u64;
        if v > 10000 {
            v = 10000;
        }
        proof {
            assert((v as int) * (bins_count - 1) <= 10000 * 65535) by (nonlinear_arith)
                requires
                    0 <= v <= 10000,
                    2 <= bins_count <= 65536,
            ;
        }
        let num: u64 = v * ((bins_count - 1) as u64);
        let q: u64 = (2 * num + 10000) / 20000;
        proof {
            assert(q == round_half_up_div((v as int) * (bins_count - 1), 10000));
            assert(q <= bins_count - 1) by (nonlinear_arith)
                requires
                    q == (2 * ((v as int) * (bins_count - 1)) + 10000) / 20000,
                    0 <= v <= 10000,
                    2 <= bins_count,
            ;
        }
        plane.set(p, q as u16);
        p = p + 1;
    }
}

/// Rescales an equalized plane from `[0, bins_count - 1]` back to the
/// packed lightness scale.
pub fn scale_plane_from_bins(plane: &mut Vec<u16>, bins_count: usize)
    requires
        2 <= bins_count <= 65536,
    ensures
        final(plane)@.len() == old(plane)@.len(),
        forall|p: int|
            0 <= p < old(plane)@.len() ==> final(plane)@[p] == scaled_from_bins(
                old(plane)@[p],
                bins_count as int,
            ) && final(plane)@[p] <= 10000,
{
    let ghost olds: Seq<u16> = plane@;
    let n = plane.len();
    let max_bins: u64 = (bins_count - 1) as u64;
    let mut p: usize = 0;
    while p < n
        invariant
            olds.len() == n,
            plane@.len() == n,
            2 <= bins_count <= 65536,
            max_bins == bins_count - 1,
            0 <= p <= n,
            forall|k: int|
                0 <= k < p ==> plane@[k] == scaled_from_bins(olds[k], bins_count as int)
                    && plane@[k] <= 10000,
            forall|k: int| p <= k < n ==> plane@[k] == olds[k],
        decreases n - p,
    {
        let mut v: u64 = plane[p] as u64;
        if v > max_bins {
            v = max_bins;
        }
        proof {
            assert((v as int) * 10000 <= 65535 * 10000) by (nonlinear_arith)
                requires
                    0 <= v <= 65535,
            ;
        }
        let num: u64 = v * 10000;
        let q: u64 = (2 * num + max_bins) / (2 * max_bins);
        proof {
            assert(q == round_half_up_div((v as int) * 10000, bins_count - 1));
            assert(q <= 10000) by (nonlinear_arith)
                requires
                    q == (2 * ((v as int) * 10000) + (bins_count - 1)) / (2 * (bins_count - 1)),
                    0 <= v <= bins_count - 1,
                    2 <= bins_count,
            ;
        }
        plane.set(p, q as u16);
        p = p + 1;
    }
}

/// Widens an 8-bit plane to the 16-bit plane the engine works on, value
/// for value.
pub fn plane_widen(p: &Vec<u8>) -> (out: Vec<u16>)
    ensures
        out@.len() == p@.len(),
        forall|i: int| 0 <= i < p@.len() ==> out@[i] == p@[i],
{
    let mut out: Vec<u16> = Vec::new();
    let mut i: usize = 0;
    while i < p.len()
        invariant
            0 <= i <= p@.len(),
            out@.len() == i,
            forall|k: int| 0 <= k < i ==> out@[k] == p@[k],
        decreases p@.len() - i,
    {
        out.push(p[i] as u16);
        i = i + 1;
    }
    out
}

/// Narrows a 16-bit plane of byte-sized values back to an 8-bit plane,
/// value for value.
pub fn plane_narrow(p: &Vec<u16>) -> (out: Vec<u8>)
    requires
        forall|i: int| 0 <= i < p@.len() ==> p@[i] <= 255,
    ensures
        out@.len() == p@.len(),
        forall|i: int| 0 <= i < p@.len() ==> out@[i] == p@[i],
{
    let mut out: Vec<u8> = Vec::new();
    let mut i: usize = 0;
    while i < p.len()
        invariant
            forall|k: int| 0 <= k < p@.len() ==> p@[k] <= 255,
            0 <= i <= p@.len(),
            out@.len() == i,
            forall|k: int| 0 <= k < i ==> out@[k] == p@[k],
        decreases p@.len() - i,
    {
        out.push(p[i] as u8);
        i = i + 1;
    }
    out
}

} // verus!
