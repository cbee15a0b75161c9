//! The tiled CLAHE/AHE engine: per-tile histograms, optional clipping,
//! cumulative mappings normalized per tile, and bilinear interpolation of
//! the mapped values between the four nearest tile centers for every pixel.
//!
//! All arithmetic is exact: histogram work in 64-bit integers, the
//! interpolation as a rational blend with denominator `4 * tile_w * tile_h`,
//! rounded half away from zero.

use vstd::prelude::*;

use crate::hist_support::{
    cdf, clamp_to_bins, clip_excess, clip_hist_clahe, clip_limit_spec, clipped_bin,
    lemma_clip_excess_to_bound, lemma_clip_term_bound, lemma_clipped_prefix_sum,
    lemma_prefix_total_monotonic, lemma_region_count_nonneg, make_histogram_region, mapping_entry,
    minmax, normalize_mapping, prefix_total, region_count, round_half_up_div, row_count,
    ClaheGridSize, EqualizeError,
};

verus! {

/// The histogram of one rectangular region, as a sequence of bins.
pub open spec fn region_hist(
    chan: Seq<u16>,
    stride: nat,
    x0: nat,
    x1: nat,
    y0: nat,
    y1: nat,
    bins_count: nat,
) -> Seq<u64> {
    Seq::new(bins_count, |b: int| region_count(chan, stride, x0, x1, y0, y1, bins_count, b) as u64)
}

/// The region histogram after the optional contrast-limiting step: with a
/// clip threshold (in thousandths), every bin is cut at the clip limit and
/// the excess is spread uniformly; without one the histogram passes through.
pub open spec fn region_clipped_hist(
    chan: Seq<u16>,
    stride: nat,
    x0: nat,
    x1: nat,
    y0: nat,
    y1: nat,
    clip: Option<u64>,
    bins_count: nat,
) -> Seq<u64> {
    let h = region_hist(chan, stride, x0, x1, y0, y1, bins_count);
    match clip {
        Option::Some(milli) => {
            let limit = clip_limit_spec(milli, (x1 - x0) as nat, (y1 - y0) as nat, bins_count);
            Seq::new(
                bins_count,
                |b: int| (clipped_bin(h[b], limit) + clip_excess(h, limit) / bins_count as int) as u64,
            )
        },
        Option::None => h,
    }
}

/// Entry `b` of the equalization mapping of one region: histogram, optional
/// clipping, cumulative sums, normalization into `[0, bins_count - 1]`.
pub open spec fn region_mapping(
    chan: Seq<u16>,
    stride: nat,
    x0: nat,
    x1: nat,
    y0: nat,
    y1: nat,
    clip: Option<u64>,
    bins_count: nat,
    b: int,
) -> int {
    mapping_entry(
        region_clipped_hist(chan, stride, x0, x1, y0, y1, clip, bins_count),
        (x1 - x0) * (y1 - y0),
        bins_count - 1,
        b,
    )
}

/// Builds the equalization mapping of the region `[x0, x1) x [y0, y1)`:
/// its histogram, clipped when a threshold is given, summed cumulatively
/// and normalized into `[0, bins_count - 1]`.
pub fn build_region_mapping(
    chan: &Vec<u16>,
    width: u32,
    height: u32,
    x0: u32,
    x1: u32,
    y0: u32,
    y1: u32,
    clip: Option<u64>,
    bins_count: usize,
) -> (m: Vec<u64>)
    requires
        2 <= bins_count <= 65536,
        x0 < x1,
        y0 < y1,
        x1 <= width,
        y1 <= height,
        height * width <= chan@.len(),
        chan@.len() <= u64::MAX,
    ensures
        m@.len() == bins_count,
        forall|b: int|
            0 <= b < bins_count ==> m@[b] == region_mapping(
                chan@,
                width as nat,
                x0 as nat,
                x1 as nat,
                y0 as nat,
                y1 as nat,
                clip,
                bins_count as nat,
                b,
            ),
        forall|b: int| 0 <= b < bins_count ==> m@[b] <= bins_count - 1,
{
    let ghost cs: Seq<u16> = chan@;
    let ghost bn: nat = bins_count as nat;
    proof {
        assert(y1 * width <= height * width) by (nonlinear_arith)
            requires
                0 <= y1 <= height,
                0 <= width,
        ;
    }
    let hist = make_histogram_region(chan, width, x0, x1, y0, y1, bins_count);
    let mut bins = hist.bins;
    let ghost h0: Seq<u64> = region_hist(
        cs,
        width as nat,
        x0 as nat,
        x1 as nat,
        y0 as nat,
        y1 as nat,
        bn,
    );
    let ghost area: int = (x1 - x0) * (y1 - y0);
    proof {
        assert(area <= y1 * width) by (nonlinear_arith)
            requires
                area == (x1 - x0) * (y1 - y0),
                0 <= x0 < x1 <= width,
                0 <= y0 < y1,
        ;
        assert forall|b: int| 0 <= b < bins_count implies h0[b] == bins@[b] by {
            lemma_region_count_nonneg(
                cs,
                width as nat,
                x0 as nat,
                x1 as nat,
                y0 as nat,
                y1 as nat,
                bn,
                b,
            );
        }
        assert(bins@ =~= h0);
    }
    let area_wide: u64 = ((x1 - x0) as u64) * ((y1 - y0) as u64);
    let ghost h1: Seq<u64> = region_clipped_hist(
        cs,
        width as nat,
        x0 as nat,
        x1 as nat,
        y0 as nat,
        y1 as nat,
        clip,
        bn,
    );
    match clip {
        Some(milli) => {
            clip_hist_clahe(&mut bins, milli, x1 - x0, y1 - y0);
            proof {
                let limit = clip_limit_spec(milli, (x1 - x0) as nat, (y1 - y0) as nat, bn);
                let ghost ex: int = clip_excess(h0, limit);
                let m_add: int = ex / bins_count as int;
                lemma_clip_excess_to_bound(h0, limit, bins_count as int);
                assert(0 <= m_add <= ex) by (nonlinear_arith)
                    requires
                        m_add == ex / bins_count as int,
                        bins_count >= 1,
                        ex >= 0,
                ;
                assert forall|b: int| 0 <= b < bins_count implies h1[b] == bins@[b] by {
                    lemma_clip_term_bound(h0, limit, b, bins_count as int);
                }
                assert(bins@ =~= h1);
                lemma_clipped_prefix_sum(h0, bins@, limit, m_add, bins_count as int);
                assert(bins_count as int * m_add <= ex) by (nonlinear_arith)
                    requires
                        m_add == ex / bins_count as int,
                        bins_count >= 1,
                        ex >= 0,
                ;
                assert(prefix_total(bins@, bins_count as int) <= area);
            }
        },
        None => {
            proof {
                assert(bins@ =~= h1);
            }
        },
    }
    proof {
        assert(prefix_total(h1, bins_count as int) <= area);
    }
    cdf(&mut bins);
    let (min_bin, _) = minmax(&bins);
    proof {
        assert(min_bin <= bins@[0]);
        let w = choose|k: int| 0 <= k < bins@.len() && bins@[k] == min_bin;
        lemma_prefix_total_monotonic(h1, 1, w + 1);
        assert(min_bin == prefix_total(h1, 1));
        lemma_prefix_total_monotonic(h1, w + 1, bins_count as int);
        assert(min_bin <= area_wide);
    }
    let max_bins: u64 = (bins_count - 1) as u64;
    normalize_mapping(&mut bins, min_bin, area_wide, max_bins);
    proof {
        assert forall|b: int| 0 <= b < bins_count implies bins@[b] == region_mapping(
            cs,
            width as nat,
            x0 as nat,
            x1 as nat,
            y0 as nat,
            y1 as nat,
            clip,
            bn,
            b,
        ) by {
            assert(bins@[b] == normalized_bin_shape(h1, area, bins_count as int, min_bin as int, b));
        }
    }
    bins
}

/// Helper shape used only to steer the proof above: entry `b` of the
/// mapping, written the way `normalize_mapping` states it.
pub open spec fn normalized_bin_shape(
    h1: Seq<u64>,
    area: int,
    bins_count: int,
    min_bin: int,
    b: int,
) -> int {
    crate::hist_support::normalized_bin(prefix_total(h1, b + 1), b, min_bin, area, bins_count - 1)
}

/// The raw tile-center cell of a position along one axis: which tile center
/// lies at or before it. Meaningful only when the position is at or past the
/// first center (`2 * p >= size`).
pub open spec fn axis_raw(p: nat, size: nat) -> int {
    (2 * p - size) / (2 * size as int)
}

/// The lower of the two tile indices a pixel interpolates between along one
/// axis. Positions before the first tile center or at/past the last clamp
/// to the nearest valid tile.
pub open spec fn axis_i0(p: nat, size: nat, count: nat) -> int {
    if 2 * p < size {
        0
    } else if axis_raw(p, size) >= count - 1 {
        count - 1
    } else {
        axis_raw(p, size)
    }
}

/// The higher of the two tile indices along one axis.
pub open spec fn axis_i1(p: nat, size: nat, count: nat) -> int {
    if 2 * p < size || axis_raw(p, size) >= count - 1 {
        axis_i0(p, size, count)
    } else {
        axis_i0(p, size, count) + 1
    }
}

/// Numerator of the fractional interpolation weight along one axis, over
/// the denominator `2 * size`: zero at the lower tile's center, growing to
/// `2 * size` at the next center. Clamped positions get weight zero.
pub open spec fn axis_frac_num(p: nat, size: nat, count: nat) -> int {
    if 2 * p < size || axis_raw(p, size) >= count - 1 {
        0
    } else {
        (2 * p - size) % (2 * size as int)
    }
}

/// Bilinear blend of four mapped values with rational weights `nx / dx`
/// horizontally and `ny / dy` vertically, rounded half away from zero.
pub open spec fn blend_corners(
    m00: int,
    m10: int,
    m01: int,
    m11: int,
    nx: int,
    dx: int,
    ny: int,
    dy: int,
) -> int {
    round_half_up_div(
        m00 * (dx - nx) * (dy - ny) + m10 * nx * (dy - ny) + m01 * (dx - nx) * ny + m11 * nx * ny,
        dx * dy,
    )
}

/// A blend of values out of `[0, maxv]` with proper weights stays in
/// `[0, maxv]`.
pub proof fn lemma_blend_bounds(
    m00: int,
    m10: int,
    m01: int,
    m11: int,
    nx: int,
    dx: int,
    ny: int,
    dy: int,
    maxv: int,
)
    requires
        0 <= m00 <= maxv,
        0 <= m10 <= maxv,
        0 <= m01 <= maxv,
        0 <= m11 <= maxv,
        0 <= nx <= dx,
        0 <= ny <= dy,
        1 <= dx,
        1 <= dy,
    ensures
        0 <= blend_corners(m00, m10, m01, m11, nx, dx, ny, dy) <= maxv,
{
    let num = m00 * (dx - nx) * (dy - ny) + m10 * nx * (dy - ny) + m01 * (dx - nx) * ny + m11 * nx
        * ny;
    let den = dx * dy;
    assert(0 <= num <= maxv * den) by (nonlinear_arith)
        requires
            num == m00 * (dx - nx) * (dy - ny) + m10 * nx * (dy - ny) + m01 * (dx - nx) * ny + m11
                * nx * ny,
            den == dx * dy,
            0 <= m00 <= maxv,
            0 <= m10 <= maxv,
            0 <= m01 <= maxv,
            0 <= m11 <= maxv,
            0 <= nx <= dx,
            0 <= ny <= dy,
            1 <= dx,
            1 <= dy,
    ;
    assert(den >= 1) by (nonlinear_arith)
        requires
            den == dx * dy,
            1 <= dx,
            1 <= dy,
    ;
    assert(0 <= (2 * num + den) / (2 * den) <= maxv) by (nonlinear_arith)
        requires
            0 <= num <= maxv * den,
            den >= 1,
    ;
}

/// Bilinear interpolation of four mapped values with rational weights,
/// rounded half away from zero: the exact integer counterpart of blending
/// with fractional weights `nx / dx` and `ny / dy`.
pub fn blerp(m00: u64, m10: u64, m01: u64, m11: u64, nx: u64, dx: u64, ny: u64, dy: u64) -> (r:
    u64)
    requires
        m00 <= 65535,
        m10 <= 65535,
        m01 <= 65535,
        m11 <= 65535,
        1 <= dx <= 0x2_0000_0000,
        1 <= dy <= 0x2_0000_0000,
        nx <= dx,
        ny <= dy,
    ensures
        r == blend_corners(
            m00 as int,
            m10 as int,
            m01 as int,
            m11 as int,
            nx as int,
            dx as int,
            ny as int,
            dy as int,
        ),
        r <= 65535,
{
    proof {
        lemma_blend_bounds(
            m00 as int,
            m10 as int,
            m01 as int,
            m11 as int,
            nx as int,
            dx as int,
            ny as int,
            dy as int,
            65535,
        );
        assert((dx as int) * (dy as int) <= 0x4_0000_0000_0000_0000) by (nonlinear_arith)
            requires
                1 <= dx <= 0x2_0000_0000,
                1 <= dy <= 0x2_0000_0000,
        ;
    }
    let wx0: u128 = (dx - nx) as u128;
    let wx1: u128 = nx as u128;
    let wy0: u128 = (dy - ny) as u128;
    let wy1: u128 = ny as u128;
    proof {
        assert((m00 as int) * (wx0 as int) <= 0x2_0000_0000_0000 && (m10 as int) * (wx1 as int)
            <= 0x2_0000_0000_0000 && (m01 as int) * (wx0 as int) <= 0x2_0000_0000_0000 && (
        m11 as int) * (wx1 as int) <= 0x2_0000_0000_0000 && (m00 as int) * (wx0 as int) * (
        wy0 as int) <= 0x10_0000_0000_0000_0000_0000 && (m10 as int) * (wx1 as int) * (wy0 as int)
            <= 0x10_0000_0000_0000_0000_0000 && (m01 as int) * (wx0 as int) * (wy1 as int)
            <= 0x10_0000_0000_0000_0000_0000 && (m11 as int) * (wx1 as int) * (wy1 as int)
            <= 0x10_0000_0000_0000_0000_0000) by (nonlinear_arith)
            requires
                0 <= m00 <= 65535,
                0 <= m10 <= 65535,
                0 <= m01 <= 65535,
                0 <= m11 <= 65535,
                0 <= wx0 <= dx,
                0 <= wx1 <= dx,
                0 <= wy0 <= dy,
                0 <= wy1 <= dy,
                1 <= dx <= 0x2_0000_0000,
                1 <= dy <= 0x2_0000_0000,
        ;
        assert((dx as int) * (dy as int) >= 1) by (nonlinear_arith)
            requires
                1 <= dx,
                1 <= dy,
        ;
    }
    let num: u128 = (m00 as u128) * wx0 * wy0 + (m10 as u128) * wx1 * wy0 + (m01 as u128) * wx0
        * wy1 + (m11 as u128) * wx1 * wy1;
    let den: u128 = (dx as u128) * (dy as u128);
    let q: u128 = (2 * num + den) / (2 * den);
    q as u64
}

/// The two tile indices a position interpolates between along one axis and
/// the numerator of its fractional weight (over `2 * size`). Positions
/// before the first tile center or at/past the last use the nearest tile
/// twice, with weight zero.
fn axis_position(p: u32, size: u32, count: u32) -> (r: (u32, u32, u64))
    requires
        size >= 1,
        count >= 1,
    ensures
        r.0 == axis_i0(p as nat, size as nat, count as nat),
        r.1 == axis_i1(p as nat, size as nat, count as nat),
        r.2 == axis_frac_num(p as nat, size as nat, count as nat),
        r.0 <= r.1 < count,
        r.2 <= 2 * size,
{
    let p64: u64 = p as u64;
    let size64: u64 = size as u64;
    if 2 * p64 < size64 {
        (0, 0, 0)
    } else {
        let raw: u64 = (2 * p64 - size64) / (2 * size64);
        if raw >= (count - 1) as u64 {
            proof {
                assert(axis_raw(p as nat, size as nat) == raw as int);
            }
            (count - 1, count - 1, 0)
        } else {
            let i0: u32 = raw as u32;
            let nx: u64 = (2 * p64 - size64) % (2 * size64);
            proof {
                assert(axis_raw(p as nat, size as nat) == raw as int);
            }
            (i0, i0 + 1, nx)
        }
    }
}

/// Start of tile `i` along one axis.
pub open spec fn tile_low(i: int, size: nat) -> nat {
    (i * size) as nat
}

/// End of tile `i` along one axis: the nominal boundary, except that the
/// last tile absorbs the remainder up to the image edge.
pub open spec fn tile_high(i: int, size: nat, count: nat, dim: nat) -> nat {
    if i + 1 == count {
        dim
    } else {
        ((i + 1) * size) as nat
    }
}

/// Entry `b` of the equalization mapping of tile `(r, c)`.
pub open spec fn tile_map_at(
    chan: Seq<u16>,
    width: nat,
    height: nat,
    tw: nat,
    th: nat,
    tiles_h: nat,
    tiles_v: nat,
    clip: Option<u64>,
    bins_count: nat,
    r: int,
    c: int,
    b: int,
) -> int {
    region_mapping(
        chan,
        width,
        tile_low(c, tw),
        tile_high(c, tw, tiles_h, width),
        tile_low(r, th),
        tile_high(r, th, tiles_v, height),
        clip,
        bins_count,
        b,
    )
}

/// What one pixel becomes under tiled equalization: its value, clamped to
/// the bin range, looked up in the mappings of the four nearest tiles and
/// blended bilinearly by its position between their centers.
pub open spec fn clahe_pixel(
    chan: Seq<u16>,
    width: nat,
    height: nat,
    tw: nat,
    th: nat,
    tiles_h: nat,
    tiles_v: nat,
    clip: Option<u64>,
    bins_count: nat,
    x: nat,
    y: nat,
) -> int {
    let v = clamp_to_bins(chan[(y * width + x) as int], bins_count);
    let c0 = axis_i0(x, tw, tiles_h);
    let c1 = axis_i1(x, tw, tiles_h);
    let nx = axis_frac_num(x, tw, tiles_h);
    let r0 = axis_i0(y, th, tiles_v);
    let r1 = axis_i1(y, th, tiles_v);
    let ny = axis_frac_num(y, th, tiles_v);
    blend_corners(
        tile_map_at(chan, width, height, tw, th, tiles_h, tiles_v, clip, bins_count, r0, c0, v),
        tile_map_at(chan, width, height, tw, th, tiles_h, tiles_v, clip, bins_count, r0, c1, v),
        tile_map_at(chan, width, height, tw, th, tiles_h, tiles_v, clip, bins_count, r1, c0, v),
        tile_map_at(chan, width, height, tw, th, tiles_h, tiles_v, clip, bins_count, r1, c1, v),
        nx,
        2 * tw as int,
        ny,
        2 * th as int,
    )
}

/// Whether the configuration and plane geometry of a tiled equalization
/// call are acceptable: a sane bin count, a non-empty grid no finer than
/// the image, and a plane of exactly `width * height` values.
pub open spec fn adaptive_plane_ok(
    chan: Seq<u16>,
    width: u32,
    height: u32,
    grid: ClaheGridSize,
    bins_count: usize,
) -> bool {
    &&& 2 <= bins_count <= 65536
    &&& grid.w > 0
    &&& grid.h > 0
    &&& width as int / grid.w as int > 0
    &&& height as int / grid.h as int > 0
    &&& chan.len() == width * height
}

/// What pixel `i` (in row-major order) of the plane becomes under tiled
/// equalization with the given grid: the tile sizes are the image
/// dimensions divided by the grid, the tile counts the dimensions divided
/// by the tile sizes, and the pixel is blended between its four nearest
/// tile mappings.
pub open spec fn adaptive_pixel(
    chan: Seq<u16>,
    width: u32,
    height: u32,
    clip: Option<u64>,
    grid: ClaheGridSize,
    bins_count: usize,
    i: int,
) -> int {
    let tw = (width as int / grid.w as int) as nat;
    let th = (height as int / grid.h as int) as nat;
    let tiles_h = (width as int / tw as int) as nat;
    let tiles_v = (height as int / th as int) as nat;
    clahe_pixel(
        chan,
        width as nat,
        height as nat,
        tw,
        th,
        tiles_h,
        tiles_v,
        clip,
        bins_count as nat,
        (i % width as int) as nat,
        (i / width as int) as nat,
    )
}

/// One built tile mapping: the right length, every entry the spec's mapping
/// value for tile `(r, c)`, and every entry within the bin range.
pub open spec fn tile_vec_ok(
    m: Vec<u64>,
    chan: Seq<u16>,
    width: nat,
    height: nat,
    tw: nat,
    th: nat,
    tiles_h: nat,
    tiles_v: nat,
    clip: Option<u64>,
    bins_count: nat,
    r: int,
    c: int,
) -> bool {
    &&& m@.len() == bins_count
    &&& forall|b: int|
        0 <= b < bins_count ==> #[trigger] m@[b] == tile_map_at(
            chan,
            width,
            height,
            tw,
            th,
            tiles_h,
            tiles_v,
            clip,
            bins_count,
            r,
            c,
            b,
        ) && m@[b] <= bins_count - 1
}

/// Every built tile mapping matches the spec, tile `t` standing for grid
/// position `(t / tiles_h, t % tiles_h)`.
pub open spec fn maps_entries_ok(
    maps: Seq<Vec<u64>>,
    chan: Seq<u16>,
    width: nat,
    height: nat,
    tw: nat,
    th: nat,
    tiles_h: nat,
    tiles_v: nat,
    clip: Option<u64>,
    bins_count: nat,
) -> bool {
    forall|t: int|
        0 <= t < maps.len() ==> tile_vec_ok(
            #[trigger] maps[t],
            chan,
            width,
            height,
            tw,
            th,
            tiles_h,
            tiles_v,
            clip,
            bins_count,
            t / tiles_h as int,
            t % tiles_h as int,
        )
}

/// Tiled adaptive histogram equalization of one channel plane, in place:
/// AHE when `clip` is `None`, CLAHE with the given clip threshold (in
/// thousandths) otherwise. The plane holds `width * height` values, each
/// expected in `[0, bins_count - 1]` (values outside are clamped). The
/// image is cut into a grid of tiles; each tile gets its own normalized
/// cumulative mapping; every pixel is blended bilinearly between the
/// mappings of its four nearest tiles, border pixels reusing the nearest
/// tile. On a configuration or geometry error the plane is left untouched.
pub fn adaptive_equalize_plane(
    chan: &mut Vec<u16>,
    width: u32,
    height: u32,
    clip: Option<u64>,
    grid: ClaheGridSize,
    bins_count: usize,
) -> (r: Result<(), EqualizeError>)
    ensures
        final(chan)@.len() == old(chan)@.len(),
        r.is_ok() <==> adaptive_plane_ok(old(chan)@, width, height, grid, bins_count),
        r.is_err() ==> final(chan)@ == old(chan)@,
        !(2 <= bins_count <= 65536) ==> r == Result::<(), EqualizeError>::Err(
            EqualizeError::InvalidBinsCount,
        ),
        2 <= bins_count <= 65536 && (grid.w == 0 || grid.h == 0) ==> r == Result::<
            (),
            EqualizeError,
        >::Err(EqualizeError::ZeroGridSize),
        2 <= bins_count <= 65536 && grid.w > 0 && grid.h > 0 && (width as int / grid.w as int == 0
            || height as int / grid.h as int == 0) ==> r == Result::<(), EqualizeError>::Err(
            EqualizeError::GridLargerThanImage,
        ),
        2 <= bins_count <= 65536 && grid.w > 0 && grid.h > 0 && width as int / grid.w as int > 0
            && height as int / grid.h as int > 0 && old(chan)@.len() != width * height ==> r
            == Result::<(), EqualizeError>::Err(EqualizeError::BufferSizeMismatch),
        r.is_ok() ==> forall|i: int|
            0 <= i < old(chan)@.len() ==> final(chan)@[i] == adaptive_pixel(
                old(chan)@,
                width,
                height,
                clip,
                grid,
                bins_count,
                i,
            ),
        r.is_ok() ==> forall|i: int|
            0 <= i < old(chan)@.len() ==> final(chan)@[i] <= bins_count - 1,
{
    if bins_count <= 1 || bins_count > 65536 {
        return Err(EqualizeError::InvalidBinsCount);
    }
    if grid.w == 0 || grid.h == 0 {
        return Err(EqualizeError::ZeroGridSize);
    }
    let tile_w: u32 = width / grid.w;
    let tile_h: u32 = height / grid.h;
    if tile_w == 0 || tile_h == 0 {
        return Err(EqualizeError::GridLargerThanImage);
    }
    proof {
        assert((width as int) * (height as int) <= u64::MAX) by (nonlinear_arith)
            requires
                width <= u32::MAX,
                height <= u32::MAX,
        ;
    }
    let total_wide: u64 = (width as u64) * (height as u64);
    if (chan.len() as u64) != total_wide {
        return Err(EqualizeError::BufferSizeMismatch);
    }
    let tiles_h: u32 = width / tile_w;
    let tiles_v: u32 = height / tile_h;
    let ghost cs: Seq<u16> = chan@;
    let ghost bn: nat = bins_count as nat;
    let n_len: usize = chan.len();
    proof {
        vstd::arithmetic::div_mod::lemma_fundamental_div_mod(width as int, tile_w as int);
        vstd::arithmetic::div_mod::lemma_fundamental_div_mod(height as int, tile_h as int);
        assert(tiles_h * tile_w <= width < (tiles_h + 1) * tile_w) by (nonlinear_arith)
            requires
                width as int == (tile_w as int) * ((width as int) / (tile_w as int)) + (
                width as int) % (tile_w as int),
                0 <= (width as int) % (tile_w as int) < tile_w,
                tiles_h == (width as int) / (tile_w as int),
                tile_w >= 1,
        ;
        assert(tiles_v * tile_h <= height < (tiles_v + 1) * tile_h) by (nonlinear_arith)
            requires
                height as int == (tile_h as int) * ((height as int) / (tile_h as int)) + (
                height as int) % (tile_h as int),
                0 <= (height as int) % (tile_h as int) < tile_h,
                tiles_v == (height as int) / (tile_h as int),
                tile_h >= 1,
        ;
        vstd::arithmetic::div_mod::lemma_fundamental_div_mod(width as int, grid.w as int);
        vstd::arithmetic::div_mod::lemma_fundamental_div_mod(height as int, grid.h as int);
        assert(tile_w <= width) by (nonlinear_arith)
            requires
                width as int == (grid.w as int) * ((width as int) / (grid.w as int)) + (
                width as int) % (grid.w as int),
                0 <= (width as int) % (grid.w as int),
                tile_w == (width as int) / (grid.w as int),
                tile_w >= 1,
                grid.w >= 1,
        ;
        assert(tile_h <= height) by (nonlinear_arith)
            requires
                height as int == (grid.h as int) * ((height as int) / (grid.h as int)) + (
                height as int) % (grid.h as int),
                0 <= (height as int) % (grid.h as int),
                tile_h == (height as int) / (grid.h as int),
                tile_h >= 1,
                grid.h >= 1,
        ;
        assert(tiles_h >= 1) by (nonlinear_arith)
            requires
                width < (tiles_h + 1) * tile_w,
                tile_w <= width,
                tile_w >= 1,
                tiles_h >= 0,
        ;
        assert(tiles_v >= 1) by (nonlinear_arith)
            requires
                height < (tiles_v + 1) * tile_h,
                tile_h <= height,
                tile_h >= 1,
                tiles_v >= 0,
        ;
        assert(tiles_v * tiles_h <= total_wide) by (nonlinear_arith)
            requires
                tiles_h * tile_w <= width,
                tiles_v * tile_h <= height,
                total_wide == width * height,
                tile_w >= 1,
                tile_h >= 1,
                tiles_h >= 1,
                tiles_v >= 1,
        ;
    }
    let mut maps: Vec<Vec<u64>> = Vec::new();
    let mut tr: u32 = 0;
    while tr < tiles_v
        invariant
            2 <= bins_count <= 65536,
            bn == bins_count as nat,
            tile_w >= 1,
            tile_h >= 1,
            1 <= tiles_h,
            1 <= tiles_v,
            tiles_h * tile_w <= width,
            tiles_v * tile_h <= height,
            cs == chan@,
            n_len == cs.len(),
            n_len == width * height,
            n_len <= u64::MAX,
            0 <= tr <= tiles_v,
            maps@.len() == tr * tiles_h,
            maps_entries_ok(
                maps@,
                cs,
                width as nat,
                height as nat,
                tile_w as nat,
                tile_h as nat,
                tiles_h as nat,
                tiles_v as nat,
                clip,
                bn,
            ),
        decreases tiles_v - tr,
    {
        proof {
            assert(tr * tile_h < (tr + 1) * tile_h <= tiles_v * tile_h) by (nonlinear_arith)
                requires
                    0 <= tr < tiles_v,
                    tile_h >= 1,
            ;
        }
        let y0: u32 = tr * tile_h;
        let y1: u32 = if tr + 1 == tiles_v {
            height
        } else {
            (tr + 1) * tile_h
        };
        let mut tc: u32 = 0;
        while tc < tiles_h
            invariant
                2 <= bins_count <= 65536,
                bn == bins_count as nat,
                tile_w >= 1,
                tile_h >= 1,
                1 <= tiles_h,
                1 <= tiles_v,
                tiles_h * tile_w <= width,
                tiles_v * tile_h <= height,
                cs == chan@,
                n_len == cs.len(),
                n_len == width * height,
                n_len <= u64::MAX,
                0 <= tr < tiles_v,
                0 <= tc <= tiles_h,
                y0 == tr * tile_h,
                y0 == tile_low(tr as int, tile_h as nat),
                y1 == tile_high(tr as int, tile_h as nat, tiles_v as nat, height as nat),
                y0 < y1 <= height,
                maps@.len() == tr * tiles_h + tc,
                maps_entries_ok(
                    maps@,
                    cs,
                    width as nat,
                    height as nat,
                    tile_w as nat,
                    tile_h as nat,
                    tiles_h as nat,
                    tiles_v as nat,
                    clip,
                    bn,
                ),
            decreases tiles_h - tc,
        {
            proof {
                assert(tc * tile_w < (tc + 1) * tile_w <= tiles_h * tile_w) by (nonlinear_arith)
                    requires
                        0 <= tc < tiles_h,
                        tile_w >= 1,
                ;
                assert(height * width <= cs.len()) by (nonlinear_arith)
                    requires
                        cs.len() == width * height,
                ;
            }
            let x0: u32 = tc * tile_w;
            let x1: u32 = if tc + 1 == tiles_h {
                width
            } else {
                (tc + 1) * tile_w
            };
            let m = build_region_mapping(chan, width, height, x0, x1, y0, y1, clip, bins_count);
            proof {
                assert(x0 == tile_low(tc as int, tile_w as nat));
                assert(x1 == tile_high(tc as int, tile_w as nat, tiles_h as nat, width as nat));
                assert(tile_vec_ok(
                    m,
                    cs,
                    width as nat,
                    height as nat,
                    tile_w as nat,
                    tile_h as nat,
                    tiles_h as nat,
                    tiles_v as nat,
                    clip,
                    bn,
                    tr as int,
                    tc as int,
                ));
                lemma_tile_index(tiles_h as int, tiles_v as int, tr as int, tc as int);
            }
            let ghost maps_before: Seq<Vec<u64>> = maps@;
            maps.push(m);
            proof {
                assert forall|t: int|
                    0 <= t < maps@.len() implies tile_vec_ok(
                    #[trigger] maps@[t],
                    cs,
                    width as nat,
                    height as nat,
                    tile_w as nat,
                    tile_h as nat,
                    tiles_h as nat,
                    tiles_v as nat,
                    clip,
                    bn,
                    t / tiles_h as int,
                    t % tiles_h as int,
                ) by {
                    if t < maps@.len() - 1 {
                        assert(maps@[t] == maps_before[t]);
                    } else {
                        assert(maps@[t] == m);
                        assert(t == tr * tiles_h + tc);
                    }
                }
            }
            tc = tc + 1;
        }
        proof {
            assert((tr + 1) * tiles_h == tr * tiles_h + tiles_h) by (nonlinear_arith);
        }
        tr = tr + 1;
    }
    let max_value: u16 = (bins_count - 1) as u16;
    let dx: u64 = 2 * (tile_w as u64);
    let dy: u64 = 2 * (tile_h as u64);
    let mut y: u32 = 0;
    while y < height
        invariant
            2 <= bins_count <= 65536,
            bn == bins_count as nat,
            max_value == bins_count - 1,
            tile_w >= 1,
            tile_h >= 1,
            dx == 2 * tile_w,
            dy == 2 * tile_h,
            1 <= tiles_h,
            1 <= tiles_v,
            tiles_h * tile_w <= width,
            tiles_v * tile_h <= height,
            n_len == cs.len(),
            chan@.len() == n_len,
            n_len == width * height,
            n_len <= u64::MAX,
            0 <= y <= height,
            maps@.len() == tiles_v * tiles_h,
            maps_entries_ok(
                maps@,
                cs,
                width as nat,
                height as nat,
                tile_w as nat,
                tile_h as nat,
                tiles_h as nat,
                tiles_v as nat,
                clip,
                bn,
            ),
            forall|k: int|
                0 <= k < y * width ==> chan@[k] == clahe_pixel(
                    cs,
                    width as nat,
                    height as nat,
                    tile_w as nat,
                    tile_h as nat,
                    tiles_h as nat,
                    tiles_v as nat,
                    clip,
                    bn,
                    (k % width as int) as nat,
                    (k / width as int) as nat,
                ) && chan@[k] <= bins_count - 1,
            forall|k: int| y * width <= k < n_len ==> chan@[k] == cs[k],
        decreases height - y,
    {
        let axis_v = axis_position(y, tile_h, tiles_v);
        let r0: u32 = axis_v.0;
        let r1: u32 = axis_v.1;
        let ny: u64 = axis_v.2;
        let mut x: u32 = 0;
        while x < width
            invariant
                2 <= bins_count <= 65536,
                bn == bins_count as nat,
                max_value == bins_count - 1,
                tile_w >= 1,
                tile_h >= 1,
                dx == 2 * tile_w,
                dy == 2 * tile_h,
                1 <= tiles_h,
                1 <= tiles_v,
                tiles_h * tile_w <= width,
                tiles_v * tile_h <= height,
                n_len == cs.len(),
                chan@.len() == n_len,
                n_len == width * height,
                n_len <= u64::MAX,
                0 <= y < height,
                0 <= x <= width,
                r0 == axis_i0(y as nat, tile_h as nat, tiles_v as nat),
                r1 == axis_i1(y as nat, tile_h as nat, tiles_v as nat),
                ny == axis_frac_num(y as nat, tile_h as nat, tiles_v as nat),
                r0 <= r1 < tiles_v,
                ny <= dy,
                maps@.len() == tiles_v * tiles_h,
                maps_entries_ok(
                    maps@,
                    cs,
                    width as nat,
                    height as nat,
                    tile_w as nat,
                    tile_h as nat,
                    tiles_h as nat,
                    tiles_v as nat,
                    clip,
                    bn,
                ),
                forall|k: int|
                    0 <= k < y * width + x ==> chan@[k] == clahe_pixel(
                        cs,
                        width as nat,
                        height as nat,
                        tile_w as nat,
                        tile_h as nat,
                        tiles_h as nat,
                        tiles_v as nat,
                        clip,
                        bn,
                        (k % width as int) as nat,
                        (k / width as int) as nat,
                    ) && chan@[k] <= bins_count - 1,
                forall|k: int| y * width + x <= k < n_len ==> chan@[k] == cs[k],
            decreases width - x,
        {
            let axis_h = axis_position(x, tile_w, tiles_h);
            let c0: u32 = axis_h.0;
            let c1: u32 = axis_h.1;
            let nx: u64 = axis_h.2;
            proof {
                assert(y * width + x < n_len) by (nonlinear_arith)
                    requires
                        0 <= y < height,
                        0 <= x < width,
                        n_len == width * height,
                ;
            }
            let idx: usize = (y as usize) * (width as usize) + (x as usize);
            let mut value: u16 = chan[idx];
            if value > max_value {
                value = max_value;
            }
            let v: usize = value as usize;
            proof {
                assert(v == clamp_to_bins(cs[(y * width + x) as int], bn));
            }
            proof {
                assert forall|t: int| 0 <= t < maps@.len() implies v < (#[trigger] maps@[t])@.len()
                    by {}
            }
            let m00 = lookup_map(&maps, tiles_h, tiles_v, r0, c0, v);
            let m10 = lookup_map(&maps, tiles_h, tiles_v, r0, c1, v);
            let m01 = lookup_map(&maps, tiles_h, tiles_v, r1, c0, v);
            let m11 = lookup_map(&maps, tiles_h, tiles_v, r1, c1, v);
            proof {
                lemma_tile_index(tiles_h as int, tiles_v as int, r0 as int, c0 as int);
                lemma_tile_index(tiles_h as int, tiles_v as int, r0 as int, c1 as int);
                lemma_tile_index(tiles_h as int, tiles_v as int, r1 as int, c0 as int);
                lemma_tile_index(tiles_h as int, tiles_v as int, r1 as int, c1 as int);
                lemma_blend_bounds(
                    m00 as int,
                    m10 as int,
                    m01 as int,
                    m11 as int,
                    nx as int,
                    dx as int,
                    ny as int,
                    dy as int,
                    bins_count - 1,
                );
            }
            let out: u64 = blerp(m00, m10, m01, m11, nx, dx, ny, dy);
            chan.set(idx, out as u16);
            proof {
                vstd::arithmetic::div_mod::lemma_fundamental_div_mod_converse(
                    y as int * width as int + x as int,
                    width as int,
                    y as int,
                    x as int,
                );
                assert(chan@[idx as int] == clahe_pixel(
                    cs,
                    width as nat,
                    height as nat,
                    tile_w as nat,
                    tile_h as nat,
                    tiles_h as nat,
                    tiles_v as nat,
                    clip,
                    bn,
                    x as nat,
                    y as nat,
                ));
            }
            x = x + 1;
        }
        proof {
            assert((y + 1) * width == y * width + width) by (nonlinear_arith);
        }
        y = y + 1;
    }
    proof {
        assert forall|i: int| 0 <= i < n_len implies chan@[i] == adaptive_pixel(
            cs,
            width,
            height,
            clip,
            grid,
            bins_count,
            i,
        ) && chan@[i] <= bins_count - 1 by {
            assert(height * width <= y * width) by (nonlinear_arith)
                requires
                    y >= height,
                    width >= 0,
            ;
            assert(i < y * width);
        }
    }
    Ok(())
}

/// Sums of pointwise sums split.
proof fn lemma_prefix_total_pointwise_sum(s: Seq<u64>, t: Seq<u64>, u: Seq<u64>, n: int)
    requires
        n <= s.len(),
        n <= t.len(),
        n <= u.len(),
        forall|b: int| 0 <= b < n ==> s[b] == t[b] + u[b],
    ensures
        prefix_total(s, n) == prefix_total(t, n) + prefix_total(u, n),
    decreases n,
{
    if n > 0 {
        lemma_prefix_total_pointwise_sum(s, t, u, n - 1);
    }
}

/// Sum of a one-pixel histogram: a single one at the pixel's bin.
proof fn lemma_prefix_total_indicator(s: Seq<u64>, idx: int, n: int)
    requires
        0 <= n <= s.len(),
        0 <= idx < s.len(),
        forall|b: int| 0 <= b < s.len() ==> s[b] == (if b == idx {
            1u64
        } else {
            0u64
        }),
    ensures
        prefix_total(s, n) == (if idx < n {
            1int
        } else {
            0int
        }),
    decreases n,
{
    if n > 0 {
        lemma_prefix_total_indicator(s, idx, n - 1);
    }
}

/// The histogram of one row of a region sums to the row's width.
proof fn lemma_row_hist_total(
    chan: Seq<u16>,
    stride: nat,
    y: nat,
    x0: nat,
    x1: nat,
    bins_count: nat,
)
    requires
        x0 <= x1,
        2 <= bins_count,
        x1 - x0 <= u64::MAX,
    ensures
        prefix_total(
            Seq::new(bins_count, |b: int| row_count(chan, stride, y, x0, x1, bins_count, b) as u64),
            bins_count as int,
        ) == x1 - x0,
    decreases x1 - x0,
{
    let s = Seq::new(
        bins_count,
        |b: int| row_count(chan, stride, y, x0, x1, bins_count, b) as u64,
    );
    if x1 <= x0 {
        crate::hist_support::lemma_prefix_total_constant(s, 0u64, bins_count as int);
        assert(bins_count as int * 0 == 0) by (nonlinear_arith);
    } else {
        let xm = (x1 - 1) as nat;
        lemma_row_hist_total(chan, stride, y, x0, xm, bins_count);
        let t = Seq::new(
            bins_count,
            |b: int| row_count(chan, stride, y, x0, xm, bins_count, b) as u64,
        );
        let idx = clamp_to_bins(chan[(y * stride + xm) as int], bins_count);
        let u = Seq::new(
            bins_count,
            |b: int|
                if b == idx {
                    1u64
                } else {
                    0u64
                },
        );
        assert forall|b: int| 0 <= b < bins_count implies s[b] == t[b] + u[b] by {
            crate::hist_support::lemma_row_count_nonneg(chan, stride, y, x0, xm, bins_count, b);
        }
        lemma_prefix_total_pointwise_sum(s, t, u, bins_count as int);
        lemma_prefix_total_indicator(u, idx, bins_count as int);
    }
}

/// The histogram of a region sums to the region's pixel count: every pixel
/// lands in exactly one bin.
pub proof fn lemma_region_hist_total(
    chan: Seq<u16>,
    stride: nat,
    x0: nat,
    x1: nat,
    y0: nat,
    y1: nat,
    bins_count: nat,
)
    requires
        x0 <= x1,
        y0 <= y1,
        2 <= bins_count,
        (x1 - x0) * (y1 - y0) <= u64::MAX,
    ensures
        prefix_total(
            region_hist(chan, stride, x0, x1, y0, y1, bins_count),
            bins_count as int,
        ) == (x1 - x0) * (y1 - y0),
    decreases y1 - y0,
{
    let s = region_hist(chan, stride, x0, x1, y0, y1, bins_count);
    if y1 <= y0 {
        assert forall|b: int| 0 <= b < bins_count implies s[b] == 0u64 by {}
        crate::hist_support::lemma_prefix_total_constant(s, 0u64, bins_count as int);
        assert(bins_count as int * 0 == 0) by (nonlinear_arith);
        assert((x1 - x0) * (y1 - y0) == 0) by (nonlinear_arith)
            requires
                y1 == y0,
        ;
    } else {
        let ym = (y1 - 1) as nat;
        assert((x1 - x0) * (ym - y0) + (x1 - x0) == (x1 - x0) * (y1 - y0) && 0 <= (x1 - x0) * (ym
            - y0)) by (nonlinear_arith)
            requires
                x0 <= x1,
                y0 <= ym,
                ym == y1 - 1,
        ;
        lemma_region_hist_total(chan, stride, x0, x1, y0, ym, bins_count);
        let t = region_hist(chan, stride, x0, x1, y0, ym, bins_count);
        let u = Seq::new(
            bins_count,
            |b: int| row_count(chan, stride, ym, x0, x1, bins_count, b) as u64,
        );
        assert forall|b: int| 0 <= b < bins_count implies s[b] == t[b] + u[b] by {
            lemma_region_count_nonneg(chan, stride, x0, x1, y0, ym, bins_count, b);
            crate::hist_support::lemma_row_count_nonneg(chan, stride, ym, x0, x1, bins_count, b);
            lemma_region_count_nonneg(chan, stride, x0, x1, y0, y1, bins_count, b);
        }
        lemma_prefix_total_pointwise_sum(s, t, u, bins_count as int);
        lemma_row_hist_total(chan, stride, ym, x0, x1, bins_count);
    }
}

/// The clipped histogram of a region sums to at most the region's pixel
/// count, and entry `b` of the region's mapping always lands in
/// `[0, bins_count - 1]`.
pub proof fn lemma_region_mapping_bounds(
    chan: Seq<u16>,
    stride: nat,
    x0: nat,
    x1: nat,
    y0: nat,
    y1: nat,
    clip: Option<u64>,
    bins_count: nat,
    b: int,
)
    requires
        x0 <= x1,
        y0 <= y1,
        2 <= bins_count,
        (x1 - x0) * (y1 - y0) <= u64::MAX,
        0 <= b < bins_count,
    ensures
        0 <= region_mapping(chan, stride, x0, x1, y0, y1, clip, bins_count, b) <= bins_count - 1,
{
    let h0 = region_hist(chan, stride, x0, x1, y0, y1, bins_count);
    let h1 = region_clipped_hist(chan, stride, x0, x1, y0, y1, clip, bins_count);
    let area = (x1 - x0) * (y1 - y0);
    lemma_region_hist_total(chan, stride, x0, x1, y0, y1, bins_count);
    match clip {
        Option::Some(milli) => {
            let limit = clip_limit_spec(milli, (x1 - x0) as nat, (y1 - y0) as nat, bins_count);
            let ex = clip_excess(h0, limit);
            let m_add = ex / bins_count as int;
            lemma_clip_excess_to_bound(h0, limit, bins_count as int);
            assert(0 <= m_add && bins_count as int * m_add <= ex) by (nonlinear_arith)
                requires
                    m_add == ex / bins_count as int,
                    bins_count >= 1,
                    ex >= 0,
            ;
            assert forall|k: int| 0 <= k < bins_count implies h1[k] == clipped_bin(h0[k], limit)
                + m_add by {
                lemma_clip_term_bound(h0, limit, k, bins_count as int);
            }
            lemma_clipped_prefix_sum(h0, h1, limit, m_add, bins_count as int);
            assert(prefix_total(h1, bins_count as int) <= area);
        },
        Option::None => {
            assert(prefix_total(h1, bins_count as int) <= area);
        },
    }
    let minb = prefix_total(h1, 1);
    let v = prefix_total(h1, b + 1);
    lemma_prefix_total_monotonic(h1, 1, b + 1);
    lemma_prefix_total_monotonic(h1, b + 1, bins_count as int);
    crate::hist_support::lemma_prefix_total_nonneg(h1, 1);
    if area != minb {
        assert(minb < area);
        assert(0 <= round_half_up_div((bins_count - 1) * (v - minb), area - minb))
            by (nonlinear_arith)
            requires
                v >= minb,
                area > minb,
                bins_count >= 2,
                round_half_up_div((bins_count - 1) * (v - minb), area - minb) == (2 * ((bins_count
                    - 1) * (v - minb)) + (area - minb)) / (2 * (area - minb)),
        ;
    }
}

/// A blend whose weights sit exactly on the first corner returns that
/// corner's value.
pub proof fn lemma_blend_at_corner(m00: int, m10: int, m01: int, m11: int, dx: int, dy: int)
    requires
        dx >= 1,
        dy >= 1,
        m00 >= 0,
    ensures
        blend_corners(m00, m10, m01, m11, 0, dx, 0, dy) == m00,
{
    assert(m00 * (dx - 0) * (dy - 0) + m10 * 0 * (dy - 0) + m01 * (dx - 0) * 0 + m11 * 0 * 0 == m00
        * (dx * dy) && dx * dy >= 1) by (nonlinear_arith)
        requires
            dx >= 1,
            dy >= 1,
    ;
    crate::hist_support::lemma_round_div_exact(m00, dx * dy);
}

/// A histogram with no bin above the limit has nothing to clip.
pub proof fn lemma_clip_excess_zero(s: Seq<u64>, limit: int, n: int)
    requires
        n <= s.len(),
        forall|k: int| 0 <= k < s.len() ==> s[k] <= limit,
    ensures
        crate::hist_support::clip_excess_to(s, limit, n) == 0,
    decreases n,
{
    if n > 0 {
        lemma_clip_excess_zero(s, limit, n - 1);
    }
}

/// At the center of tile `i` along one axis (the tile size being even, so
/// that a pixel sits exactly on the center), the interpolation collapses
/// onto tile `i` itself with weight zero.
pub proof fn lemma_axis_at_center(i: int, size: nat, count: nat)
    requires
        2 <= size,
        size % 2 == 0,
        0 <= i < count,
    ensures
        axis_i0((i * size + size / 2) as nat, size, count) == i,
        axis_frac_num((i * size + size / 2) as nat, size, count) == 0,
{
    let p: int = i * size + size / 2;
    vstd::arithmetic::div_mod::lemma_fundamental_div_mod(size as int, 2);
    assert(2 * (size / 2) == size);
    assert(2 * p - size == i * (2 * size as int)) by (nonlinear_arith)
        requires
            p == i * size + size / 2,
            2 * (size / 2) == size as int,
    ;
    assert(p >= 0 && 2 * p >= size) by (nonlinear_arith)
        requires
            2 * p - size == i * (2 * size as int),
            i >= 0,
            size >= 2,
            p == i * size + size / 2,
    ;
    vstd::arithmetic::div_mod::lemma_div_by_multiple(i, 2 * size as int);
    vstd::arithmetic::div_mod::lemma_mod_multiples_basic(i, 2 * size as int);
    assert(axis_raw(p as nat, size) == (i * (2 * size as int)) / (2 * size as int));
    assert(axis_raw(p as nat, size) == i);
    if i >= count - 1 {
        assert(axis_i0(p as nat, size, count) == count - 1 == i);
    } else {
        assert(axis_frac_num(p as nat, size, count) == (i * (2 * size as int)) % (2
            * size as int));
    }
}

/// Geometry of one tile: its rectangle sits inside the image and is
/// non-empty.
proof fn lemma_tile_rect(i: int, size: nat, count: nat, dim: nat)
    requires
        size >= 1,
        0 <= i < count,
        count * size <= dim,
    ensures
        tile_low(i, size) < tile_high(i, size, count, dim) <= dim,
{
    assert(i * size < (i + 1) * size <= count * size) by (nonlinear_arith)
        requires
            0 <= i < count,
            size >= 1,
    ;
}

/// Bilinear interpolation at a tile's center returns exactly that tile's
/// own normalized mapping of the pixel's value: the weights collapse onto
/// one corner. Stated for even tile sizes, where a pixel lies exactly on
/// the center.
pub proof fn lemma_tile_center_exact(
    chan: Seq<u16>,
    width: nat,
    height: nat,
    tw: nat,
    th: nat,
    tiles_h: nat,
    tiles_v: nat,
    clip: Option<u64>,
    bins_count: nat,
    r: int,
    c: int,
)
    requires
        2 <= tw,
        2 <= th,
        tw % 2 == 0,
        th % 2 == 0,
        0 <= c < tiles_h,
        0 <= r < tiles_v,
        2 <= bins_count,
        tiles_h * tw <= width,
        tiles_v * th <= height,
        width * height <= u64::MAX,
    ensures
        ({
            let x = (c * tw + tw / 2) as nat;
            let y = (r * th + th / 2) as nat;
            clahe_pixel(chan, width, height, tw, th, tiles_h, tiles_v, clip, bins_count, x, y)
                == tile_map_at(
                chan,
                width,
                height,
                tw,
                th,
                tiles_h,
                tiles_v,
                clip,
                bins_count,
                r,
                c,
                clamp_to_bins(chan[(y * width + x) as int], bins_count),
            )
        }),
{
    let x = (c * tw + tw / 2) as nat;
    let y = (r * th + th / 2) as nat;
    lemma_axis_at_center(c, tw, tiles_h);
    lemma_axis_at_center(r, th, tiles_v);
    let v = clamp_to_bins(chan[(y * width + x) as int], bins_count);
    lemma_tile_rect(c, tw, tiles_h, width);
    lemma_tile_rect(r, th, tiles_v, height);
    let x0 = tile_low(c, tw);
    let x1 = tile_high(c, tw, tiles_h, width);
    let y0 = tile_low(r, th);
    let y1 = tile_high(r, th, tiles_v, height);
    assert((x1 - x0) * (y1 - y0) <= width * height) by (nonlinear_arith)
        requires
            0 <= x0 < x1 <= width,
            0 <= y0 < y1 <= height,
    ;
    lemma_region_mapping_bounds(chan, width, x0, x1, y0, y1, clip, bins_count, v);
    lemma_blend_at_corner(
        tile_map_at(chan, width, height, tw, th, tiles_h, tiles_v, clip, bins_count, r, c, v),
        tile_map_at(
            chan,
            width,
            height,
            tw,
            th,
            tiles_h,
            tiles_v,
            clip,
            bins_count,
            r,
            axis_i1(x, tw, tiles_h),
            v,
        ),
        tile_map_at(
            chan,
            width,
            height,
            tw,
            th,
            tiles_h,
            tiles_v,
            clip,
            bins_count,
            axis_i1(y, th, tiles_v),
            c,
            v,
        ),
        tile_map_at(
            chan,
            width,
            height,
            tw,
            th,
            tiles_h,
            tiles_v,
            clip,
            bins_count,
            axis_i1(y, th, tiles_v),
            axis_i1(x, tw, tiles_h),
            v,
        ),
        2 * tw as int,
        2 * th as int,
    );
}

/// Pixels above and to the left of the very first tile center reuse the
/// first tile's mapping unchanged: no tile index below zero is ever
/// touched.
pub proof fn lemma_border_low_uses_first_tile(
    chan: Seq<u16>,
    width: nat,
    height: nat,
    tw: nat,
    th: nat,
    tiles_h: nat,
    tiles_v: nat,
    clip: Option<u64>,
    bins_count: nat,
    x: nat,
    y: nat,
)
    requires
        1 <= tw,
        1 <= th,
        2 * x < tw,
        2 * y < th,
        1 <= tiles_h,
        1 <= tiles_v,
        2 <= bins_count,
        tiles_h * tw <= width,
        tiles_v * th <= height,
        width * height <= u64::MAX,
    ensures
        clahe_pixel(chan, width, height, tw, th, tiles_h, tiles_v, clip, bins_count, x, y)
            == tile_map_at(
            chan,
            width,
            height,
            tw,
            th,
            tiles_h,
            tiles_v,
            clip,
            bins_count,
            0,
            0,
            clamp_to_bins(chan[(y * width + x) as int], bins_count),
        ),
{
    let v = clamp_to_bins(chan[(y * width + x) as int], bins_count);
    lemma_tile_rect(0, tw, tiles_h, width);
    lemma_tile_rect(0, th, tiles_v, height);
    let x1 = tile_high(0, tw, tiles_h, width);
    let y1 = tile_high(0, th, tiles_v, height);
    assert((x1 - 0) * (y1 - 0) <= width * height) by (nonlinear_arith)
        requires
            0 < x1 <= width,
            0 < y1 <= height,
    ;
    lemma_region_mapping_bounds(chan, width, 0, x1, 0, y1, clip, bins_count, v);
    lemma_blend_at_corner(
        tile_map_at(chan, width, height, tw, th, tiles_h, tiles_v, clip, bins_count, 0, 0, v),
        tile_map_at(chan, width, height, tw, th, tiles_h, tiles_v, clip, bins_count, 0, 0, v),
        tile_map_at(chan, width, height, tw, th, tiles_h, tiles_v, clip, bins_count, 0, 0, v),
        tile_map_at(chan, width, height, tw, th, tiles_h, tiles_v, clip, bins_count, 0, 0, v),
        2 * tw as int,
        2 * th as int,
    );
}

/// Pixels at or past the last tile centers reuse the last tile's mapping
/// unchanged: no tile index at or beyond the grid size is ever touched.
pub proof fn lemma_border_high_uses_last_tile(
    chan: Seq<u16>,
    width: nat,
    height: nat,
    tw: nat,
    th: nat,
    tiles_h: nat,
    tiles_v: nat,
    clip: Option<u64>,
    bins_count: nat,
    x: nat,
    y: nat,
)
    requires
        1 <= tw,
        1 <= th,
        2 * x >= tw,
        2 * y >= th,
        axis_raw(x, tw) >= tiles_h - 1,
        axis_raw(y, th) >= tiles_v - 1,
        1 <= tiles_h,
        1 <= tiles_v,
        2 <= bins_count,
        tiles_h * tw <= width,
        tiles_v * th <= height,
        width * height <= u64::MAX,
    ensures
        clahe_pixel(chan, width, height, tw, th, tiles_h, tiles_v, clip, bins_count, x, y)
            == tile_map_at(
            chan,
            width,
            height,
            tw,
            th,
            tiles_h,
            tiles_v,
            clip,
            bins_count,
            tiles_v - 1,
            tiles_h - 1,
            clamp_to_bins(chan[(y * width + x) as int], bins_count),
        ),
{
    let v = clamp_to_bins(chan[(y * width + x) as int], bins_count);
    lemma_tile_rect(tiles_h - 1, tw, tiles_h, width);
    lemma_tile_rect(tiles_v - 1, th, tiles_v, height);
    let x0 = tile_low(tiles_h - 1, tw);
    let x1 = tile_high(tiles_h - 1, tw, tiles_h, width);
    let y0 = tile_low(tiles_v - 1, th);
    let y1 = tile_high(tiles_v - 1, th, tiles_v, height);
    assert((x1 - x0) * (y1 - y0) <= width * height) by (nonlinear_arith)
        requires
            0 <= x0 < x1 <= width,
            0 <= y0 < y1 <= height,
    ;
    lemma_region_mapping_bounds(chan, width, x0, x1, y0, y1, clip, bins_count, v);
    lemma_blend_at_corner(
        tile_map_at(
            chan,
            width,
            height,
            tw,
            th,
            tiles_h,
            tiles_v,
            clip,
            bins_count,
            tiles_v - 1,
            tiles_h - 1,
            v,
        ),
        tile_map_at(
            chan,
            width,
            height,
            tw,
            th,
            tiles_h,
            tiles_v,
            clip,
            bins_count,
            tiles_v - 1,
            tiles_h - 1,
            v,
        ),
        tile_map_at(
            chan,
            width,
            height,
            tw,
            th,
            tiles_h,
            tiles_v,
            clip,
            bins_count,
            tiles_v - 1,
            tiles_h - 1,
            v,
        ),
        tile_map_at(
            chan,
            width,
            height,
            tw,
            th,
            tiles_h,
            tiles_v,
            clip,
            bins_count,
            tiles_v - 1,
            tiles_h - 1,
            v,
        ),
        2 * tw as int,
        2 * th as int,
    );
}

/// Contrast-limited equalization over a single tile covering the whole
/// image, with a clip limit no bin can reach, is exactly global histogram
/// equalization: the one tile's histogram is the full image's, nothing is
/// clipped, and the blend collapses onto that tile's mapping.
pub proof fn lemma_single_tile_matches_global(
    chan: Seq<u16>,
    width: u32,
    height: u32,
    milli: u64,
    bins_count: usize,
    i: int,
)
    requires
        2 <= bins_count <= 65536,
        width >= 1,
        height >= 1,
        chan.len() == width * height,
        clip_limit_spec(milli, width as nat, height as nat, bins_count as nat) >= width * height,
        0 <= i < chan.len(),
    ensures
        adaptive_pixel(
            chan,
            width,
            height,
            Some(milli),
            ClaheGridSize { w: 1, h: 1 },
            bins_count,
            i,
        ) == crate::hist_equal::equalized_pixel(
            chan,
            width as nat,
            height as nat,
            bins_count as nat,
            i,
        ),
{
    let bn: nat = bins_count as nat;
    let w: int = width as int;
    let h: int = height as int;
    assert(w / 1 == w && h / 1 == h);
    vstd::arithmetic::div_mod::lemma_fundamental_div_mod_converse(w, w, 1, 0);
    vstd::arithmetic::div_mod::lemma_fundamental_div_mod_converse(h, h, 1, 0);
    assert(w / w == 1 && h / h == 1);
    let x: int = i % w;
    let y: int = i / w;
    vstd::arithmetic::div_mod::lemma_fundamental_div_mod(i, w);
    vstd::arithmetic::div_mod::lemma_mod_bound(i, w);
    assert((width as int) * (height as int) <= u64::MAX) by (nonlinear_arith)
        requires
            width <= u32::MAX,
            height <= u32::MAX,
    ;
    assert(w * y <= i);
    assert(w * y < w * h);
    assert(y < h) by (nonlinear_arith)
        requires
            w * y < w * h,
            w >= 1,
    ;
    assert(w * y > -w);
    assert(y >= 0) by (nonlinear_arith)
        requires
            w * y > -w,
            w >= 1,
    ;
    // both axes collapse onto tile 0 with weight zero
    if 2 * x >= w {
        assert(axis_raw(x as nat, width as nat) >= 0) by (nonlinear_arith)
            requires
                axis_raw(x as nat, width as nat) == (2 * x - w) / (2 * w),
                2 * x - w >= 0,
                w >= 1,
        ;
    }
    if 2 * y >= h {
        assert(axis_raw(y as nat, height as nat) >= 0) by (nonlinear_arith)
            requires
                axis_raw(y as nat, height as nat) == (2 * y - h) / (2 * h),
                2 * y - h >= 0,
                h >= 1,
        ;
    }
    assert(axis_i0(x as nat, width as nat, 1) == 0 && axis_frac_num(x as nat, width as nat, 1)
        == 0);
    assert(axis_i0(y as nat, height as nat, 1) == 0 && axis_frac_num(y as nat, height as nat, 1)
        == 0);
    let v = clamp_to_bins(chan[(y * w + x) as int], bn);
    // the single tile is the whole image
    assert(tile_low(0, width as nat) == 0);
    assert(tile_high(0, width as nat, 1, width as nat) == width as nat);
    assert(tile_low(0, height as nat) == 0);
    assert(tile_high(0, height as nat, 1, height as nat) == height as nat);
    // the clip limit is above every bin, so clipping changes nothing
    let h0 = region_hist(chan, width as nat, 0, width as nat, 0, height as nat, bn);
    let limit = clip_limit_spec(milli, width as nat, height as nat, bn);
    assert forall|k: int| 0 <= k < h0.len() implies h0[k] <= limit by {
        lemma_region_count_nonneg(
            chan,
            width as nat,
            0,
            width as nat,
            0,
            height as nat,
            bn,
            k,
        );
    }
    lemma_clip_excess_zero(h0, limit, bn as int);
    let h1 = region_clipped_hist(
        chan,
        width as nat,
        0,
        width as nat,
        0,
        height as nat,
        Some(milli),
        bn,
    );
    assert(clip_excess(h0, limit) / bn as int == 0);
    assert forall|k: int| 0 <= k < bn implies h1[k] == h0[k] by {
        assert(clipped_bin(h0[k], limit) == h0[k]);
    }
    assert(h1 =~= h0);
    assert(h0 =~= crate::hist_equal::global_hist(chan, width as nat, height as nat, bn));
    assert((width as nat - 0) * (height as nat - 0) == width * height);
    lemma_region_mapping_bounds(
        chan,
        width as nat,
        0,
        width as nat,
        0,
        height as nat,
        Some(milli),
        bn,
        v,
    );
    lemma_blend_at_corner(
        tile_map_at(
            chan,
            width as nat,
            height as nat,
            width as nat,
            height as nat,
            1,
            1,
            Some(milli),
            bn,
            0,
            0,
            v,
        ),
        tile_map_at(
            chan,
            width as nat,
            height as nat,
            width as nat,
            height as nat,
            1,
            1,
            Some(milli),
            bn,
            0,
            0,
            v,
        ),
        tile_map_at(
            chan,
            width as nat,
            height as nat,
            width as nat,
            height as nat,
            1,
            1,
            Some(milli),
            bn,
            0,
            0,
            v,
        ),
        tile_map_at(
            chan,
            width as nat,
            height as nat,
            width as nat,
            height as nat,
            1,
            1,
            Some(milli),
            bn,
            0,
            0,
            v,
        ),
        2 * width as int,
        2 * height as int,
    );
}

/// A flat tile index decomposes back into its row and column.
proof fn lemma_tile_index(tiles_h: int, tiles_v: int, r: int, c: int)
    requires
        0 <= r < tiles_v,
        0 <= c < tiles_h,
    ensures
        0 <= r * tiles_h + c < tiles_v * tiles_h,
        (r * tiles_h + c) / tiles_h == r,
        (r * tiles_h + c) % tiles_h == c,
{
    assert(0 <= r * tiles_h + c < tiles_v * tiles_h) by (nonlinear_arith)
        requires
            0 <= r < tiles_v,
            0 <= c < tiles_h,
    ;
    vstd::arithmetic::div_mod::lemma_fundamental_div_mod_converse(
        r * tiles_h + c,
        tiles_h,
        r,
        c,
    );
}

/// Looks one clamped channel value up in the mapping of tile `(r, c)`.
fn lookup_map(maps: &Vec<Vec<u64>>, tiles_h: u32, tiles_v: u32, r: u32, c: u32, v: usize) -> (out:
    u64)
    requires
        r < tiles_v,
        c < tiles_h,
        maps@.len() == tiles_v * tiles_h,
        forall|t: int| 0 <= t < maps@.len() ==> v < (#[trigger] maps@[t])@.len(),
    ensures
        out == maps@[r as int * tiles_h as int + c as int]@[v as int],
{
    let n: usize = maps.len();
    proof {
        assert(r * tiles_h + c < tiles_v * tiles_h) by (nonlinear_arith)
            requires
                0 <= r < tiles_v,
                0 <= c < tiles_h,
        ;
        assert(r * tiles_h + c < n);
    }
    let t: usize = (r as usize) * (tiles_h as usize) + (c as usize);
    let row = &maps[t];
    row[v]
}

} // verus!
