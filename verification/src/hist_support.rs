//! Histogram utilities: prefix sums (the cumulative distribution), the
//! minimum/maximum scan, clipping with redistribution, and histogram
//! construction over a rectangular region of a channel plane.

use vstd::prelude::*;

verus! {

/// Why an equalization call was rejected before touching the destination.
#[derive(Debug, Copy, Clone, PartialEq, Eq, Structural)]
pub enum EqualizeError {
    /// `bins_count` was 1 or less, or larger than a 16-bit channel can index.
    InvalidBinsCount,
    /// The grid has zero rows or zero columns.
    ZeroGridSize,
    /// The grid has more rows or columns than the image has pixels, so a
    /// tile would be empty.
    GridLargerThanImage,
    /// A buffer is shorter than its declared geometry requires, or the
    /// image is empty.
    BufferSizeMismatch,
}

/// How many tiles the image is split into along each axis.
#[derive(Debug, Copy, Clone, PartialEq, Eq, Structural)]
pub struct ClaheGridSize {
    pub w: u32,
    pub h: u32,
}

impl ClaheGridSize {
    pub fn new(w: u32, h: u32) -> (r: ClaheGridSize)
        ensures
            r.w == w,
            r.h == h,
    {
        ClaheGridSize { w, h }
    }
}

/// Bin counts of one rectangular region, one count per intensity bin.
#[derive(Debug, Clone)]
pub struct ImageHistogram {
    pub bins: Vec<u64>,
}

/// Sum of the first `n` entries of `s`.
pub open spec fn prefix_total(s: Seq<u64>, n: int) -> int
    decreases n,
{
    if n <= 0 {
        0
    } else {
        prefix_total(s, n - 1) + s[n - 1]
    }
}

pub proof fn lemma_prefix_total_nonneg(s: Seq<u64>, n: int)
    ensures
        prefix_total(s, n) >= 0,
    decreases n,
{
    if n > 0 {
        lemma_prefix_total_nonneg(s, n - 1);
    }
}

pub proof fn lemma_prefix_total_monotonic(s: Seq<u64>, i: int, j: int)
    requires
        0 <= i <= j <= s.len(),
    ensures
        prefix_total(s, i) <= prefix_total(s, j),
    decreases j - i,
{
    if i < j {
        lemma_prefix_total_monotonic(s, i, j - 1);
    }
}

/// In-place prefix-sum transform: entry `i` becomes the sum of the
/// original entries `0 ..= i`. The result is non-decreasing and its last
/// entry equals the sum of all original entries.
pub fn cdf(arr: &mut Vec<u64>)
    requires
        prefix_total(old(arr)@, old(arr)@.len() as int) <= u64::MAX,
    ensures
        final(arr)@.len() == old(arr)@.len(),
        forall|i: int|
            0 <= i < old(arr)@.len() ==> final(arr)@[i] == prefix_total(old(arr)@, i + 1),
        forall|i: int, j: int|
            0 <= i <= j < old(arr)@.len() ==> final(arr)@[i] <= final(arr)@[j],
        old(arr)@.len() > 0 ==> final(arr)@.last() == prefix_total(
            old(arr)@,
            old(arr)@.len() as int,
        ),
{
    let ghost orig: Seq<u64> = arr@;
    let n = arr.len();
    let mut sum: u64 = 0;
    let mut i: usize = 0;
    while i < n
        invariant
            n == orig.len(),
            arr@.len() == n,
            0 <= i <= n,
            sum == prefix_total(orig, i as int),
            prefix_total(orig, n as int) <= u64::MAX,
            forall|k: int| 0 <= k < i ==> arr@[k] == prefix_total(orig, k + 1),
            forall|k: int| i <= k < n ==> arr@[k] == orig[k],
        decreases n - i,
    {
        proof {
            lemma_prefix_total_nonneg(orig, i as int);
            lemma_prefix_total_monotonic(orig, i as int + 1, n as int);
        }
        sum = sum + arr[i];
        arr.set(i, sum);
        i = i + 1;
    }
    proof {
        assert forall|p: int, q: int| 0 <= p <= q < n implies arr@[p] <= arr@[q] by {
            lemma_prefix_total_monotonic(orig, p + 1, q + 1);
        }
    }
}

/// The bin a channel value falls into: the value itself, clamped to
/// `[0, bins_count - 1]`. Values are pre-scaled by the packing stage, so the
/// clamp only guards against values that rounded slightly out of range.
pub open spec fn clamp_to_bins(v: u16, bins_count: nat) -> int {
    if v as int > bins_count - 1 {
        bins_count - 1
    } else {
        v as int
    }
}

/// How many pixels of row `y`, columns `x0 ..< x1`, fall into bin `b`.
pub open spec fn row_count(
    chan: Seq<u16>,
    stride: nat,
    y: nat,
    x0: nat,
    x1: nat,
    bins_count: nat,
    b: int,
) -> int
    decreases x1 - x0,
{
    if x1 <= x0 {
        0
    } else {
        row_count(chan, stride, y, x0, (x1 - 1) as nat, bins_count, b) + (
        if clamp_to_bins(chan[(y * stride + (x1 - 1)) as int], bins_count) == b {
            1int
        } else {
            0int
        })
    }
}

/// How many pixels of the rectangle `[x0, x1) x [y0, y1)` fall into bin `b`.
pub open spec fn region_count(
    chan: Seq<u16>,
    stride: nat,
    x0: nat,
    x1: nat,
    y0: nat,
    y1: nat,
    bins_count: nat,
    b: int,
) -> int
    decreases y1 - y0,
{
    if y1 <= y0 {
        0
    } else {
        region_count(chan, stride, x0, x1, y0, (y1 - 1) as nat, bins_count, b) + row_count(
            chan,
            stride,
            (y1 - 1) as nat,
            x0,
            x1,
            bins_count,
            b,
        )
    }
}

pub proof fn lemma_row_count_nonneg(
    chan: Seq<u16>,
    stride: nat,
    y: nat,
    x0: nat,
    x1: nat,
    bins_count: nat,
    b: int,
)
    requires
        x0 <= x1,
    ensures
        0 <= row_count(chan, stride, y, x0, x1, bins_count, b) <= x1 - x0,
    decreases x1 - x0,
{
    if x1 > x0 {
        lemma_row_count_nonneg(chan, stride, y, x0, (x1 - 1) as nat, bins_count, b);
    }
}

pub proof fn lemma_region_count_nonneg(
    chan: Seq<u16>,
    stride: nat,
    x0: nat,
    x1: nat,
    y0: nat,
    y1: nat,
    bins_count: nat,
    b: int,
)
    requires
        x0 <= x1,
        y0 <= y1,
    ensures
        0 <= region_count(chan, stride, x0, x1, y0, y1, bins_count, b) <= (x1 - x0) * (y1 - y0),
    decreases y1 - y0,
{
    if y1 > y0 {
        lemma_region_count_nonneg(chan, stride, x0, x1, y0, (y1 - 1) as nat, bins_count, b);
        lemma_row_count_nonneg(chan, stride, (y1 - 1) as nat, x0, x1, bins_count, b);
        assert((x1 - x0) * (y1 - y0) == (x1 - x0) * (y1 - 1 - y0) + (x1 - x0)) by (nonlinear_arith);
    }
}

/// Raising one entry of `s` changes every prefix sum that covers it by the
/// same amount, and leaves the shorter prefixes alone.
pub proof fn lemma_prefix_total_update(s: Seq<u64>, j: int, v: u64, n: int)
    requires
        0 <= j < s.len(),
        n <= s.len(),
    ensures
        prefix_total(s.update(j, v), n) == prefix_total(s, n) + (if j < n {
            v - s[j]
        } else {
            0int
        }),
    decreases n,
{
    if n > 0 {
        lemma_prefix_total_update(s, j, v, n - 1);
    }
}

/// Builds the histogram of the rectangle `[start_x, end_x) x [start_y, end_y)`
/// of a channel plane: every pixel's value, clamped to `[0, bins_count - 1]`,
/// increments its bin. The bins sum to the pixel count of the region.
pub fn make_histogram_region(
    chan: &Vec<u16>,
    stride: u32,
    start_x: u32,
    end_x: u32,
    start_y: u32,
    end_y: u32,
    bins_count: usize,
) -> (r: ImageHistogram)
    requires
        2 <= bins_count <= 65536,
        start_x <= end_x,
        start_y <= end_y,
        end_x <= stride,
        end_y * stride <= chan@.len(),
    ensures
        r.bins@.len() == bins_count,
        forall|b: int|
            0 <= b < bins_count ==> r.bins@[b] == region_count(
                chan@,
                stride as nat,
                start_x as nat,
                end_x as nat,
                start_y as nat,
                end_y as nat,
                bins_count as nat,
                b,
            ),
        prefix_total(r.bins@, bins_count as int) == (end_x - start_x) * (end_y - start_y),
{
    let ghost cs: Seq<u16> = chan@;
    let ghost bn: nat = bins_count as nat;
    let n_len: usize = chan.len();
    let mut bins: Vec<u64> = Vec::new();
    let mut k: usize = 0;
    while k < bins_count
        invariant
            bins@.len() == k,
            k <= bins_count,
            forall|b: int| 0 <= b < k ==> bins@[b] == 0,
            prefix_total(bins@, k as int) == 0,
        decreases bins_count - k,
    {
        let ghost before = bins@;
        bins.push(0u64);
        proof {
            lemma_prefix_total_take_agree(before, bins@, k as int);
        }
        k = k + 1;
    }
    let max_bin_value: u16 = (bins_count - 1) as u16;
    let mut y: u32 = start_y;
    while y < end_y
        invariant
            bins@.len() == bins_count,
            2 <= bins_count,
            bins_count - 1 <= u16::MAX,
            max_bin_value == bins_count - 1,
            cs == chan@,
            bn == bins_count as nat,
            n_len == cs.len(),
            start_x <= end_x <= stride,
            start_y <= y <= end_y,
            end_y * stride <= cs.len(),
            forall|b: int|
                0 <= b < bins_count ==> bins@[b] == region_count(
                    cs,
                    stride as nat,
                    start_x as nat,
                    end_x as nat,
                    start_y as nat,
                    y as nat,
                    bn,
                    b,
                ),
            prefix_total(bins@, bins_count as int) == (end_x - start_x) * (y - start_y),
        decreases end_y - y,
    {
        let mut x: u32 = start_x;
        while x < end_x
            invariant
                bins@.len() == bins_count,
                2 <= bins_count,
                bins_count - 1 <= u16::MAX,
                max_bin_value == bins_count - 1,
                cs == chan@,
                bn == bins_count as nat,
                n_len == cs.len(),
                start_x <= x <= end_x,
                end_x <= stride,
                start_y <= y < end_y,
                end_y * stride <= cs.len(),
                forall|b: int|
                    0 <= b < bins_count ==> bins@[b] == region_count(
                        cs,
                        stride as nat,
                        start_x as nat,
                        end_x as nat,
                        start_y as nat,
                        y as nat,
                        bn,
                        b,
                    ) + row_count(cs, stride as nat, y as nat, start_x as nat, x as nat, bn, b),
                prefix_total(bins@, bins_count as int) == (end_x - start_x) * (y - start_y) + (x
                    - start_x),
            decreases end_x - x,
        {
            proof {
                assert(y * stride + x < end_y * stride) by (nonlinear_arith)
                    requires
                        y < end_y,
                        x < stride,
                        0 <= y,
                        0 <= x,
                        0 <= stride,
                ;
                lemma_bound_region_progress(
                    start_x as int,
                    end_x as int,
                    start_y as int,
                    end_y as int,
                    x as int,
                    y as int,
                    stride as int,
                    cs.len() as int,
                );
            }
            let idx_pix: usize = (y as usize) * (stride as usize) + (x as usize);
            let mut value: u16 = chan[idx_pix];
            if value > max_bin_value {
                value = max_bin_value;
            }
            let bin_index: usize = value as usize;
            let current = bins[bin_index];
            proof {
                assert(bin_index == clamp_to_bins(cs[(y * stride + x) as int], bn));
                lemma_region_count_nonneg(
                    cs,
                    stride as nat,
                    start_x as nat,
                    end_x as nat,
                    start_y as nat,
                    y as nat,
                    bn,
                    bin_index as int,
                );
                lemma_row_count_nonneg(
                    cs,
                    stride as nat,
                    y as nat,
                    start_x as nat,
                    x as nat,
                    bn,
                    bin_index as int,
                );
                lemma_prefix_element_le_total(bins@, bin_index as int, bins_count as int);
                lemma_prefix_total_update(
                    bins@,
                    bin_index as int,
                    (current + 1) as u64,
                    bins_count as int,
                );
                assert forall|b: int| 0 <= b < bins_count implies row_count(
                    cs,
                    stride as nat,
                    y as nat,
                    start_x as nat,
                    (x + 1) as nat,
                    bn,
                    b,
                ) == row_count(cs, stride as nat, y as nat, start_x as nat, x as nat, bn, b) + (
                if clamp_to_bins(cs[(y * stride + x) as int], bn) == b {
                    1int
                } else {
                    0int
                }) by {
                    assert(((x + 1) as nat - 1) as nat == x as nat);
                }
            }
            bins.set(bin_index, current + 1);
            x = x + 1;
        }
        proof {
            assert forall|b: int| 0 <= b < bins_count implies region_count(
                cs,
                stride as nat,
                start_x as nat,
                end_x as nat,
                start_y as nat,
                (y + 1) as nat,
                bn,
                b,
            ) == region_count(
                cs,
                stride as nat,
                start_x as nat,
                end_x as nat,
                start_y as nat,
                y as nat,
                bn,
                b,
            ) + row_count(cs, stride as nat, y as nat, start_x as nat, end_x as nat, bn, b) by {
                assert(((y + 1) as nat - 1) as nat == y as nat);
            }
            assert((end_x - start_x) * (y + 1 - start_y) == (end_x - start_x) * (y - start_y) + (
            end_x - start_x)) by (nonlinear_arith);
        }
        y = y + 1;
    }
    ImageHistogram { bins }
}

/// Two sequences that agree on their first `n` entries have the same sum of
/// those entries.
pub proof fn lemma_prefix_total_take_agree(s: Seq<u64>, t: Seq<u64>, n: int)
    requires
        n <= s.len(),
        n <= t.len(),
        forall|k: int| 0 <= k < n ==> s[k] == t[k],
    ensures
        prefix_total(s, n) == prefix_total(t, n),
    decreases n,
{
    if n > 0 {
        lemma_prefix_total_take_agree(s, t, n - 1);
    }
}

/// Every entry is at most the sum of a prefix that covers it.
pub proof fn lemma_prefix_element_le_total(s: Seq<u64>, j: int, n: int)
    requires
        0 <= j < n <= s.len(),
    ensures
        s[j] <= prefix_total(s, n),
    decreases n,
{
    if j < n - 1 {
        lemma_prefix_element_le_total(s, j, n - 1);
        lemma_prefix_total_monotonic(s, n - 1, n);
    } else {
        lemma_prefix_total_nonneg(s, n - 1);
    }
}

proof fn lemma_bound_region_progress(
    x0: int,
    x1: int,
    y0: int,
    y1: int,
    x: int,
    y: int,
    stride: int,
    len: int,
)
    requires
        0 <= x0 <= x < x1 <= stride,
        0 <= y0 <= y < y1,
        y1 * stride <= len,
        len <= u64::MAX,
    ensures
        (x1 - x0) * (y - y0) + (x - x0) + 1 <= u64::MAX,
{
    assert((x1 - x0) * (y - y0) + (x - x0) + 1 <= y1 * stride) by (nonlinear_arith)
        requires
            0 <= x0 <= x < x1 <= stride,
            0 <= y0 <= y < y1,
    ;
}

/// Smallest and largest entry of `slice`, as the pair `(min, max)`.
pub fn minmax(slice: &Vec<u64>) -> (r: (u64, u64))
    requires
        slice@.len() > 0,
    ensures
        forall|k: int| 0 <= k < slice@.len() ==> r.0 <= slice@[k],
        forall|k: int| 0 <= k < slice@.len() ==> slice@[k] <= r.1,
        exists|k: int| 0 <= k < slice@.len() && slice@[k] == r.0,
        exists|k: int| 0 <= k < slice@.len() && slice@[k] == r.1,
{
    let mut min_value: u64 = slice[0];
    let mut max_value: u64 = slice[0];
    let count = slice.len();
    let mut i: usize = 1;
    while i < count
        invariant
            count == slice@.len(),
            1 <= i <= count,
            forall|k: int| 0 <= k < i ==> min_value <= slice@[k],
            forall|k: int| 0 <= k < i ==> slice@[k] <= max_value,
            exists|k: int| 0 <= k < i && slice@[k] == min_value,
            exists|k: int| 0 <= k < i && slice@[k] == max_value,
        decreases count - i,
    {
        let value = slice[i];
        if value < min_value {
            min_value = value;
        }
        if value > max_value {
            max_value = value;
        }
        i = i + 1;
    }
    (min_value, max_value)
}

/// The clip limit used by the contrast-limited variant:
/// `floor(threshold * tile_width * tile_height / bins_count)`, with the
/// threshold given in thousandths.
pub open spec fn clip_limit_spec(
    threshold_milli: u64,
    tile_w: nat,
    tile_h: nat,
    bins_count: nat,
) -> int
    recommends
        bins_count > 0,
{
    (threshold_milli * tile_w * tile_h) / (1000 * bins_count as int)
}

/// Total amount above `limit` over the first `n` bins.
pub open spec fn clip_excess_to(s: Seq<u64>, limit: int, n: int) -> int
    decreases n,
{
    if n <= 0 {
        0
    } else {
        clip_excess_to(s, limit, n - 1) + (if s[n - 1] > limit {
            s[n - 1] - limit
        } else {
            0int
        })
    }
}

/// Total amount above `limit` over the whole histogram.
pub open spec fn clip_excess(s: Seq<u64>, limit: int) -> int {
    clip_excess_to(s, limit, s.len() as int)
}

/// One bin after clipping: the count, cut down to `limit`.
pub open spec fn clipped_bin(v: u64, limit: int) -> int {
    if v > limit {
        limit
    } else {
        v as int
    }
}

pub proof fn lemma_clip_excess_to_bound(s: Seq<u64>, limit: int, n: int)
    requires
        limit >= 0,
        n <= s.len(),
    ensures
        0 <= clip_excess_to(s, limit, n) <= prefix_total(s, n),
    decreases n,
{
    if n > 0 {
        lemma_clip_excess_to_bound(s, limit, n - 1);
    }
}

/// A clipped bin plus the whole excess never exceeds the histogram total.
pub proof fn lemma_clip_term_bound(s: Seq<u64>, limit: int, i: int, n: int)
    requires
        limit >= 0,
        0 <= i < n <= s.len(),
    ensures
        clipped_bin(s[i], limit) + clip_excess_to(s, limit, n) <= prefix_total(s, n),
    decreases n,
{
    if i == n - 1 {
        lemma_clip_excess_to_bound(s, limit, n - 1);
    } else {
        lemma_clip_term_bound(s, limit, i, n - 1);
    }
}

/// Summing the clipped bins plus a uniform addition of `m` per bin: the
/// total drops by the excess and grows by `n * m`.
pub proof fn lemma_clipped_prefix_sum(s: Seq<u64>, t: Seq<u64>, limit: int, m: int, n: int)
    requires
        limit >= 0,
        m >= 0,
        0 <= n <= s.len(),
        t.len() == s.len(),
        forall|i: int| 0 <= i < n ==> t[i] == clipped_bin(s[i], limit) + m,
    ensures
        prefix_total(t, n) == prefix_total(s, n) - clip_excess_to(s, limit, n) + n * m,
    decreases n,
{
    if n > 0 {
        lemma_clipped_prefix_sum(s, t, limit, m, n - 1);
        assert(n * m == (n - 1) * m + m) by (nonlinear_arith);
        let delta: int = if s[n - 1] > limit {
            s[n - 1] - limit
        } else {
            0int
        };
        assert(clipped_bin(s[n - 1], limit) == s[n - 1] - delta);
        assert(t[n - 1] == clipped_bin(s[n - 1], limit) + m);
        assert(prefix_total(t, n) == prefix_total(t, n - 1) + t[n - 1]);
        assert(prefix_total(s, n) == prefix_total(s, n - 1) + s[n - 1]);
        assert(clip_excess_to(s, limit, n) == clip_excess_to(s, limit, n - 1) + delta);
        assert(prefix_total(t, n) == prefix_total(s, n - 1) - clip_excess_to(s, limit, n - 1) + (n
            - 1) * m + (s[n - 1] - delta) + m);
        assert(prefix_total(t, n) == prefix_total(s, n) - clip_excess_to(s, limit, n) + n * m);
    } else {
        assert(n == 0);
        assert(n * m == 0) by (nonlinear_arith)
            requires
                n == 0,
        ;
    }
}

/// The contrast-limiting step: every bin above the clip limit is cut down
/// to it, and the cut-off excess is spread uniformly over all bins,
/// `floor(excess / bins_count)` to each. A single redistribution pass is
/// made; the uniform share may push bins above the limit again, which is
/// accepted as a deliberate approximation of iterative re-clipping.
/// The threshold is given in thousandths (`3000` clips at
/// `3.0 * tile_area / bins_count`).
pub fn clip_hist_clahe(bins: &mut Vec<u64>, threshold_milli: u64, width: u32, height: u32)
    requires
        old(bins)@.len() >= 1,
        prefix_total(old(bins)@, old(bins)@.len() as int) <= u64::MAX,
    ensures
        final(bins)@.len() == old(bins)@.len(),
        forall|i: int|
            0 <= i < old(bins)@.len() ==> final(bins)@[i] == clipped_bin(
                old(bins)@[i],
                clip_limit_spec(threshold_milli, width as nat, height as nat, old(bins)@.len()),
            ) + clip_excess(
                old(bins)@,
                clip_limit_spec(threshold_milli, width as nat, height as nat, old(bins)@.len()),
            ) / old(bins)@.len() as int,
{
    let ghost orig: Seq<u64> = bins@;
    let n = bins.len();
    proof {
        assert((threshold_milli as int) * (width as int) <= 0xffffffffffffffff00000000u128) by (nonlinear_arith)
            requires
                threshold_milli <= u64::MAX,
                width <= u32::MAX,
        ;
        assert((threshold_milli as int) * (width as int) * (height as int) <= u128::MAX) by (nonlinear_arith)
            requires
                0 <= (threshold_milli as int) * (width as int) <= 0xffffffffffffffff00000000u128,
                height <= u32::MAX,
        ;
    }
    let product: u128 = (threshold_milli as u128) * (width as u128) * (height as u128);
    let limit_wide: u128 = product / (1000u128 * (n as u128));
    let ghost limit: int = clip_limit_spec(threshold_milli, width as nat, height as nat, n as nat);
    proof {
        assert(limit_wide == limit);
    }
    let mut excess: u64 = 0;
    let mut i: usize = 0;
    while i < n
        invariant
            n == orig.len(),
            bins@.len() == n,
            0 <= i <= n,
            limit >= 0,
            limit_wide == limit,
            excess == clip_excess_to(orig, limit, i as int),
            prefix_total(orig, n as int) <= u64::MAX,
            forall|k: int| 0 <= k < i ==> bins@[k] == clipped_bin(orig[k], limit),
            forall|k: int| i <= k < n ==> bins@[k] == orig[k],
        decreases n - i,
    {
        let value = bins[i];
        proof {
            lemma_clip_excess_to_bound(orig, limit, i as int);
            lemma_prefix_total_monotonic(orig, i as int, n as int);
            lemma_clip_term_bound(orig, limit, i as int, i as int + 1);
            lemma_prefix_total_monotonic(orig, i as int + 1, n as int);
        }
        if (value as u128) > limit_wide {
            excess = excess + (value - (limit_wide as u64));
            bins.set(i, limit_wide as u64);
        }
        i = i + 1;
    }
    let mean_excess: u64 = excess / (n as u64);
    let ghost m: int = clip_excess(orig, limit) / n as int;
    let ghost clipped: Seq<u64> = bins@;
    proof {
        lemma_clip_excess_to_bound(orig, limit, n as int);
        assert(clip_excess(orig, limit) == clip_excess_to(orig, limit, n as int));
        assert(0 <= m <= clip_excess_to(orig, limit, n as int)) by (nonlinear_arith)
            requires
                m == clip_excess_to(orig, limit, n as int) / n as int,
                n >= 1,
                clip_excess_to(orig, limit, n as int) >= 0,
        ;
        assert(mean_excess == m);
    }
    let mut j: usize = 0;
    while j < n
        invariant
            n == orig.len(),
            bins@.len() == n,
            clipped.len() == n,
            0 <= j <= n,
            limit >= 0,
            mean_excess == m,
            0 <= m <= clip_excess_to(orig, limit, n as int),
            prefix_total(orig, n as int) <= u64::MAX,
            forall|k: int| 0 <= k < n ==> clipped[k] == clipped_bin(orig[k], limit),
            forall|k: int| 0 <= k < j ==> bins@[k] == clipped_bin(orig[k], limit) + m,
            forall|k: int| j <= k < n ==> bins@[k] == clipped[k],
        decreases n - j,
    {
        let value = bins[j];
        proof {
            assert(bins@[j as int] == clipped[j as int]);
            assert(clipped[j as int] == clipped_bin(orig[j as int], limit));
            lemma_clip_term_bound(orig, limit, j as int, n as int);
        }
        bins.set(j, value + mean_excess);
        j = j + 1;
    }
}

/// Rounding division: `num / den` rounded half away from zero, for
/// non-negative operands.
pub open spec fn round_half_up_div(num: int, den: int) -> int
    recommends
        den > 0,
        num >= 0,
{
    (2 * num + den) / (2 * den)
}

/// Entry `b` of the equalization mapping after normalization into
/// `[0, max_bins]`, where `v` is the cumulative count of bin `b`. When the
/// region holds a single value (`area == min_bin`), normalization is
/// skipped to avoid a division by zero and the mapping falls back to the
/// identity: entry `b` maps to `b`.
pub open spec fn normalized_bin(v: int, b: int, min_bin: int, area: int, max_bins: int) -> int {
    if area == min_bin {
        b
    } else {
        let q = round_half_up_div(max_bins * (v - min_bin), area - min_bin);
        if q > max_bins {
            max_bins
        } else {
            q
        }
    }
}

/// Rescales a cumulative histogram into the mapping `[0, max_bins]`:
/// subtract the smallest entry, scale by `max_bins / (area - min_bin)`,
/// round to nearest (half away from zero) and clamp. A region of a single
/// value gets the identity mapping instead.
pub fn normalize_mapping(bins: &mut Vec<u64>, min_bin: u64, area: u64, max_bins: u64)
    requires
        max_bins <= 65535,
        min_bin <= area,
        old(bins)@.len() <= max_bins + 1,
        forall|k: int| 0 <= k < old(bins)@.len() ==> min_bin <= old(bins)@[k],
    ensures
        final(bins)@.len() == old(bins)@.len(),
        forall|i: int|
            0 <= i < old(bins)@.len() ==> final(bins)@[i] == normalized_bin(
                old(bins)@[i] as int,
                i,
                min_bin as int,
                area as int,
                max_bins as int,
            ),
        forall|i: int| 0 <= i < old(bins)@.len() ==> final(bins)@[i] <= max_bins,
{
    let ghost orig: Seq<u64> = bins@;
    let n = bins.len();
    if area == min_bin {
        let mut i: usize = 0;
        while i < n
            invariant
                n == orig.len(),
                bins@.len() == n,
                0 <= i <= n,
                n <= max_bins + 1,
                forall|k: int| 0 <= k < i ==> bins@[k] == k,
                forall|k: int| i <= k < n ==> bins@[k] == orig[k],
            decreases n - i,
        {
            bins.set(i, i as u64);
            i = i + 1;
        }
        return ;
    }
    let den: u128 = (area - min_bin) as u128;
    let mut i: usize = 0;
    while i < n
        invariant
            n == orig.len(),
            bins@.len() == n,
            0 <= i <= n,
            max_bins <= 65535,
            min_bin < area,
            den == area - min_bin,
            forall|k: int| 0 <= k < n ==> min_bin <= orig[k],
            forall|k: int|
                0 <= k < i ==> bins@[k] == normalized_bin(
                    orig[k] as int,
                    k,
                    min_bin as int,
                    area as int,
                    max_bins as int,
                ) && bins@[k] <= max_bins,
            forall|k: int| i <= k < n ==> bins@[k] == orig[k],
        decreases n - i,
    {
        let v = bins[i];
        proof {
            assert(bins@[i as int] == orig[i as int]);
            assert(min_bin <= orig[i as int]);
            assert(v >= min_bin);
            assert((max_bins as int) * ((v - min_bin) as int) <= 0xffff0000000000000000u128) by (nonlinear_arith)
                requires
                    max_bins <= 65535,
                    0 <= (v - min_bin) as int <= u64::MAX,
            ;
        }
        let num: u128 = (max_bins as u128) * ((v - min_bin) as u128);
        let q: u128 = (2 * num + den) / (2 * den);
        let q_clamped: u64 = if q > (max_bins as u128) {
            max_bins
        } else {
            q as u64
        };
        proof {
            assert(q == round_half_up_div(
                max_bins as int * (orig[i as int] - min_bin),
                area - min_bin,
            )) by (nonlinear_arith)
                requires
                    q == (2 * num + den) / (2 * den),
                    num == max_bins as int * (orig[i as int] - min_bin),
                    den == area - min_bin,
                    den > 0,
                    num >= 0,
                    round_half_up_div(max_bins as int * (orig[i as int] - min_bin), area - min_bin)
                        == (2 * (max_bins as int * (orig[i as int] - min_bin)) + (area - min_bin))
                        / (2 * (area - min_bin)),
            ;
        }
        bins.set(i, q_clamped);
        i = i + 1;
    }
}

/// Entry `b` of the full equalization mapping built from a histogram: the
/// cumulative count of bin `b`, normalized into `[0, max_bins]` against the
/// smallest cumulative count (which, the sums being non-decreasing, is the
/// count of bin 0) and the region's pixel count.
pub open spec fn mapping_entry(hist: Seq<u64>, area: int, max_bins: int, b: int) -> int {
    normalized_bin(prefix_total(hist, b + 1), b, prefix_total(hist, 1), area, max_bins)
}

/// Exact rounding division: a multiple of the divisor comes back unchanged.
pub proof fn lemma_round_div_exact(m: int, den: int)
    requires
        den >= 1,
        m >= 0,
    ensures
        round_half_up_div(m * den, den) == m,
{
    assert((2 * (m * den) + den) / (2 * den) == m) by (nonlinear_arith)
        requires
            den >= 1,
            m >= 0,
    ;
}

/// Sum of a constant histogram.
pub proof fn lemma_prefix_total_constant(s: Seq<u64>, k: u64, n: int)
    requires
        0 <= n <= s.len(),
        forall|b: int| 0 <= b < s.len() ==> s[b] == k,
    ensures
        prefix_total(s, n) == n * k,
    decreases n,
{
    if n > 0 {
        lemma_prefix_total_constant(s, k, n - 1);
        assert(n * k == (n - 1) * k + k) by (nonlinear_arith);
    } else {
        assert(n * k == 0) by (nonlinear_arith)
            requires
                n == 0,
        ;
    }
}

/// Equalizing an already-uniform histogram gives the identity mapping:
/// when every bin holds the same count, normalizing the cumulative sums
/// against the full total maps every bin index to itself exactly.
pub proof fn lemma_uniform_histogram_identity(hist: Seq<u64>, k: u64, b: int)
    requires
        hist.len() >= 2,
        k >= 1,
        forall|i: int| 0 <= i < hist.len() ==> hist[i] == k,
        0 <= b < hist.len(),
    ensures
        mapping_entry(hist, prefix_total(hist, hist.len() as int), hist.len() - 1, b) == b,
{
    let n: int = hist.len() as int;
    let area = prefix_total(hist, n);
    lemma_prefix_total_constant(hist, k, n);
    lemma_prefix_total_constant(hist, k, b + 1);
    lemma_prefix_total_constant(hist, k, 1);
    assert(area == n * k);
    assert(prefix_total(hist, b + 1) == (b + 1) * k);
    assert(prefix_total(hist, 1) == k);
    assert(area - k == (n - 1) * k) by (nonlinear_arith)
        requires
            area == n * k,
    ;
    assert((n - 1) * k >= 1) by (nonlinear_arith)
        requires
            n >= 2,
            k >= 1,
    ;
    assert((b + 1) * k - k == b * k) by (nonlinear_arith);
    assert((n - 1) * (b * k) == b * ((n - 1) * k)) by (nonlinear_arith);
    lemma_round_div_exact(b, (n - 1) * k);
    assert(round_half_up_div(b * ((n - 1) * k), (n - 1) * k) == b);
    assert(mapping_entry(hist, area, n - 1, b) == b);
}

} // verus!
