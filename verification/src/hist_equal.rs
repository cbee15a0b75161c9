//! Global histogram equalization of a single channel plane: one histogram
//! over the whole image, one cumulative mapping, and a straight per-pixel
//! remap through it.

use vstd::prelude::*;

use crate::hist_support::{
    cdf, clamp_to_bins, make_histogram_region, mapping_entry, minmax, normalize_mapping,
    prefix_total, region_count, EqualizeError, lemma_prefix_total_monotonic,
    lemma_region_count_nonneg,
};

verus! {

/// The histogram of the whole channel plane, one count per bin.
pub open spec fn global_hist(chan: Seq<u16>, width: nat, height: nat, bins_count: nat) -> Seq<
    u64,
> {
    Seq::new(
        bins_count,
        |b: int|
            region_count(chan, width, 0, width, 0, height, bins_count, b) as u64,
    )
}

/// What one pixel of the plane becomes under global equalization: its value,
/// clamped to the bin range, sent through the full-image mapping.
pub open spec fn equalized_pixel(
    chan: Seq<u16>,
    width: nat,
    height: nat,
    bins_count: nat,
    i: int,
) -> int {
    mapping_entry(
        global_hist(chan, width, height, bins_count),
        (width * height) as int,
        bins_count - 1,
        clamp_to_bins(chan[i], bins_count),
    )
}

/// Whether the configuration and plane geometry of a global equalization
/// call are acceptable.
pub open spec fn hist_equal_plane_ok(chan: Seq<u16>, width: u32, height: u32, bins_count: usize) -> bool {
    &&& 2 <= bins_count <= 65536
    &&& chan.len() == width * height
}

/// Global histogram equalization of one channel plane, in place. The plane
/// holds `width * height` values, each expected in `[0, bins_count - 1]`
/// (values outside are clamped). On a configuration or geometry error the
/// plane is left untouched.
pub fn hist_equal_plane(chan: &mut Vec<u16>, width: u32, height: u32, bins_count: usize) -> (r:
    Result<(), EqualizeError>)
    ensures
        final(chan)@.len() == old(chan)@.len(),
        r.is_ok() <==> hist_equal_plane_ok(old(chan)@, width, height, bins_count),
        r.is_err() ==> final(chan)@ == old(chan)@,
        !(2 <= bins_count <= 65536) ==> r == Result::<(), EqualizeError>::Err(
            EqualizeError::InvalidBinsCount,
        ),
        (2 <= bins_count <= 65536 && old(chan)@.len() != width * height) ==> r == Result::<
            (),
            EqualizeError,
        >::Err(EqualizeError::BufferSizeMismatch),
        r.is_ok() ==> forall|i: int|
            0 <= i < old(chan)@.len() ==> final(chan)@[i] == equalized_pixel(
                old(chan)@,
                width as nat,
                height as nat,
                bins_count as nat,
                i,
            ),
        r.is_ok() ==> forall|i: int|
            0 <= i < old(chan)@.len() ==> final(chan)@[i] <= bins_count - 1,
{
    if bins_count <= 1 || bins_count > 65536 {
        return Err(EqualizeError::InvalidBinsCount);
    }
    proof {
        assert((width as int) * (height as int) <= u64::MAX) by (nonlinear_arith)
            requires
                width <= u32::MAX,
                height <= u32::MAX,
        ;
    }
    let total_wide: u64 = (width as u64) * (height as u64);
    if (chan.len() as u64) != total_wide {
        return Err(EqualizeError::BufferSizeMismatch);
    }
    let ghost cs: Seq<u16> = chan@;
    let ghost bn: nat = bins_count as nat;
    proof {
        assert(height * width == width * height) by (nonlinear_arith);
    }
    let hist = make_histogram_region(chan, width, 0, width, 0, height, bins_count);
    let mut bins = hist.bins;
    let ghost ghist: Seq<u64> = global_hist(cs, width as nat, height as nat, bn);
    proof {
        assert forall|b: int| 0 <= b < bins_count implies ghist[b] == bins@[b] by {
            lemma_region_count_nonneg(
                cs,
                width as nat,
                0,
                width as nat,
                0,
                height as nat,
                bn,
                b,
            );
        }
        assert(bins@ =~= ghist);
    }
    cdf(&mut bins);
    let (min_bin, _) = minmax(&bins);
    proof {
        assert(min_bin <= bins@[0]);
        let w = choose|k: int| 0 <= k < bins@.len() && bins@[k] == min_bin;
        lemma_prefix_total_monotonic(ghist, 1, w + 1);
        assert(bins@[0] <= bins@[w]);
        assert(min_bin == prefix_total(ghist, 1));
        lemma_prefix_total_monotonic(ghist, w + 1, bins_count as int);
        assert(min_bin <= total_wide);
    }
    let max_bins: u64 = (bins_count - 1) as u64;
    normalize_mapping(&mut bins, min_bin, total_wide, max_bins);
    proof {
        assert(forall|b: int|
            0 <= b < bins_count ==> bins@[b] == mapping_entry(
                ghist,
                (width * height) as int,
                bins_count - 1,
                b,
            ));
    }
    let n = chan.len();
    let max_value: u16 = (bins_count - 1) as u16;
    let mut i: usize = 0;
    while i < n
        invariant
            n == cs.len(),
            chan@.len() == n,
            0 <= i <= n,
            2 <= bins_count <= 65536,
            max_value == bins_count - 1,
            bins@.len() == bins_count,
            bn == bins_count as nat,
            forall|b: int|
                0 <= b < bins_count ==> bins@[b] == mapping_entry(
                    ghist,
                    (width * height) as int,
                    bins_count - 1,
                    b,
                ) && bins@[b] <= bins_count - 1,
            ghist == global_hist(cs, width as nat, height as nat, bn),
            forall|k: int|
                0 <= k < i ==> chan@[k] == equalized_pixel(cs, width as nat, height as nat, bn, k)
                    && chan@[k] <= bins_count - 1,
            forall|k: int| i <= k < n ==> chan@[k] == cs[k],
        decreases n - i,
    {
        let mut value: u16 = chan[i];
        if value > max_value {
            value = max_value;
        }
        let idx: usize = value as usize;
        proof {
            assert(idx == clamp_to_bins(cs[i as int], bn));
        }
        let mapped: u64 = bins[idx];
        chan.set(i, mapped as u16);
        i = i + 1;
    }
    Ok(())
}

/// Global equalization of an image whose histogram is already uniform is
/// the identity: every bin holds the same count, so the normalized
/// cumulative mapping sends each (clamped) value back to itself.
pub proof fn lemma_uniform_image_identity(
    chan: Seq<u16>,
    width: nat,
    height: nat,
    bins_count: nat,
    k: u64,
    i: int,
)
    requires
        2 <= bins_count,
        k >= 1,
        chan.len() == width * height,
        width * height <= u64::MAX,
        forall|b: int|
            0 <= b < bins_count ==> region_count(chan, width, 0, width, 0, height, bins_count, b)
                == k,
        0 <= i < chan.len(),
    ensures
        equalized_pixel(chan, width, height, bins_count, i) == clamp_to_bins(chan[i], bins_count),
{
    let ghist = global_hist(chan, width, height, bins_count);
    assert forall|b: int| 0 <= b < bins_count implies ghist[b] == k by {}
    crate::clahe_engine::lemma_region_hist_total(chan, width, 0, width, 0, height, bins_count);
    assert(ghist =~= crate::clahe_engine::region_hist(
        chan,
        width,
        0,
        width,
        0,
        height,
        bins_count,
    ));
    crate::hist_support::lemma_prefix_total_constant(ghist, k, bins_count as int);
    let v = clamp_to_bins(chan[i], bins_count);
    crate::hist_support::lemma_uniform_histogram_identity(ghist, k, v);
    assert((width - 0) * (height - 0) == width * height);
    assert(prefix_total(ghist, bins_count as int) == width * height);
}

} // verus!
