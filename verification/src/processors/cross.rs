//! The grain layout of the cross grain processor: grain boundaries snapped
//! to zero crossings, and which part of the side-chain each grain takes.
use vstd::prelude::*;

verus! {

/// Parameters of the cross grain processor.
pub struct CrossGrainParams {
    pub sidechain_file: String,
    pub grain_samples: usize,
    pub blend_samples: usize,
}

/// `nominal` rounded down to a multiple of `channels`.
pub open spec fn align_down(nominal: int, channels: int) -> int {
    (nominal / channels) * channels
}

/// How far the search for a zero crossing may go: `max_search` past the
/// aligned start, and never within the last frame.
pub open spec fn search_limit(len: int, nominal: int, max_search: int, channels: int) -> int {
    let a = align_down(nominal, channels) + max_search;
    let b = if len >= channels { len - channels } else { 0 };
    if a < b { a } else { b }
}

/// The first position from `pos`, stepping by `channels`, whose sample
/// and the next one of its channel differ in sign (`nonneg` tells whether
/// a sample is at least zero), while the next one lies below `limit`;
/// -1 when there is none.
pub open spec fn first_crossing(nonneg: Seq<bool>, pos: int, limit: int, channels: int) -> int
    decreases limit - pos,
{
    if channels <= 0 || pos < 0 || pos + channels >= limit {
        -1
    } else if nonneg[pos] != nonneg[pos + channels] {
        pos
    } else {
        first_crossing(nonneg, pos + channels, limit, channels)
    }
}

/// The zero crossing a grain boundary snaps to: the first crossing found
/// from the aligned nominal position, or that position when there is none.
pub open spec fn zero_crossing(nonneg: Seq<bool>, nominal: int, max_search: int, channels: int) -> int {
    let a = align_down(nominal, channels);
    let p = first_crossing(nonneg, a, search_limit(nonneg.len() as int, nominal, max_search, channels), channels);
    if p < 0 { a } else { p }
}

proof fn lemma_first_crossing(nonneg: Seq<bool>, pos: int, limit: int, channels: int)
    requires
        0 <= pos,
        limit <= nonneg.len(),
    ensures
        first_crossing(nonneg, pos, limit, channels) == -1
            || (pos <= first_crossing(nonneg, pos, limit, channels)
                && first_crossing(nonneg, pos, limit, channels) + channels < limit),
    decreases limit - pos,
{
    if channels > 0 && pos + channels < limit && nonneg[pos] == nonneg[pos + channels] {
        lemma_first_crossing(nonneg, pos + channels, limit, channels);
    }
}

/// Two positions on the same grid of step `ch` less than a step apart are
/// the same position.
proof fn lemma_same_grid_point(x: int, y: int, ch: int)
    requires
        ch > 0,
        x % ch == 0,
        y % ch == 0,
        x <= y < x + ch,
    ensures
        y == x,
{
    vstd::arithmetic::div_mod::lemma_sub_mod_noop(y, x, ch);
    vstd::arithmetic::div_mod::lemma_small_mod(0, ch as nat);
    vstd::arithmetic::div_mod::lemma_small_mod((y - x) as nat, ch as nat);
    assert((y - x) % ch == 0);
    assert(((y - x) as nat) % (ch as nat) == (y - x) % ch);
}

/// The position a grain boundary near `nominal` snaps to: the next zero
/// crossing at or after the channel-aligned `nominal`, stepping by
/// `channels` and searching at most `max_search` samples ahead; the
/// aligned position when none is found. `nonneg[i]` tells whether sample
/// `i` is at least zero.
///
/// Stated directly: the result lies on the channel grid between the
/// aligned position `a` and `a + max_search`; when it is not `a`, its
/// sample and the next one of its channel differ in sign, both inside the
/// search window (the next one before `a + max_search` and a frame before
/// the end); every grid position before it shows no sign change; and when
/// no sign change occurs in the window the result is `a`.
pub fn find_zero_crossing(nonneg: &Vec<bool>, nominal: usize, max_search: usize, channels: usize) -> (r: usize)
    requires
        channels > 0,
        nominal + max_search + channels <= usize::MAX,
    ensures
        r as int == zero_crossing(nonneg@, nominal as int, max_search as int, channels as int),
        align_down(nominal as int, channels as int) <= r,
        r == align_down(nominal as int, channels as int) || r < nonneg@.len(),
        r <= align_down(nominal as int, channels as int) + max_search,
        (r - align_down(nominal as int, channels as int)) % (channels as int) == 0,
        r != align_down(nominal as int, channels as int) ==> {
            &&& r + channels < align_down(nominal as int, channels as int) + max_search
            &&& r + 2 * channels < nonneg@.len()
            &&& nonneg@[r as int] != nonneg@[r + channels]
        },
        forall|p: int| align_down(nominal as int, channels as int) <= p < r
            && (p - align_down(nominal as int, channels as int)) % (channels as int) == 0
            ==> #[trigger] nonneg@[p] == nonneg@[p + channels],
        (forall|p: int| align_down(nominal as int, channels as int) <= p
            && (p - align_down(nominal as int, channels as int)) % (channels as int) == 0
            && p + channels < align_down(nominal as int, channels as int) + max_search
            && p + 2 * channels < nonneg@.len()
            ==> #[trigger] nonneg@[p] == nonneg@[p + channels])
            ==> r == align_down(nominal as int, channels as int),
{
    let q = nominal / channels;
    assert(q * channels <= nominal) by (nonlinear_arith)
        requires q == nominal / channels, channels > 0;
    let aligned = q * channels;
    let len = nonneg.len();
    let tail = if len >= channels { len - channels } else { 0 };
    let limit = if aligned + max_search < tail { aligned + max_search } else { tail };
    let ghost lim = search_limit(nonneg@.len() as int, nominal as int, max_search as int, channels as int);
    assert(limit == lim);
    proof {
        lemma_first_crossing(nonneg@, aligned as int, lim, channels as int);
        assert(0int % (channels as int) == 0) by {
            vstd::arithmetic::div_mod::lemma_small_mod(0, channels as nat);
        }
    }
    let mut pos = aligned;
    while pos + channels < limit
        invariant
            aligned as int == align_down(nominal as int, channels as int),
            lim == search_limit(nonneg@.len() as int, nominal as int, max_search as int, channels as int),
            aligned <= pos,
            limit <= nonneg@.len(),
            channels > 0,
            limit == lim,
            aligned + max_search + channels <= usize::MAX,
            limit <= aligned + max_search,
            limit + channels <= nonneg@.len() || limit == 0,
            pos <= aligned || pos < limit,
            (pos - aligned) % (channels as int) == 0,
            forall|p: int| aligned <= p < pos && (p - aligned) % (channels as int) == 0
                ==> #[trigger] nonneg@[p] == nonneg@[p + channels],
            first_crossing(nonneg@, aligned as int, lim, channels as int)
                == first_crossing(nonneg@, pos as int, lim, channels as int),
        decreases limit - pos,
    {
        if nonneg[pos] != nonneg[pos + channels] {
            assert(first_crossing(nonneg@, pos as int, lim, channels as int) == pos as int);
            return pos;
        }
        let ghost old_pos = pos as int;
        pos = pos + channels;
        proof {
            vstd::arithmetic::div_mod::lemma_mod_add_multiples_vanish(old_pos - aligned, channels as int);
            assert forall|p: int| aligned <= p < pos && (p - aligned) % (channels as int) == 0
                implies #[trigger] nonneg@[p] == nonneg@[p + channels] by {
                if p >= old_pos {
                    lemma_same_grid_point(old_pos - aligned, p - aligned, channels as int);
                }
            }
        }
    }
    proof {
        assert forall|p: int| aligned <= p && (p - aligned) % (channels as int) == 0
            && p + channels < aligned + max_search && p + 2 * channels < nonneg@.len()
            implies #[trigger] nonneg@[p] == nonneg@[p + channels] by {
            if p >= pos {
                assert(p + channels < limit);
            }
        }
    }
    aligned
}

/// The position after grain `k`'s boundary where the next grain starts.
pub open spec fn next_grain_position(r: Seq<usize>, k: int, grain: int) -> int {
    r[k] + grain
}

/// Boundary `k` of `r` is the zero crossing near the position a grain
/// after boundary `k - 1`, and that position lies within the samples.
pub open spec fn boundary_step(nonneg: Seq<bool>, r: Seq<usize>, k: int, grain: int, channels: int) -> bool {
    &&& next_grain_position(r, k - 1, grain) < nonneg.len()
    &&& r[k] as int == zero_crossing(nonneg, next_grain_position(r, k - 1, grain), grain / 2, channels)
}

/// `r` is the list of grain boundaries of `nonneg.len()` samples: it starts
/// at 0, each next boundary is the zero crossing near the previous one
/// plus a grain, and the list ends when that position reaches the end.
pub open spec fn grain_boundaries_of(nonneg: Seq<bool>, grain: int, channels: int, r: Seq<usize>) -> bool {
    &&& r.len() >= 1
    &&& r[0] == 0
    &&& forall|k: int| 1 <= k < r.len() ==> #[trigger] boundary_step(nonneg, r, k, grain, channels)
    &&& next_grain_position(r, r.len() - 1, grain) >= nonneg.len()
}

/// The channel count the grains use: at least one.
pub open spec fn grain_channels(channels: usize) -> int {
    if channels < 1 { 1 } else { channels as int }
}

/// The grain length the grains use: at least one frame.
pub open spec fn grain_length(grain_samples: usize, channels: usize) -> int {
    if grain_samples < grain_channels(channels) { grain_channels(channels) } else { grain_samples as int }
}

/// The grain boundaries of the current audio, snapped to zero crossings.
#[verifier::rlimit(50)]
pub fn grain_boundaries(nonneg: &Vec<bool>, grain_samples: usize, channels: usize) -> (r: Vec<usize>)
    requires
        nonneg@.len() + grain_samples + 2 * channels + 2 <= usize::MAX,
    ensures
        grain_boundaries_of(nonneg@, grain_length(grain_samples, channels), grain_channels(channels), r@),
        forall|k: int| 0 <= k < r@.len() ==> #[trigger] r@[k] < nonneg@.len() || k == 0,
        forall|a: int, b: int| 0 <= a < b < r@.len() ==> r@[a] < r@[b],
        forall|k: int| 1 <= k < r@.len() ==> #[trigger] r@[k] <= r@[k - 1]
            + grain_length(grain_samples, channels) + grain_length(grain_samples, channels) / 2,
{
    let ch = if channels < 1 { 1 } else { channels };
    let grain = if grain_samples < ch { ch } else { grain_samples };
    let max_snap = grain / 2;
    let len = nonneg.len();
    let mut boundaries: Vec<usize> = Vec::new();
    boundaries.push(0);
    let mut pos = grain;
    while pos < len
        invariant
            len == nonneg@.len(),
            ch as int == grain_channels(channels),
            grain as int == grain_length(grain_samples, channels),
            max_snap == grain / 2,
            ch <= grain,
            len + grain_samples + 2 * channels + 2 <= usize::MAX,
            boundaries@.len() >= 1,
            boundaries@[0] == 0,
            pos as int == next_grain_position(boundaries@, boundaries@.len() - 1, grain as int),
            forall|k: int| 1 <= k < boundaries@.len() ==> #[trigger] boundary_step(nonneg@, boundaries@, k, grain as int, ch as int),
            forall|k: int| 0 <= k < boundaries@.len() ==> #[trigger] boundaries@[k] < len || k == 0,
            forall|a: int, b: int| 0 <= a < b < boundaries@.len() ==> boundaries@[a] < boundaries@[b],
            forall|k: int| 1 <= k < boundaries@.len() ==> #[trigger] boundaries@[k] <= boundaries@[k - 1]
                + grain + grain / 2,
        decreases len + grain - pos,
    {
        let snapped = find_zero_crossing(nonneg, pos, max_snap, ch);
        proof {
            assert(align_down(pos as int, ch as int) > pos - ch && align_down(pos as int, ch as int) <= pos) by (nonlinear_arith)
                requires ch > 0, pos >= 0;
        }
        let ghost before = boundaries@;
        boundaries.push(snapped);
        assert forall|k: int| 1 <= k < boundaries@.len() implies #[trigger] boundary_step(nonneg@, boundaries@, k, grain as int, ch as int) by {
            if k < before.len() {
                assert(boundaries@[k] == before[k] && boundaries@[k - 1] == before[k - 1]);
                assert(boundary_step(nonneg@, before, k, grain as int, ch as int));
            }
        }
        assert(snapped < len);
        assert forall|a: int, b: int| 0 <= a < b < boundaries@.len() implies boundaries@[a] < boundaries@[b] by {
            if b == boundaries@.len() - 1 {
                assert(boundaries@[a] == before[a]);
                assert(before[a] <= before[before.len() - 1]);
            } else {
                assert(boundaries@[a] == before[a] && boundaries@[b] == before[b]);
            }
        }
        pos = snapped + grain;
    }
    boundaries
}

/// One grain of the output: `len` samples of the current audio from
/// `start`, then as many samples of the side-chain, cycling from
/// `sidechain_start`. The current grain fades in unless it is the first;
/// the side-chain grain fades out unless it is the last.
pub struct GrainSlice {
    pub start: usize,
    pub len: usize,
    pub sidechain_start: usize,
    pub fade_in_current: bool,
    pub fade_out_sidechain: bool,
}

/// Where the end of grain `i` lies: the next boundary, or the end.
pub open spec fn grain_end(b: Seq<usize>, current_len: int, i: int) -> int {
    if i + 1 < b.len() { b[i + 1] as int } else { current_len }
}

/// Where grain `i` starts reading the side-chain: the previous start plus
/// the previous grain's length, wrapped around the side-chain and aligned
/// to a frame.
pub open spec fn sidechain_start(b: Seq<usize>, current_len: int, sidechain_len: int, channels: int, i: int) -> int
    decreases i,
{
    if i <= 0 {
        0
    } else {
        let prev = sidechain_start(b, current_len, sidechain_len, channels, i - 1);
        let glen = grain_end(b, current_len, i - 1) - b[i - 1];
        (((prev + glen) % sidechain_len) / channels) * channels
    }
}

/// The slices of the output for grain boundaries `boundaries` (strictly
/// increasing from 0, all below `current_len`).
pub fn grain_slices(boundaries: &Vec<usize>, current_len: usize, sidechain_len: usize, channels: usize) -> (r: Vec<GrainSlice>)
    requires
        boundaries@.len() >= 1,
        boundaries@[0] == 0,
        forall|i: int, j: int| 0 <= i < j < boundaries@.len() ==> boundaries@[i] < boundaries@[j],
        forall|i: int| 0 <= i < boundaries@.len() ==> #[trigger] boundaries@[i] < current_len,
        sidechain_len > 0,
        channels > 0,
        current_len + sidechain_len <= usize::MAX,
    ensures
        r@.len() == boundaries@.len(),
        forall|i: int| 0 <= i < r@.len() ==> {
            &&& (#[trigger] r@[i]).start == boundaries@[i]
            &&& r@[i].len as int == grain_end(boundaries@, current_len as int, i) - boundaries@[i]
            &&& r@[i].len > 0
            &&& r@[i].sidechain_start as int == sidechain_start(boundaries@, current_len as int, sidechain_len as int, channels as int, i)
            &&& r@[i].sidechain_start < sidechain_len
            &&& r@[i].fade_in_current == (i != 0)
            &&& r@[i].fade_out_sidechain == (i != boundaries@.len() - 1)
        },
{
    let n = boundaries.len();
    let mut slices: Vec<GrainSlice> = Vec::new();
    let mut sc_pos: usize = 0;
    let mut i: usize = 0;
    while i < n
        invariant
            n == boundaries@.len(),
            i <= n,
            n >= 1,
            sidechain_len > 0,
            channels > 0,
            current_len + sidechain_len <= usize::MAX,
            forall|a: int, b: int| 0 <= a < b < boundaries@.len() ==> boundaries@[a] < boundaries@[b],
            forall|a: int| 0 <= a < boundaries@.len() ==> #[trigger] boundaries@[a] < current_len,
            sc_pos as int == sidechain_start(boundaries@, current_len as int, sidechain_len as int, channels as int, i as int),
            sc_pos < sidechain_len,
            slices@.len() == i,
            forall|k: int| 0 <= k < i ==> {
                &&& (#[trigger] slices@[k]).start == boundaries@[k]
                &&& slices@[k].len as int == grain_end(boundaries@, current_len as int, k) - boundaries@[k]
                &&& slices@[k].len > 0
                &&& slices@[k].sidechain_start as int == sidechain_start(boundaries@, current_len as int, sidechain_len as int, channels as int, k)
                &&& slices@[k].sidechain_start < sidechain_len
                &&& slices@[k].fade_in_current == (k != 0)
                &&& slices@[k].fade_out_sidechain == (k != boundaries@.len() - 1)
            },
        decreases n - i,
    {
        let start = boundaries[i];
        let end = if i + 1 < n { boundaries[i + 1] } else { current_len };
        let grain_len = end - start;
        slices.push(GrainSlice {
            start,
            len: grain_len,
            sidechain_start: sc_pos,
            fade_in_current: i != 0,
            fade_out_sidechain: i != n - 1,
        });
        let wrapped = (sc_pos + grain_len) % sidechain_len;
        let q = wrapped / channels;
        assert(q * channels <= wrapped) by (nonlinear_arith)
            requires q == wrapped / channels, channels > 0;
        let next = q * channels;
        sc_pos = next;
        i = i + 1;
    }
    slices
}

/// The total length of the first `k` grains.
pub open spec fn grains_total(b: Seq<usize>, current_len: int, k: nat) -> int
    decreases k,
{
    if k == 0 {
        0
    } else {
        grains_total(b, current_len, (k - 1) as nat) + (grain_end(b, current_len, k - 1) - b[k - 1])
    }
}

proof fn lemma_grains_total_prefix(b: Seq<usize>, current_len: int, k: nat)
    requires
        1 <= k <= b.len(),
    ensures
        grains_total(b, current_len, k) == grain_end(b, current_len, k - 1) - b[0],
    decreases k,
{
    assert(grains_total(b, current_len, k) == grains_total(b, current_len, (k - 1) as nat)
        + (grain_end(b, current_len, k - 1) - b[k - 1]));
    if k > 1 {
        lemma_grains_total_prefix(b, current_len, (k - 1) as nat);
        assert(grain_end(b, current_len, k - 2) == b[k - 1]);
    } else {
        assert(grains_total(b, current_len, 0) == 0);
    }
}

/// The grains cover the current audio exactly: each starts where the one
/// before ends, the first at 0, and their lengths add up to the length of
/// the current audio.
pub proof fn lemma_grains_tile(b: Seq<usize>, current_len: int)
    requires
        b.len() >= 1,
        b[0] == 0,
    ensures
        grains_total(b, current_len, b.len()) == current_len,
        forall|i: int| 0 <= i < b.len() - 1 ==> #[trigger] grain_end(b, current_len, i) == b[i + 1],
{
    lemma_grains_total_prefix(b, current_len, b.len());
}

} // verus!
