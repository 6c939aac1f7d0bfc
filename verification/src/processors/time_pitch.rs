//! Reversal of interleaved samples, the layout of the granular time
//! stretch (its chunks and which input sample each output sample takes),
//! and the parameter types of the time stretching processors.
use vstd::prelude::*;

verus! {

/// Parameters of the granular time stretch.
pub struct TimeStretchParams {
    pub grain_samples: usize,
    pub blend_samples: usize,
    pub stretch_factor: usize,
}

/// The window of the spectral time stretch.
#[derive(Debug, Clone, Copy, PartialEq, Eq, Structural)]
pub enum WindowType {
    Hamming,
    Blackman,
}

/// Where sample `i` of `n` interleaved samples in `channels` channels
/// comes from when the frames are reversed: the same channel of the
/// mirrored frame.
pub open spec fn reversed_index(i: int, n: int, channels: int) -> int {
    (n / channels - 1 - i / channels) * channels + i % channels
}

proof fn lemma_reversed_index(i: int, n: int, ch: int)
    requires
        ch > 0,
        n % ch == 0,
        0 <= i < n,
    ensures
        0 <= reversed_index(i, n, ch) < n,
        reversed_index(i, n, ch) / ch == n / ch - 1 - i / ch,
        reversed_index(i, n, ch) % ch == i % ch,
{
    let f = n / ch;
    let g = i / ch;
    let c = i % ch;
    assert(n == f * ch && i == g * ch + c && 0 <= c < ch && 0 <= g < f) by (nonlinear_arith)
        requires f == n / ch, g == i / ch, c == i % ch, ch > 0, n % ch == 0, 0 <= i < n;
    let r = (f - 1 - g) * ch + c;
    assert(0 <= r < n && r / ch == f - 1 - g && r % ch == c) by (nonlinear_arith)
        requires r == (f - 1 - g) * ch + c, 0 <= c < ch, 0 <= g < f, n == f * ch, ch > 0;
}

/// Reversing the frames twice gives back every sample.
pub proof fn lemma_reverse_involution(i: int, n: int, channels: int)
    requires
        channels > 0,
        n % channels == 0,
        0 <= i < n,
    ensures
        reversed_index(reversed_index(i, n, channels), n, channels) == i,
{
    lemma_reversed_index(i, n, channels);
    let r = reversed_index(i, n, channels);
    lemma_reversed_index(r, n, channels);
    let f = n / channels;
    assert(i == (i / channels) * channels + i % channels) by (nonlinear_arith)
        requires channels > 0;
}

/// The first `sample_length` samples with their frames in reverse order
/// (the channels of each frame keep their order); the samples after them
/// stay as they are.
pub fn reverse<T: Copy>(samples: &Vec<T>, sample_length: usize, channels: usize) -> (r: Vec<T>)
    requires
        sample_length <= samples@.len(),
        sample_length <= i32::MAX,
        channels <= i32::MAX,
        sample_length > 0 ==> channels > 0 && sample_length % channels == 0,
    ensures
        r@.len() == samples@.len(),
        forall|i: int| 0 <= i < sample_length ==> #[trigger] r@[i] == samples@[reversed_index(i, sample_length as int, channels as int)],
        forall|i: int| sample_length <= i < samples@.len() ==> #[trigger] r@[i] == samples@[i],
{
    let mut new_samples: Vec<T> = Vec::new();
    let mut i: usize = 0;
    while i < samples.len()
        invariant
            i <= samples@.len(),
            sample_length <= samples@.len(),
            sample_length > 0 ==> channels > 0 && sample_length % channels == 0,
            new_samples@.len() == i,
            forall|k: int| 0 <= k < i && k < sample_length ==> #[trigger] new_samples@[k] == samples@[reversed_index(k, sample_length as int, channels as int)],
            forall|k: int| sample_length <= k < i ==> #[trigger] new_samples@[k] == samples@[k],
        decreases samples@.len() - i,
    {
        if i < sample_length {
            proof { lemma_reversed_index(i as int, sample_length as int, channels as int); }
            let frames = sample_length / channels;
            let group = i / channels;
            let idx = (frames - 1 - group) * channels + i % channels;
            new_samples.push(samples[idx]);
        } else {
            new_samples.push(samples[i]);
        }
        i = i + 1;
    }
    new_samples
}

/// Whether two samples have strictly opposite signs (`signs` hold -1, 0
/// or 1 for each sample).
pub open spec fn opposite_signs(a: i8, b: i8) -> bool {
    (a > 0 && b < 0) || (a < 0 && b > 0)
}

/// The chunk starts found from frame position `i` on, `last` being the
/// previous one: a position starts a chunk when its sample and the one a
/// frame before have opposite signs and it lies more than `grain` samples
/// after the previous start.
pub open spec fn chunk_starts_from(signs: Seq<i8>, n: int, channels: int, grain: int, i: int, last: int) -> Seq<usize>
    decreases (if i < n { n - i } else { 0 }),
{
    if channels <= 0 || i < channels || i >= n {
        Seq::empty()
    } else if opposite_signs(signs[i - channels], signs[i]) && i - last > grain {
        seq![i as usize] + chunk_starts_from(signs, n, channels, grain, i + channels, i)
    } else {
        chunk_starts_from(signs, n, channels, grain, i + channels, last)
    }
}

/// The chunk boundaries of the granular time stretch of `n` samples: 0,
/// the chunk starts, and the last position.
pub open spec fn stretch_chunks(signs: Seq<i8>, n: int, channels: int, grain: int) -> Seq<usize> {
    seq![0usize] + chunk_starts_from(signs, n, channels, grain, channels, 0) + seq![(n - 1) as usize]
}

proof fn lemma_chunk_starts_after(signs: Seq<i8>, n: int, channels: int, grain: int, i: int, last: int)
    requires
        channels > 0,
        i >= channels,
        last < i,
        n <= usize::MAX,
    ensures
        forall|k: int| 0 <= k < chunk_starts_from(signs, n, channels, grain, i, last).len() ==> {
            &&& i <= #[trigger] chunk_starts_from(signs, n, channels, grain, i, last)[k] < n
            &&& k > 0 ==> chunk_starts_from(signs, n, channels, grain, i, last)[k - 1]
                < chunk_starts_from(signs, n, channels, grain, i, last)[k]
        },
    decreases (if i < n { n - i } else { 0 }),
{
    let r = chunk_starts_from(signs, n, channels, grain, i, last);
    if i < n {
        if opposite_signs(signs[i - channels], signs[i]) && i - last > grain {
            lemma_chunk_starts_after(signs, n, channels, grain, i + channels, i);
            let rest = chunk_starts_from(signs, n, channels, grain, i + channels, i);
            assert(r == seq![i as usize] + rest);
            assert forall|k: int| 0 <= k < r.len() implies {
                &&& i <= #[trigger] r[k] < n
                &&& k > 0 ==> r[k - 1] < r[k]
            } by {
                if k > 0 {
                    assert(r[k] == rest[k - 1]);
                    if k > 1 {
                        assert(r[k - 1] == rest[k - 2]);
                    }
                }
            }
        } else {
            lemma_chunk_starts_after(signs, n, channels, grain, i + channels, last);
            assert(r == chunk_starts_from(signs, n, channels, grain, i + channels, last));
        }
    }
}

/// The chunk boundaries run from 0 to the last position without going
/// back.
proof fn lemma_stretch_chunks_sorted(signs: Seq<i8>, n: int, channels: int, grain: int)
    requires
        channels > 0,
        1 <= n <= usize::MAX,
    ensures
        forall|a: int, b: int| 0 <= a < b < stretch_chunks(signs, n, channels, grain).len() ==>
            stretch_chunks(signs, n, channels, grain)[a] <= stretch_chunks(signs, n, channels, grain)[b],
        forall|a: int| 0 <= a < stretch_chunks(signs, n, channels, grain).len() ==>
            #[trigger] stretch_chunks(signs, n, channels, grain)[a] < n,
{
    let all = chunk_starts_from(signs, n, channels, grain, channels, 0);
    lemma_chunk_starts_after(signs, n, channels, grain, channels, 0);
    let r = stretch_chunks(signs, n, channels, grain);
    assert(r =~= seq![0usize] + all + seq![(n - 1) as usize]);
    assert(r.len() == all.len() + 2);
    assert(r[0] == 0);
    assert(r[r.len() - 1] == n - 1);
    assert forall|a: int| 1 <= a < r.len() - 1 implies r[a] == #[trigger] all[a - 1] by {}
    lemma_sorted_ends(all, r, n);
}

proof fn lemma_sorted_ends(all: Seq<usize>, r: Seq<usize>, n: int)
    requires
        r.len() == all.len() + 2,
        r[0] == 0,
        r[r.len() - 1] == n - 1,
        n >= 1,
        forall|a: int| 1 <= a < r.len() - 1 ==> r[a] == #[trigger] all[a - 1],
        forall|k: int| 0 <= k < all.len() ==> {
            &&& #[trigger] all[k] < n
            &&& k > 0 ==> all[k - 1] < all[k]
        },
    ensures
        forall|a: int, b: int| 0 <= a < b < r.len() ==> r[a] <= r[b],
        forall|a: int| 0 <= a < r.len() ==> #[trigger] r[a] < n,
{
    assert forall|k: int| 1 <= k < all.len() implies all[k - 1] < #[trigger] all[k] by {}
    assert forall|a: int, b: int| 0 <= a < b < r.len() implies r[a] <= r[b] by {
        if a > 0 && b < r.len() - 1 {
            assert(r[a] == all[a - 1] && r[b] == all[b - 1]);
            lemma_sorted_chain(all, a - 1, b - 1);
        } else if a > 0 {
            assert(r[a] == all[a - 1]);
        } else if b < r.len() - 1 {
            assert(r[b] == all[b - 1]);
        }
    }
    assert forall|a: int| 0 <= a < r.len() implies #[trigger] r[a] < n by {
        if 0 < a < r.len() - 1 {
            assert(r[a] == all[a - 1]);
        }
    }
}

/// The chunk boundaries of the granular time stretch: from 0, each
/// position (stepping by frames) where the sign flips more than
/// `grain_samples` after the previous boundary, then the last position.
/// `signs[i]` is the sign (-1, 0 or 1) of sample `i`.
pub fn time_stretch_chunks(signs: &Vec<i8>, sample_length: usize, channels: usize, grain_samples: usize) -> (r: Vec<usize>)
    requires
        channels > 0,
        1 <= sample_length <= signs@.len(),
    ensures
        r@ == stretch_chunks(signs@, sample_length as int, channels as int, grain_samples as int),
        r@.len() >= 2,
        forall|a: int, b: int| 0 <= a < b < r@.len() ==> r@[a] <= r@[b],
        forall|a: int| 0 <= a < r@.len() ==> #[trigger] r@[a] < sample_length,
{
    let n = sample_length;
    let ghost all = chunk_starts_from(signs@, n as int, channels as int, grain_samples as int, channels as int, 0);
    let mut chunks: Vec<usize> = vec![0];
    let mut last: usize = 0;
    let mut i: usize = channels;
    while i < n
        invariant
            channels > 0,
            n <= signs@.len(),
            channels <= i,
            last < i,
            chunks@.len() >= 1,
            chunks@.last() == last,
            chunks@ + chunk_starts_from(signs@, n as int, channels as int, grain_samples as int, i as int, last as int)
                == seq![0usize] + all,
        decreases n - i,
    {
        let ghost rest = chunk_starts_from(signs@, n as int, channels as int, grain_samples as int, i as int, last as int);
        let a = signs[i - channels];
        let b = signs[i];
        if ((a > 0 && b < 0) || (a < 0 && b > 0)) && i - last > grain_samples {
            let ghost before = chunks@;
            chunks.push(i);
            assert(chunks@ + chunk_starts_from(signs@, n as int, channels as int, grain_samples as int, i + channels, i as int)
                =~= before + rest);
            last = i;
        }
        let ghost next = (i + channels) as int;
        if n - i <= channels {
            i = n;
        } else {
            i = i + channels;
        }
        assert(chunk_starts_from(signs@, n as int, channels as int, grain_samples as int, next, last as int)
            == chunk_starts_from(signs@, n as int, channels as int, grain_samples as int, i as int, last as int));
    }
    chunks.push(n - 1);
    proof {
        assert(chunks@ =~= stretch_chunks(signs@, n as int, channels as int, grain_samples as int));
        lemma_stretch_chunks_sorted(signs@, n as int, channels as int, grain_samples as int);
    }
    chunks
}

proof fn lemma_sorted_chain(s: Seq<usize>, a: int, b: int)
    requires
        0 <= a <= b < s.len(),
        forall|k: int| 1 <= k < s.len() ==> s[k - 1] < #[trigger] s[k],
    ensures
        s[a] <= s[b],
    decreases b - a,
{
    if a < b {
        lemma_sorted_chain(s, a, b - 1);
    }
}

/// How a sample of the stretched audio is scaled: kept as it is, or
/// multiplied by the ratio of the two numbers.
#[derive(Debug, Clone, Copy, PartialEq, Eq, Structural)]
pub enum StretchGain {
    Unity,
    Ratio(usize, usize),
}

/// One sample of the stretched audio: which input sample, and how it is
/// scaled.
#[derive(Debug, Clone, Copy, PartialEq, Eq, Structural)]
pub struct StretchStep {
    pub source: usize,
    pub gain: StretchGain,
}

/// Half the blend, the blend being at most a grain.
pub open spec fn half_blend(grain: usize, blend: usize) -> int {
    (if blend > grain { grain as int } else { blend as int }) / 2
}

/// The scaling of the sample `pos` samples into a chunk and `to_end`
/// samples before its end: faded in over the first half blend (unless it
/// is the very first pass), faded out over the last half blend.
pub open spec fn step_gain(pos: int, to_end: int, first: bool, hb: int) -> StretchGain {
    if pos < hb {
        if first { StretchGain::Unity } else { StretchGain::Ratio(pos as usize, hb as usize) }
    } else if to_end < hb {
        StretchGain::Ratio(to_end as usize, hb as usize)
    } else {
        StretchGain::Unity
    }
}

/// One pass over the chunk from `start` to `end` (exclusive).
pub open spec fn chunk_pass(start: int, end: int, first: bool, hb: int) -> Seq<StretchStep> {
    Seq::new(
        (if end > start { end - start } else { 0 }) as nat,
        |p: int| StretchStep { source: (start + p) as usize, gain: step_gain(p, end - (start + p), first, hb) },
    )
}

/// `reps` passes over chunk number `chunk`.
pub open spec fn chunk_passes(start: int, end: int, chunk: int, reps: nat, hb: int) -> Seq<StretchStep>
    decreases reps,
{
    if reps == 0 {
        Seq::empty()
    } else {
        chunk_passes(start, end, chunk, (reps - 1) as nat, hb) + chunk_pass(start, end, chunk == 0 && reps == 1, hb)
    }
}

/// The passes over the first `k` chunks between the boundaries `chunks`.
pub open spec fn stretch_plan(chunks: Seq<usize>, k: nat, reps: nat, hb: int) -> Seq<StretchStep>
    decreases k,
{
    if k == 0 {
        Seq::empty()
    } else {
        stretch_plan(chunks, (k - 1) as nat, reps, hb) + chunk_passes(chunks[k - 1] as int, chunks[k as int] as int, k - 1, reps, hb)
    }
}

/// Every faded sample of `s` is faded over `hb` samples and is part way
/// through the fade.
pub open spec fn fades_over(s: Seq<StretchStep>, hb: int) -> bool {
    forall|i: int| 0 <= i < s.len() ==> match #[trigger] s[i].gain {
        StretchGain::Ratio(a, b) => b == hb && a < b,
        StretchGain::Unity => true,
    }
}

proof fn lemma_chunk_passes_fade(start: int, end: int, chunk: int, reps: nat, hb: int)
    requires
        0 <= start,
        0 <= hb <= usize::MAX,
        end <= usize::MAX,
    ensures
        fades_over(chunk_passes(start, end, chunk, reps, hb), hb),
    decreases reps,
{
    if reps > 0 {
        lemma_chunk_passes_fade(start, end, chunk, (reps - 1) as nat, hb);
        let a = chunk_passes(start, end, chunk, (reps - 1) as nat, hb);
        let b = chunk_pass(start, end, chunk == 0 && reps == 1, hb);
        assert forall|i: int| 0 <= i < (a + b).len() implies match #[trigger] (a + b)[i].gain {
            StretchGain::Ratio(x, y) => y == hb && x < y,
            StretchGain::Unity => true,
        } by {
            if i >= a.len() {
                assert((a + b)[i] == b[i - a.len()]);
            } else {
                assert((a + b)[i] == a[i]);
            }
        }
    }
}

proof fn lemma_stretch_plan_fade(chunks: Seq<usize>, k: nat, reps: nat, hb: int)
    requires
        k < chunks.len(),
        0 <= hb <= usize::MAX,
    ensures
        fades_over(stretch_plan(chunks, k, reps, hb), hb),
    decreases k,
{
    if k > 0 {
        lemma_stretch_plan_fade(chunks, (k - 1) as nat, reps, hb);
        lemma_chunk_passes_fade(chunks[k - 1] as int, chunks[k as int] as int, k - 1, reps, hb);
        let a = stretch_plan(chunks, (k - 1) as nat, reps, hb);
        let b = chunk_passes(chunks[k - 1] as int, chunks[k as int] as int, k - 1, reps, hb);
        assert forall|i: int| 0 <= i < (a + b).len() implies match #[trigger] (a + b)[i].gain {
            StretchGain::Ratio(x, y) => y == hb && x < y,
            StretchGain::Unity => true,
        } by {
            if i >= a.len() {
                assert((a + b)[i] == b[i - a.len()]);
            } else {
                assert((a + b)[i] == a[i]);
            }
        }
    }
}

/// The samples of the granular time stretch: each chunk between two
/// consecutive boundaries played `stretch_factor` times, its edges faded
/// over half the blend (at most a grain), the very start left unfaded.
pub fn time_stretch_plan(chunks: &Vec<usize>, stretch_factor: usize, grain_samples: usize, blend_samples: usize) -> (r: Vec<StretchStep>)
    ensures
        r@ == stretch_plan(
            chunks@,
            (if chunks@.len() > 0 { chunks@.len() - 1 } else { 0 }) as nat,
            stretch_factor as nat,
            half_blend(grain_samples, blend_samples),
        ),
        forall|i: int| 0 <= i < r@.len() ==> match #[trigger] r@[i].gain {
            StretchGain::Ratio(a, b) => b == (if blend_samples < grain_samples { blend_samples } else { grain_samples }) / 2
                && a < b,
            StretchGain::Unity => true,
        },
{
    let blend = if blend_samples > grain_samples { grain_samples } else { blend_samples };
    let hb = blend / 2;
    let ghost h = half_blend(grain_samples, blend_samples);
    let mut out: Vec<StretchStep> = Vec::new();
    if chunks.len() == 0 {
        return out;
    }
    proof {
        lemma_stretch_plan_fade(chunks@, (chunks@.len() - 1) as nat, stretch_factor as nat, h);
    }
    let mut k: usize = 1;
    while k < chunks.len()
        invariant
            1 <= k <= chunks@.len(),
            hb == h,
            out@ == stretch_plan(chunks@, (k - 1) as nat, stretch_factor as nat, h),
        decreases chunks@.len() - k,
    {
        let start = chunks[k - 1];
        let end = chunks[k];
        let ghost done = out@;
        let mut s: usize = 0;
        while s < stretch_factor
            invariant
                1 <= k < chunks@.len(),
                start == chunks@[k - 1],
                end == chunks@[k as int],
                s <= stretch_factor,
                hb == h,
                done == stretch_plan(chunks@, (k - 1) as nat, stretch_factor as nat, h),
                out@ == done + chunk_passes(start as int, end as int, k - 1, s as nat, h),
            decreases stretch_factor - s,
        {
            let first = k == 1 && s == 0;
            let ghost pass = chunk_pass(start as int, end as int, first, h);
            let ghost before = out@;
            let mut j: usize = start;
            while j < end
                invariant
                    start <= j,
                    j <= end || start >= end,
                    start >= end ==> j == start,
                    hb == h,
                    pass == chunk_pass(start as int, end as int, first, h),
                    out@ == before + pass.subrange(0, j - start),
                decreases end - j,
            {
                let pos = j - start;
                let gain = if pos < hb {
                    if first { StretchGain::Unity } else { StretchGain::Ratio(pos, hb) }
                } else if end - j < hb {
                    StretchGain::Ratio(end - j, hb)
                } else {
                    StretchGain::Unity
                };
                let step = StretchStep { source: j, gain };
                let ghost prev = out@;
                out.push(step);
                assert(pass[j - start] == step);
                assert(pass.subrange(0, j + 1 - start) =~= pass.subrange(0, j - start).push(step));
                assert(out@ =~= prev.push(step));
                j = j + 1;
            }
            assert(pass.subrange(0, (if end > start { end - start } else { 0 }) as int) =~= pass);
            assert(out@ =~= before + pass) by {
                if start >= end {
                    assert(pass.len() == 0);
                    assert(out@ =~= before + pass.subrange(0, 0));
                }
            }
            assert(chunk_passes(start as int, end as int, k - 1, (s + 1) as nat, h)
                == chunk_passes(start as int, end as int, k - 1, s as nat, h) + pass);
            assert(out@ =~= done + chunk_passes(start as int, end as int, k - 1, (s + 1) as nat, h));
            s = s + 1;
        }
        assert(out@ =~= stretch_plan(chunks@, k as nat, stretch_factor as nat, h));
        k = k + 1;
    }
    out
}

proof fn lemma_chunk_passes_len(start: int, end: int, chunk: int, reps: nat, hb: int)
    requires
        start <= end,
    ensures
        chunk_passes(start, end, chunk, reps, hb).len() == reps * (end - start),
    decreases reps,
{
    if reps > 0 {
        lemma_chunk_passes_len(start, end, chunk, (reps - 1) as nat, hb);
        assert(reps * (end - start) == (reps - 1) * (end - start) + (end - start)) by (nonlinear_arith);
    } else {
        assert(reps * (end - start) == 0) by (nonlinear_arith) requires reps == 0;
    }
}

proof fn lemma_stretch_plan_len(chunks: Seq<usize>, k: nat, reps: nat, hb: int)
    requires
        k < chunks.len(),
        forall|a: int, b: int| 0 <= a < b < chunks.len() ==> chunks[a] <= chunks[b],
    ensures
        stretch_plan(chunks, k, reps, hb).len() == reps * (chunks[k as int] - chunks[0]),
    decreases k,
{
    if k > 0 {
        lemma_stretch_plan_len(chunks, (k - 1) as nat, reps, hb);
        let a = chunks[k - 1] as int;
        let b = chunks[k as int] as int;
        let c = chunks[0] as int;
        lemma_chunk_passes_len(a, b, k - 1, reps, hb);
        assert(reps * (a - c) + reps * (b - a) == reps * (b - c)) by (nonlinear_arith);
    } else {
        let d = chunks[0] - chunks[0];
        assert(reps * d == 0) by (nonlinear_arith) requires d == 0;
    }
}

/// The granular time stretch makes the audio `stretch_factor` times as
/// long: every sample but the last is played that many times.
pub proof fn lemma_time_stretch_length(
    signs: Seq<i8>,
    sample_length: usize,
    channels: usize,
    grain_samples: usize,
    stretch_factor: usize,
    blend_samples: usize,
)
    requires
        channels > 0,
        sample_length >= 1,
    ensures
        ({
            let chunks = stretch_chunks(signs, sample_length as int, channels as int, grain_samples as int);
            stretch_plan(chunks, (chunks.len() - 1) as nat, stretch_factor as nat, half_blend(grain_samples, blend_samples)).len()
                == stretch_factor * (sample_length - 1)
        }),
{
    let chunks = stretch_chunks(signs, sample_length as int, channels as int, grain_samples as int);
    lemma_stretch_chunks_sorted(signs, sample_length as int, channels as int, grain_samples as int);
    let all = chunk_starts_from(signs, sample_length as int, channels as int, grain_samples as int, channels as int, 0);
    assert(chunks =~= seq![0usize] + all + seq![(sample_length - 1) as usize]);
    assert(chunks[0] == 0);
    assert(chunks[chunks.len() - 1] == sample_length - 1);
    lemma_stretch_plan_len(chunks, (chunks.len() - 1) as nat, stretch_factor as nat, half_blend(grain_samples, blend_samples));
}

} // verus!
