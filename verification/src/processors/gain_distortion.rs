//! Splitting interleaved samples into channels and back, and the range
//! that trimming keeps.
use vstd::prelude::*;

verus! {

/// The distortion curves a processor can apply.
#[derive(Debug, Clone, Copy, PartialEq, Eq, Structural)]
pub enum DistortionAlgorithm {
    Power,
    Tanh,
    Atan,
    Cubic,
    Saturate,
}

proof fn lemma_step(c: int, ch: int, i: int)
    ensures
        c + (i + 1) * ch == c + i * ch + ch,
{
    assert((i + 1) * ch == i * ch + ch) by (nonlinear_arith);
}

/// Sample `i` of channel `c` is `x`: the sample at `c + i * channels`.
pub open spec fn channel_sample<T>(samples: Seq<T>, channels: int, c: int, i: int, x: T) -> bool {
    c + i * channels < samples.len() && x == samples[c + i * channels]
}

/// Channel `c` of interleaved samples: every `channels`-th sample from
/// position `c` on.
pub open spec fn channel_of<T>(samples: Seq<T>, channels: int, c: int, r: Seq<T>) -> bool {
    &&& forall|i: int| 0 <= i < r.len() ==> channel_sample(samples, channels, c, i, #[trigger] r[i])
    &&& c + r.len() * channels >= samples.len()
}

/// The samples of channel `c`.
fn one_channel<T: Copy>(samples: &Vec<T>, channels: usize, c: usize) -> (r: Vec<T>)
    requires
        channels > 0,
        c < channels,
    ensures
        channel_of(samples@, channels as int, c as int, r@),
{
    let mut r: Vec<T> = Vec::new();
    let mut idx = c;
    assert(0 * channels == 0) by (nonlinear_arith);
    while idx < samples.len()
        invariant
            channels > 0,
            c < channels,
            idx == c + r@.len() * channels,
            forall|i: int| 0 <= i < r@.len() ==> channel_sample(samples@, channels as int, c as int, i, #[trigger] r@[i]),
        decreases samples@.len() + channels - idx,
    {
        let ghost k = r@.len() as int;
        assert(idx + channels == c + (k + 1) * channels) by (nonlinear_arith)
            requires idx == c + k * channels;
        let ghost before = r@;
        assert(c + k * channels < samples@.len());
        r.push(samples[idx]);
        assert(r@.len() == k + 1);
        assert forall|i: int| 0 <= i < r@.len() implies channel_sample(samples@, channels as int, c as int, i, #[trigger] r@[i]) by {
            if i < k {
                assert(r@[i] == before[i]);
            } else {
                assert(i == k);
            }
        }
        if idx > usize::MAX - channels {
            return r;
        }
        idx = idx + channels;
    }
    r
}

/// Interleaved samples split into `channels` channels.
pub fn split_channels<T: Copy>(samples: Vec<T>, channels: usize) -> (r: Vec<Vec<T>>)
    ensures
        r@.len() == channels,
        forall|c: int| 0 <= c < channels ==> channel_of(samples@, channels as int, c, #[trigger] r@[c]@),
{
    let mut by_channels: Vec<Vec<T>> = Vec::new();
    let mut c: usize = 0;
    while c < channels
        invariant
            c <= channels,
            by_channels@.len() == c,
            forall|k: int| 0 <= k < c ==> channel_of(samples@, channels as int, k, #[trigger] by_channels@[k]@),
        decreases channels - c,
    {
        by_channels.push(one_channel(&samples, channels, c));
        c = c + 1;
    }
    by_channels
}

/// `out` holds the channels `v` interleaved, `fill` where a channel is
/// shorter than the first.
pub open spec fn interleaved<T>(v: Seq<Vec<T>>, fill: T, out: Seq<T>) -> bool {
    &&& out.len() == v[0]@.len() * v.len()
    &&& forall|i: int, c: int| 0 <= c < v.len() && 0 <= i < v[0]@.len() ==>
        #[trigger] out[i * v.len() + c] == if i < v[c]@.len() { v[c]@[i] } else { fill }
}

/// Channels interleaved into one buffer of (length of the first channel)
/// times (number of channels) samples; a position that no channel fills
/// (a channel shorter than the first) holds `fill`. The first channel
/// must be the longest, and the buffer must fit in memory.
pub fn interleave_channels<T: Copy, E>(by_channels: Result<Vec<Vec<T>>, E>, fill: T) -> (r: Result<Vec<T>, E>)
    requires
        by_channels matches Ok(v) ==> {
            &&& v@.len() > 0
            &&& forall|c: int| 0 <= c < v@.len() ==> (#[trigger] v@[c])@.len() <= v@[0]@.len()
            &&& v@[0]@.len() * v@.len() <= usize::MAX
        },
    ensures
        by_channels is Err ==> r is Err && r->Err_0 == by_channels->Err_0,
        by_channels is Ok ==> r is Ok && interleaved(by_channels->Ok_0@, fill, r->Ok_0@),
{
    let v = match by_channels {
        Err(e) => return Err(e),
        Ok(v) => v,
    };
    let by_channels = v;
    let channel_length = by_channels[0].len();
    let channels = by_channels.len();
    let total = channel_length * channels;
    let mut samples: Vec<T> = Vec::new();
    let mut i: usize = 0;
    let mut c: usize = 0;
    let mut n: usize = 0;
    while n < total
        invariant
            channels == by_channels@.len(),
            channels > 0,
            channel_length == by_channels@[0]@.len(),
            total == channel_length * channels,
            samples@.len() == n,
            n <= total,
            n == i * channels + c,
            c < channels,
            n < total ==> i < channel_length,
            forall|c2: int| 0 <= c2 < by_channels@.len() ==> (#[trigger] by_channels@[c2])@.len() <= channel_length,
            forall|i2: int, c2: int| 0 <= c2 < channels && 0 <= i2 && i2 * channels + c2 < n ==>
                #[trigger] samples@[i2 * channels + c2] == if i2 < by_channels@[c2]@.len() { by_channels@[c2]@[i2] } else { fill },
        decreases total - n,
    {
        let x = if i < by_channels[c].len() { by_channels[c][i] } else { fill };
        samples.push(x);
        proof {
            assert forall|i2: int, c2: int| 0 <= c2 < channels && 0 <= i2 && i2 * channels + c2 < n + 1 implies
                #[trigger] samples@[i2 * channels + c2] == if i2 < by_channels@[c2]@.len() { by_channels@[c2]@[i2] } else { fill } by {
                if i2 * channels + c2 == n {
                    lemma_same_slot(i2, c2, i as int, c as int, channels as int);
                }
            }
        }
        n = n + 1;
        if c + 1 == channels {
            c = 0;
            i = i + 1;
            proof { lemma_step(0, channels as int, i - 1); }
            proof {
                if n < total {
                    lemma_row_bound(i as int, channel_length as int, channels as int);
                }
            }
        } else {
            c = c + 1;
        }
    }
    proof {
        let vv = by_channels@;
        assert forall|i2: int, c2: int| 0 <= c2 < vv.len() && 0 <= i2 < vv[0]@.len() implies
            #[trigger] samples@[i2 * vv.len() + c2] == if i2 < vv[c2]@.len() { vv[c2]@[i2] } else { fill } by {
            lemma_row_bound_lt(i2, channel_length as int, channels as int, c2);
        }
    }
    Ok(samples)
}

proof fn lemma_same_slot(i2: int, c2: int, i: int, c: int, ch: int)
    requires
        0 <= c2 < ch,
        0 <= c < ch,
        0 <= i2,
        0 <= i,
        i2 * ch + c2 == i * ch + c,
    ensures
        i2 == i,
        c2 == c,
{
    if i2 < i {
        assert(i2 * ch + ch <= i * ch) by (nonlinear_arith)
            requires i2 < i, ch > 0;
    } else if i2 > i {
        assert(i * ch + ch <= i2 * ch) by (nonlinear_arith)
            requires i < i2, ch > 0;
    }
}

proof fn lemma_row_bound(i: int, len: int, ch: int)
    requires
        ch > 0,
        0 <= i,
        i * ch < len * ch,
    ensures
        i < len,
{
    if i >= len {
        assert(i * ch >= len * ch) by (nonlinear_arith)
            requires i >= len, ch > 0;
    }
}

proof fn lemma_row_bound_lt(i: int, len: int, ch: int, c: int)
    requires
        ch > 0,
        0 <= i < len,
        0 <= c < ch,
    ensures
        i * ch + c < len * ch,
{
    assert(i * ch + ch <= len * ch) by (nonlinear_arith)
        requires i < len, ch > 0;
}

proof fn lemma_channel_length<T>(s: Seq<T>, ch: int, c: int, r: Seq<T>, m: int)
    requires
        ch > 0,
        0 <= c < ch,
        m >= 0,
        s.len() == m * ch,
        channel_of(s, ch, c, r),
    ensures
        r.len() == m,
{
    if r.len() > m {
        assert(channel_sample(s, ch, c, m, r[m]));
        assert(c + m * ch >= m * ch);
    } else if r.len() < m {
        let k = r.len() as int;
        assert(c + k * ch < m * ch) by (nonlinear_arith)
            requires k < m, c < ch, ch > 0, k >= 0;
    }
}

/// Splitting samples into channels and interleaving the channels again
/// gives back the samples, when their number is a multiple of the number
/// of channels; the channels then all have the same length, so the
/// interleaving can be asked for.
pub proof fn lemma_interleave_split<T>(s: Seq<T>, ch: int, v: Seq<Vec<T>>, fill: T, out: Seq<T>)
    requires
        ch > 0,
        (s.len() as int) % ch == 0,
        v.len() == ch,
        forall|c: int| 0 <= c < ch ==> channel_of(s, ch, c, #[trigger] v[c]@),
    ensures
        forall|c: int| 0 <= c < ch ==> (#[trigger] v[c]@).len() == v[0]@.len(),
        v[0]@.len() * v.len() == s.len(),
        interleaved(v, fill, out) ==> out == s,
{
    let n = s.len() as int;
    let m = n / ch;
    assert(n == m * ch) by (nonlinear_arith)
        requires n % ch == 0, ch > 0, m == n / ch;
    assert(m >= 0) by (nonlinear_arith)
        requires m == n / ch, ch > 0, n >= 0;
    assert forall|c: int| 0 <= c < ch implies (#[trigger] v[c]@).len() == m by {
        lemma_channel_length(s, ch, c, v[c]@, m);
    }
    assert(v[0]@.len() == m);
    if interleaved(v, fill, out) {
        assert forall|j: int| 0 <= j < s.len() implies out[j] == s[j] by {
            let i = j / ch;
            let c = j % ch;
            assert(j == i * ch + c && 0 <= c < ch && 0 <= i < m) by (nonlinear_arith)
                requires i == j / ch, c == j % ch, ch > 0, 0 <= j, j < m * ch;
            assert(out[i * v.len() + c] == v[c]@[i]);
            assert(channel_sample(s, ch, c, i, v[c]@[i]));
        }
        assert(out =~= s);
    }
}

/// The first position from `i` below `n` where `s` holds, or -1.
pub open spec fn first_true_from(s: Seq<bool>, n: int, i: int) -> int
    decreases n - i,
{
    if i < 0 || i >= n {
        -1
    } else if s[i] {
        i
    } else {
        first_true_from(s, n, i + 1)
    }
}

/// The last position in `lo..hi` where `s` holds, or -1.
pub open spec fn last_true_in(s: Seq<bool>, lo: int, hi: int) -> int
    decreases hi - lo,
{
    if hi <= lo {
        -1
    } else if s[hi - 1] {
        hi - 1
    } else {
        last_true_in(s, lo, hi - 1)
    }
}

/// Where trimming starts: the frame of the first loud sample, or 0.
pub open spec fn trim_start(loud: Seq<bool>, n: int, channels: int) -> int {
    let f = first_true_from(loud, n, 0);
    if f < 0 { 0 } else { f - f % channels }
}

/// Where trimming ends: the frame of the last loud sample at or after the
/// start, or the whole length when there is none.
pub open spec fn trim_end(loud: Seq<bool>, n: int, channels: int) -> int {
    let l = last_true_in(loud, trim_start(loud, n, channels), n);
    if l < 0 { n } else { l - l % channels }
}

proof fn lemma_first_true_from(s: Seq<bool>, n: int, i: int)
    requires
        0 <= i,
        n <= s.len(),
    ensures
        first_true_from(s, n, i) == -1 || (i <= first_true_from(s, n, i) < n && s[first_true_from(s, n, i)]),
        first_true_from(s, n, i) == -1 ==> forall|j: int| i <= j < n ==> !s[j],
    decreases n - i,
{
    if i < n && !s[i] {
        lemma_first_true_from(s, n, i + 1);
    }
}

proof fn lemma_last_true_in(s: Seq<bool>, lo: int, hi: int)
    requires
        0 <= lo,
        hi <= s.len(),
    ensures
        last_true_in(s, lo, hi) == -1 || (lo <= last_true_in(s, lo, hi) < hi && s[last_true_in(s, lo, hi)]),
        last_true_in(s, lo, hi) == -1 ==> forall|j: int| lo <= j < hi ==> !s[j],
        forall|j: int| last_true_in(s, lo, hi) < j < hi && lo <= j ==> !s[j],
    decreases hi - lo,
{
    if hi > lo && !s[hi - 1] {
        lemma_last_true_in(s, lo, hi - 1);
    }
}

fn first_loud(loud: &Vec<bool>, n: usize) -> (r: Option<usize>)
    requires
        n <= loud@.len(),
    ensures
        match r {
            Some(i) => i as int == first_true_from(loud@, n as int, 0) && i < n && loud@[i as int],
            None => first_true_from(loud@, n as int, 0) == -1,
        },
{
    let mut i: usize = 0;
    while i < n
        invariant
            i <= n <= loud@.len(),
            first_true_from(loud@, n as int, 0) == first_true_from(loud@, n as int, i as int),
        decreases n - i,
    {
        if loud[i] {
            return Some(i);
        }
        i = i + 1;
    }
    None
}

fn last_loud_in(loud: &Vec<bool>, lo: usize, hi: usize) -> (r: Option<usize>)
    requires
        lo <= hi <= loud@.len(),
    ensures
        match r {
            Some(i) => i as int == last_true_in(loud@, lo as int, hi as int) && lo <= i < hi && loud@[i as int],
            None => last_true_in(loud@, lo as int, hi as int) == -1,
        },
{
    let mut j: usize = hi;
    while j > lo
        invariant
            lo <= j <= hi <= loud@.len(),
            last_true_in(loud@, lo as int, hi as int) == last_true_in(loud@, lo as int, j as int),
        decreases j - lo,
    {
        if loud[j - 1] {
            return Some(j - 1);
        }
        j = j - 1;
    }
    None
}

/// The range of samples that trimming keeps, from the frame of the first
/// loud sample to the frame of the last one; `loud[i]` tells whether
/// sample `i` is above the threshold.
pub fn trim_range(loud: &Vec<bool>, sample_length: usize, channels: usize) -> (r: (usize, usize))
    requires
        sample_length <= loud@.len(),
        channels > 0 || forall|i: int| 0 <= i < sample_length ==> !loud@[i],
    ensures
        r.0 as int == trim_start(loud@, sample_length as int, channels as int),
        r.1 as int == trim_end(loud@, sample_length as int, channels as int),
        r.0 <= r.1 <= sample_length,
{
    let start: usize = match first_loud(loud, sample_length) {
        Some(i) => {
            assert(i % channels <= i) by (nonlinear_arith) requires channels > 0;
            i - (i % channels)
        },
        None => 0,
    };
    let end: usize = match last_loud_in(loud, start, sample_length) {
        Some(j) => {
            assert(j % channels <= j) by (nonlinear_arith) requires channels > 0;
            j - (j % channels)
        },
        None => sample_length,
    };
    proof {
        lemma_first_true_from(loud@, sample_length as int, 0);
        lemma_last_true_in(loud@, start as int, sample_length as int);
        let f = first_true_from(loud@, sample_length as int, 0);
        let l = last_true_in(loud@, start as int, sample_length as int);
        if f >= 0 {
            assert(start <= f);
            assert(l >= f) by {
                if l < f {
                    assert(loud@[f]);
                }
            }
            assert(l - l % (channels as int) >= f - f % (channels as int)) by (nonlinear_arith)
                requires l >= f, f >= 0, channels > 0;
        } else {
            assert(start == 0);
        }
    }
    (start, end)
}

} // verus!
