//! Early sample helpers: a reversal that keeps the first sample, and a
//! repeating delay line on integer samples.
use vstd::prelude::*;

verus! {

/// The samples in reverse order from position 1 on; position 0 keeps
/// its sample.
pub fn rev<T: Copy>(samples: &Vec<T>) -> (r: Vec<T>)
    ensures
        r@.len() == samples@.len(),
        samples@.len() > 0 ==> r@[0] == samples@[0],
        forall|i: int| 1 <= i < samples@.len() ==> #[trigger] r@[i] == samples@[samples@.len() - 1 - i],
{
    let length = samples.len();
    let mut new_rev: Vec<T> = Vec::new();
    if length == 0 {
        return new_rev;
    }
    new_rev.push(samples[0]);
    let mut i: usize = 1;
    while i < length
        invariant
            1 <= i <= length,
            length == samples@.len(),
            new_rev@.len() == i,
            new_rev@[0] == samples@[0],
            forall|k: int| 1 <= k < i ==> #[trigger] new_rev@[k] == samples@[length - 1 - k],
        decreases length - i,
    {
        new_rev.push(samples[length - 1 - i]);
        i = i + 1;
    }
    new_rev
}

/// One pass of the delay line: from position 1 on, each sample at or
/// after `delay` gets the sample `delay` positions earlier added.
pub open spec fn delay_once(s: Seq<int>, delay: int) -> Seq<int> {
    Seq::new(s.len(), |i: int| if i >= 1 && i >= delay { s[i] + s[i - delay] } else { s[i] })
}

/// `repeats + 1` passes of the delay line.
pub open spec fn delay_repeated(s: Seq<int>, delay: int, repeats: nat) -> Seq<int>
    decreases repeats,
{
    if repeats == 0 {
        delay_once(s, delay)
    } else {
        delay_repeated(delay_once(s, delay), delay, (repeats - 1) as nat)
    }
}

/// Whether every value fits in an `i64`.
pub open spec fn fits_i64(s: Seq<int>) -> bool {
    forall|i: int| 0 <= i < s.len() ==> i64::MIN <= #[trigger] s[i] <= i64::MAX
}

/// Whether every pass of the delay line stays within `i64`.
pub open spec fn delay_fits(s: Seq<int>, delay: int, repeats: nat) -> bool
    decreases repeats,
{
    fits_i64(delay_once(s, delay)) && (repeats > 0 ==> delay_fits(delay_once(s, delay), delay, (repeats - 1) as nat))
}

/// The samples as integers.
pub open spec fn ints(s: Seq<i64>) -> Seq<int> {
    s.map_values(|x: i64| x as int)
}

fn delay_pass(rev: &Vec<i64>, delay_length: usize) -> (r: Vec<i64>)
    requires
        fits_i64(delay_once(ints(rev@), delay_length as int)),
    ensures
        ints(r@) == delay_once(ints(rev@), delay_length as int),
{
    let length = rev.len();
    let ghost target = delay_once(ints(rev@), delay_length as int);
    let mut new_rev: Vec<i64> = Vec::new();
    let mut i: usize = 0;
    while i < length
        invariant
            i <= length,
            length == rev@.len(),
            target == delay_once(ints(rev@), delay_length as int),
            fits_i64(target),
            new_rev@.len() == i,
            forall|k: int| 0 <= k < i ==> #[trigger] new_rev@[k] as int == target[k],
        decreases length - i,
    {
        assert(i64::MIN <= target[i as int] <= i64::MAX);
        if i >= 1 && i >= delay_length {
            new_rev.push(rev[i] + rev[i - delay_length]);
        } else {
            new_rev.push(rev[i]);
        }
        i = i + 1;
    }
    assert(ints(new_rev@) =~= target);
    new_rev
}

/// The delay line run `repeats + 1` times: each pass adds to every sample
/// from position 1 on, at or after `delay_length`, the sample
/// `delay_length` positions earlier. Every pass must stay within `i64`.
pub fn delay_line(rev: &Vec<i64>, delay_length: usize, repeats: u32) -> (r: Vec<i64>)
    requires
        delay_fits(ints(rev@), delay_length as int, repeats as nat),
    ensures
        ints(r@) == delay_repeated(ints(rev@), delay_length as int, repeats as nat),
    decreases repeats,
{
    let new_rev = delay_pass(rev, delay_length);
    if repeats > 0 {
        delay_line(&new_rev, delay_length, repeats - 1)
    } else {
        new_rev
    }
}

} // verus!
