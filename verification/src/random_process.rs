//! Random processor chains: which processors a permutation runs, and which
//! plan generator each processor name selects.
use vstd::prelude::*;
use crate::process::PermuteNodeName;
use crate::rng::{gen_range_usize, thread_rng};

verus! {

/// What a processor chain is generated from.
pub struct GetProcessorNodeParams {
    pub normalise_at_end: bool,
    pub trim_at_end: bool,
    pub high_sample_rate: bool,
    pub depth: usize,
    pub processor_pool: Vec<PermuteNodeName>,
    pub processor_count: Option<i32>,
    pub constrain_length: bool,
    pub rng: rand::rngs::ThreadRng,
    pub original_depth: usize,
}

/// A whole chain built around the drawn processors `drawn`: framed by the
/// raise to the high sample rate and the return to the original rate when
/// running at a high sample rate (so every drawn effect runs at the high
/// rate), then Normalise and Trim when asked for.
pub open spec fn chain_end(
    high_sample_rate: bool,
    normalise_at_end: bool,
    trim_at_end: bool,
    drawn: Seq<PermuteNodeName>,
) -> Seq<PermuteNodeName> {
    let framed = if high_sample_rate {
        seq![PermuteNodeName::SampleRateConversionHigh] + drawn + seq![PermuteNodeName::SampleRateConversionOriginal]
    } else {
        drawn
    };
    let normalised = if normalise_at_end { framed.push(PermuteNodeName::Normalise) } else { framed };
    if trim_at_end { normalised.push(PermuteNodeName::Trim) } else { normalised }
}

/// The number of processors drawn per level: the given count (none when
/// it is negative), or a random count from 2 to 4.
pub open spec fn count_allowed(processor_count: Option<i32>, count: int) -> bool {
    match processor_count {
        Some(k) => count == if k < 0 { 0 } else { k as int },
        None => 2 <= count <= 4,
    }
}

/// The number of processors drawn for a chain: `count` at each of the
/// `depth` levels, and one more when the chain was asked for at depth zero.
pub open spec fn drawn_len(depth: nat, original_depth: nat, count: int) -> int {
    depth * count + if original_depth == 0 { 1int } else { 0int }
}

/// The shape of a chain: the processors drawn from `pool` (`count` at each
/// of `depth` levels, plus one when asked for at depth zero), all inside
/// the chain's frame and followed by its end.
pub open spec fn chain_shape(
    high_sample_rate: bool,
    normalise_at_end: bool,
    trim_at_end: bool,
    depth: nat,
    original_depth: nat,
    pool: Seq<PermuteNodeName>,
    count: int,
    r: Seq<PermuteNodeName>,
) -> bool {
    &&& 0 <= count
    &&& exists|drawn: Seq<PermuteNodeName>| {
        &&& #[trigger] chain_end(high_sample_rate, normalise_at_end, trim_at_end, drawn) == r
        &&& drawn.len() == drawn_len(depth, original_depth, count)
        &&& forall|i: int| 0 <= i < drawn.len() ==> pool.contains(#[trigger] drawn[i])
    }
}

/// The pool must not be empty whenever a processor is drawn from it.
pub open spec fn pool_suffices(
    pool_len: nat,
    depth: nat,
    original_depth: nat,
    processor_count: Option<i32>,
) -> bool {
    pool_len > 0 || (original_depth != 0 && (depth == 0 || (processor_count matches Some(k) && k <= 0)))
}

/// A random processor from the pool.
pub fn select_random_processor(processor_pool: &[PermuteNodeName]) -> (r: PermuteNodeName)
    requires
        processor_pool@.len() > 0,
    ensures
        processor_pool@.contains(r),
{
    let mut rng = thread_rng();
    let i = gen_range_usize(&mut rng, 0, processor_pool.len());
    let r = processor_pool[i];
    assert(processor_pool@[i as int] == r);
    r
}

proof fn lemma_level_step(level: nat, count: int)
    requires
        count >= 0,
    ensures
        (level + 1) * count == level * count + count,
        level * count >= 0,
{
    assert((level + 1) * count == level * count + count) by (nonlinear_arith);
    assert(level * count >= 0) by (nonlinear_arith)
        requires count >= 0;
}

/// The processors the indices `draws` pick from `pool`, in order.
pub open spec fn picked(pool: Seq<PermuteNodeName>, draws: Seq<usize>) -> Seq<PermuteNodeName> {
    Seq::new(draws.len(), |k: int| pool[draws[k] as int])
}

/// The chain for the drawn indices `draws` into `pool`: position `k` of
/// the drawn part is `pool[draws[k]]`, framed by the sample rate
/// conversions when running at a high sample rate, then Normalise and
/// Trim when asked for.
pub fn chain_from_draws(
    pool: &Vec<PermuteNodeName>,
    draws: &Vec<usize>,
    high_sample_rate: bool,
    normalise_at_end: bool,
    trim_at_end: bool,
) -> (r: Vec<PermuteNodeName>)
    requires
        forall|k: int| 0 <= k < draws@.len() ==> #[trigger] draws@[k] < pool@.len(),
    ensures
        r@ == chain_end(high_sample_rate, normalise_at_end, trim_at_end, picked(pool@, draws@)),
        r@.len() == draws@.len() + (if high_sample_rate { 2int } else { 0int })
            + (if normalise_at_end { 1int } else { 0int }) + (if trim_at_end { 1int } else { 0int }),
        high_sample_rate ==> forall|k: int| 0 <= k < draws@.len() ==> r@[k + 1] == pool@[#[trigger] draws@[k] as int],
        !high_sample_rate ==> forall|k: int| 0 <= k < draws@.len() ==> r@[k] == pool@[#[trigger] draws@[k] as int],
{
    let mut r: Vec<PermuteNodeName> = Vec::new();
    if high_sample_rate {
        r.push(PermuteNodeName::SampleRateConversionHigh);
    }
    let ghost off: int = if high_sample_rate { 1int } else { 0int };
    let ghost front = r@;
    let mut k: usize = 0;
    while k < draws.len()
        invariant
            k <= draws@.len(),
            forall|m: int| 0 <= m < draws@.len() ==> #[trigger] draws@[m] < pool@.len(),
            front.len() == off,
            r@ == front + picked(pool@, draws@).subrange(0, k as int),
        decreases draws@.len() - k,
    {
        let p = pool[draws[k]];
        let ghost before = r@;
        r.push(p);
        assert(picked(pool@, draws@).subrange(0, k + 1) =~= picked(pool@, draws@).subrange(0, k as int).push(p));
        assert(r@ =~= front + picked(pool@, draws@).subrange(0, k + 1));
        k = k + 1;
    }
    assert(picked(pool@, draws@).subrange(0, draws@.len() as int) =~= picked(pool@, draws@));
    let ghost body = r@;
    if high_sample_rate {
        r.push(PermuteNodeName::SampleRateConversionOriginal);
    }
    if normalise_at_end {
        r.push(PermuteNodeName::Normalise);
    }
    if trim_at_end {
        r.push(PermuteNodeName::Trim);
    }
    proof {
        let d = picked(pool@, draws@);
        if high_sample_rate {
            assert(front =~= seq![PermuteNodeName::SampleRateConversionHigh]);
        } else {
            assert(front =~= Seq::<PermuteNodeName>::empty());
        }
        assert(r@ =~= chain_end(high_sample_rate, normalise_at_end, trim_at_end, d));
        assert forall|m: int| 0 <= m < draws@.len() implies
            r@[m + off] == pool@[#[trigger] draws@[m] as int] by {
            assert(r@[m + off] == body[m + off]);
            assert(body[m + off] == d[m]);
        }
    }
    r
}

/// A random chain of processors: `depth` levels of processors drawn from
/// the pool, the same number at each level (one processor when asked for
/// at depth zero), all run inside the chain's frame and followed by its end.
/// Each drawn processor is the pool's processor at an index drawn from the
/// random generator; the chain is `chain_from_draws` of those indices.
pub fn generate_processor_sequence(params: GetProcessorNodeParams) -> (r: Vec<PermuteNodeName>)
    requires
        pool_suffices(params.processor_pool@.len(), params.depth as nat, params.original_depth as nat, params.processor_count),
    ensures
        exists|count: int|
            #[trigger] count_allowed(params.processor_count, count)
            && chain_shape(
                params.high_sample_rate,
                params.normalise_at_end,
                params.trim_at_end,
                params.depth as nat,
                params.original_depth as nat,
                params.processor_pool@,
                count,
                r@,
            ),
        exists|draws: Seq<usize>| {
            &&& forall|k: int| 0 <= k < draws.len() ==> #[trigger] draws[k] < params.processor_pool@.len()
            &&& r@ == chain_end(params.high_sample_rate, params.normalise_at_end, params.trim_at_end,
                #[trigger] picked(params.processor_pool@, draws))
        },
{
    let GetProcessorNodeParams {
        normalise_at_end,
        trim_at_end,
        high_sample_rate,
        depth,
        processor_pool,
        processor_count,
        constrain_length: _,
        mut rng,
        original_depth,
    } = params;
    let ghost pool = processor_pool@;
    let ghost requested = processor_count;
    let mut draws: Vec<usize> = Vec::new();
    let mut per_level: i32 = 0;
    if depth > 0 {
        let random_count = gen_range_usize(&mut rng, 2, 5);
        per_level = match processor_count {
            Some(k) => k,
            None => random_count as i32,
        };
    }
    let ghost count: int = if depth == 0 {
        match processor_count {
            Some(k) => if k < 0 { 0 } else { k as int },
            None => 2,
        }
    } else if per_level < 0 { 0 } else { per_level as int };
    let ghost level_count: int = if per_level < 0 { 0 } else { per_level as int };
    proof {
        assert(count_allowed(requested, count));
    }
    let mut level: usize = 0;
    while level < depth
        invariant
            level <= depth,
            depth > 0 ==> level_count == count,
            level_count == if per_level < 0 { 0 } else { per_level as int },
            per_level > 0 ==> pool.len() > 0,
            processor_pool@ == pool,
            draws@.len() == level * level_count,
            forall|i: int| 0 <= i < draws@.len() ==> #[trigger] draws@[i] < pool.len(),
        decreases depth - level,
    {
        proof {
            lemma_level_step(level as nat, level_count);
        }
        let mut j: i32 = 0;
        while j < per_level
            invariant
                0 <= j,
                per_level > 0 ==> j <= per_level,
                per_level <= 0 ==> j == 0,
                per_level > 0 ==> pool.len() > 0,
                processor_pool@ == pool,
                draws@.len() == level * level_count + j,
                forall|i: int| 0 <= i < draws@.len() ==> #[trigger] draws@[i] < pool.len(),
            decreases per_level - j,
        {
            let i = gen_range_usize(&mut rng, 0, processor_pool.len());
            draws.push(i);
            j = j + 1;
        }
        level = level + 1;
    }
    proof {
        if depth == 0 {
            assert(draws@.len() == 0);
        }
        assert(draws@.len() == depth * count) by (nonlinear_arith)
            requires
                draws@.len() == depth * level_count,
                depth > 0 ==> level_count == count,
                depth == 0 ==> draws@.len() == 0;
    }
    if original_depth == 0 {
        let i = gen_range_usize(&mut rng, 0, processor_pool.len());
        draws.push(i);
    }
    let processors = chain_from_draws(&processor_pool, &draws, high_sample_rate, normalise_at_end, trim_at_end);
    proof {
        lemma_level_step(0, count);
        let d = picked(pool, draws@);
        assert(d.len() == drawn_len(depth as nat, original_depth as nat, count));
        assert forall|i: int| 0 <= i < d.len() implies pool.contains(#[trigger] d[i]) by {
            assert(draws@[i] < pool.len());
            assert(pool[draws@[i] as int] == d[i]);
        }
        assert(chain_end(high_sample_rate, normalise_at_end, trim_at_end, d) == processors@);
        assert(chain_shape(high_sample_rate, normalise_at_end, trim_at_end, depth as nat, original_depth as nat, pool, count, processors@));
    }
    processors
}

/// What a chain framed for the high sample rate holds, position by
/// position, for the drawn processors `drawn`.
proof fn lemma_framed_positions(
    normalise_at_end: bool,
    trim_at_end: bool,
    drawn: Seq<PermuteNodeName>,
    r: Seq<PermuteNodeName>,
)
    requires
        r == chain_end(true, normalise_at_end, trim_at_end, drawn),
    ensures
        r.len() == drawn.len() + 2 + (if normalise_at_end { 1int } else { 0int }) + (if trim_at_end { 1int } else { 0int }),
        r[0] == PermuteNodeName::SampleRateConversionHigh,
        r[drawn.len() as int + 1] == PermuteNodeName::SampleRateConversionOriginal,
        forall|i: int| 0 <= i < drawn.len() ==> r[i + 1] == drawn[i],
        forall|i: int| drawn.len() + 1 < i < r.len() ==>
            (r[i] == PermuteNodeName::Normalise || r[i] == PermuteNodeName::Trim),
        normalise_at_end ==> r[drawn.len() as int + 2] == PermuteNodeName::Normalise,
        trim_at_end ==> r[r.len() - 1] == PermuteNodeName::Trim,
{
    let framed = seq![PermuteNodeName::SampleRateConversionHigh] + drawn + seq![PermuteNodeName::SampleRateConversionOriginal];
    let normalised = if normalise_at_end { framed.push(PermuteNodeName::Normalise) } else { framed };
    assert forall|i: int| 0 <= i < framed.len() implies r[i] == framed[i] by {
        assert(normalised[i] == framed[i]);
    }
    assert forall|i: int| 0 <= i < drawn.len() implies r[i + 1] == drawn[i] by {
        assert(r[i + 1] == framed[i + 1]);
    }
    assert(r[0] == framed[0]);
    assert(r[drawn.len() as int + 1] == framed[drawn.len() as int + 1]);
    assert forall|i: int| drawn.len() + 1 < i < r.len() implies
        (r[i] == PermuteNodeName::Normalise || r[i] == PermuteNodeName::Trim) by {
        if i < normalised.len() {
            assert(r[i] == normalised[i]);
        }
    }
    if normalise_at_end {
        assert(r[drawn.len() as int + 2] == normalised[drawn.len() as int + 2]);
    }
}

/// A chain in which every processor from `pool` runs at the high sample
/// rate: it opens with the raise to the high rate, positions `1..e` hold
/// processors from the pool, position `e` holds the one return to the
/// original rate, and after it come only Normalise and Trim when asked for.
pub open spec fn high_rate_framing(
    normalise_at_end: bool,
    trim_at_end: bool,
    pool: Seq<PermuteNodeName>,
    e: int,
    r: Seq<PermuteNodeName>,
) -> bool {
    &&& r.len() == e + 1 + (if normalise_at_end { 1int } else { 0int }) + (if trim_at_end { 1int } else { 0int })
    &&& r[0] == PermuteNodeName::SampleRateConversionHigh
    &&& r[e] == PermuteNodeName::SampleRateConversionOriginal
    &&& forall|i: int| 0 < i < e ==> pool.contains(#[trigger] r[i])
    &&& forall|i: int| 0 <= i < r.len() && #[trigger] r[i] == PermuteNodeName::SampleRateConversionHigh ==> i == 0
    &&& forall|i: int| 0 <= i < r.len() && #[trigger] r[i] == PermuteNodeName::SampleRateConversionOriginal ==> i == e
    &&& normalise_at_end ==> r[e + 1] == PermuteNodeName::Normalise
    &&& trim_at_end ==> r[r.len() - 1] == PermuteNodeName::Trim
}

/// Running at a high sample rate puts every drawn effect at the high rate:
/// the chain opens with the raise to the high rate, the drawn processors
/// (all of them, from the pool) come next, then the one return to the
/// original rate, and after it only Normalise and Trim when asked for.
pub proof fn lemma_effects_run_at_high_rate(
    normalise_at_end: bool,
    trim_at_end: bool,
    depth: nat,
    original_depth: nat,
    pool: Seq<PermuteNodeName>,
    count: int,
    r: Seq<PermuteNodeName>,
)
    requires
        chain_shape(true, normalise_at_end, trim_at_end, depth, original_depth, pool, count, r),
        !pool.contains(PermuteNodeName::SampleRateConversionHigh),
        !pool.contains(PermuteNodeName::SampleRateConversionOriginal),
    ensures
        high_rate_framing(normalise_at_end, trim_at_end, pool, drawn_len(depth, original_depth, count) + 1, r),
{
    let drawn = choose|drawn: Seq<PermuteNodeName>| {
        &&& #[trigger] chain_end(true, normalise_at_end, trim_at_end, drawn) == r
        &&& drawn.len() == drawn_len(depth, original_depth, count)
        &&& forall|i: int| 0 <= i < drawn.len() ==> pool.contains(#[trigger] drawn[i])
    };
    lemma_framed_positions(normalise_at_end, trim_at_end, drawn, r);
    let e: int = drawn.len() as int + 1;
    assert forall|i: int| 0 < i < e implies pool.contains(#[trigger] r[i]) by {
        assert(r[(i - 1) + 1] == drawn[i - 1]);
        assert(pool.contains(drawn[i - 1]));
    }
    assert forall|i: int| 0 <= i < r.len() && #[trigger] r[i] == PermuteNodeName::SampleRateConversionHigh implies i == 0 by {
        if 0 < i < e {
            assert(pool.contains(r[i]));
        }
    }
    assert forall|i: int| 0 <= i < r.len() && #[trigger] r[i] == PermuteNodeName::SampleRateConversionOriginal implies i == e by {
        if 0 < i < e {
            assert(pool.contains(r[i]));
        }
    }
    assert(r[e] == PermuteNodeName::SampleRateConversionOriginal);
}

/// The generator of a processor's plan: the function that draws the
/// processor's random parameters and returns the work to run.
#[derive(Debug, Clone, Copy, PartialEq, Eq, Structural)]
pub enum ProcessorPlanGenerator {
    RandomGranularTimeStretch,
    DoubleSpeed,
    RandomPitch,
    RandomBlurStretch,
    HalfSpeed,
    ReverseWithPlan,
    RandomChorus,
    RandomPhaser,
    RandomFlutter,
    RandomZeroFlange,
    RandomWow,
    RandomTremolo,
    RandomLazer,
    RandomRhythmicDelay,
    RandomReverb,
    RandomMetallicDelay,
    RandomFuzz,
    RandomSaturate,
    RandomFilter,
    RandomLineFilter,
    RandomOscillatingFilter,
    RandomCrossGain,
    RandomCrossFilter,
    RandomCrossDistort,
    Normalise,
    AutoTrim,
    ChangeSampleRateHigh,
    ChangeSampleRateOriginal,
}

/// The plan generator of each processor.
pub open spec fn plan_generator(name: PermuteNodeName) -> ProcessorPlanGenerator {
    match name {
        PermuteNodeName::GranularTimeStretch => ProcessorPlanGenerator::RandomGranularTimeStretch,
        PermuteNodeName::DoubleSpeed => ProcessorPlanGenerator::DoubleSpeed,
        PermuteNodeName::RandomPitch => ProcessorPlanGenerator::RandomPitch,
        PermuteNodeName::BlurStretch => ProcessorPlanGenerator::RandomBlurStretch,
        PermuteNodeName::HalfSpeed => ProcessorPlanGenerator::HalfSpeed,
        PermuteNodeName::Reverse => ProcessorPlanGenerator::ReverseWithPlan,
        PermuteNodeName::Chorus => ProcessorPlanGenerator::RandomChorus,
        PermuteNodeName::Phaser => ProcessorPlanGenerator::RandomPhaser,
        PermuteNodeName::Flutter => ProcessorPlanGenerator::RandomFlutter,
        PermuteNodeName::Flange => ProcessorPlanGenerator::RandomZeroFlange,
        PermuteNodeName::Wow => ProcessorPlanGenerator::RandomWow,
        PermuteNodeName::Tremolo => ProcessorPlanGenerator::RandomTremolo,
        PermuteNodeName::Lazer => ProcessorPlanGenerator::RandomLazer,
        PermuteNodeName::RhythmicDelay => ProcessorPlanGenerator::RandomRhythmicDelay,
        PermuteNodeName::Reverb => ProcessorPlanGenerator::RandomReverb,
        PermuteNodeName::MetallicDelay => ProcessorPlanGenerator::RandomMetallicDelay,
        PermuteNodeName::Fuzz => ProcessorPlanGenerator::RandomFuzz,
        PermuteNodeName::Saturate => ProcessorPlanGenerator::RandomSaturate,
        PermuteNodeName::Filter => ProcessorPlanGenerator::RandomFilter,
        PermuteNodeName::LineFilter => ProcessorPlanGenerator::RandomLineFilter,
        PermuteNodeName::OscillatingFilter => ProcessorPlanGenerator::RandomOscillatingFilter,
        PermuteNodeName::CrossGain => ProcessorPlanGenerator::RandomCrossGain,
        PermuteNodeName::CrossFilter => ProcessorPlanGenerator::RandomCrossFilter,
        PermuteNodeName::CrossDistort => ProcessorPlanGenerator::RandomCrossDistort,
        PermuteNodeName::Normalise => ProcessorPlanGenerator::Normalise,
        PermuteNodeName::Trim => ProcessorPlanGenerator::AutoTrim,
        PermuteNodeName::SampleRateConversionHigh => ProcessorPlanGenerator::ChangeSampleRateHigh,
        PermuteNodeName::SampleRateConversionOriginal => ProcessorPlanGenerator::ChangeSampleRateOriginal,
    }
}

/// The plan generator of a processor: each processor's own generator,
/// the table written out clause by clause.
pub fn get_processor_plan(name: PermuteNodeName) -> (r: ProcessorPlanGenerator)
    ensures
        r == plan_generator(name),
        name == PermuteNodeName::GranularTimeStretch ==> r == ProcessorPlanGenerator::RandomGranularTimeStretch,
        name == PermuteNodeName::DoubleSpeed ==> r == ProcessorPlanGenerator::DoubleSpeed,
        name == PermuteNodeName::RandomPitch ==> r == ProcessorPlanGenerator::RandomPitch,
        name == PermuteNodeName::BlurStretch ==> r == ProcessorPlanGenerator::RandomBlurStretch,
        name == PermuteNodeName::HalfSpeed ==> r == ProcessorPlanGenerator::HalfSpeed,
        name == PermuteNodeName::Reverse ==> r == ProcessorPlanGenerator::ReverseWithPlan,
        name == PermuteNodeName::Chorus ==> r == ProcessorPlanGenerator::RandomChorus,
        name == PermuteNodeName::Phaser ==> r == ProcessorPlanGenerator::RandomPhaser,
        name == PermuteNodeName::Flutter ==> r == ProcessorPlanGenerator::RandomFlutter,
        name == PermuteNodeName::Flange ==> r == ProcessorPlanGenerator::RandomZeroFlange,
        name == PermuteNodeName::Wow ==> r == ProcessorPlanGenerator::RandomWow,
        name == PermuteNodeName::Tremolo ==> r == ProcessorPlanGenerator::RandomTremolo,
        name == PermuteNodeName::Lazer ==> r == ProcessorPlanGenerator::RandomLazer,
        name == PermuteNodeName::RhythmicDelay ==> r == ProcessorPlanGenerator::RandomRhythmicDelay,
        name == PermuteNodeName::Reverb ==> r == ProcessorPlanGenerator::RandomReverb,
        name == PermuteNodeName::MetallicDelay ==> r == ProcessorPlanGenerator::RandomMetallicDelay,
        name == PermuteNodeName::Fuzz ==> r == ProcessorPlanGenerator::RandomFuzz,
        name == PermuteNodeName::Saturate ==> r == ProcessorPlanGenerator::RandomSaturate,
        name == PermuteNodeName::Filter ==> r == ProcessorPlanGenerator::RandomFilter,
        name == PermuteNodeName::LineFilter ==> r == ProcessorPlanGenerator::RandomLineFilter,
        name == PermuteNodeName::OscillatingFilter ==> r == ProcessorPlanGenerator::RandomOscillatingFilter,
        name == PermuteNodeName::CrossGain ==> r == ProcessorPlanGenerator::RandomCrossGain,
        name == PermuteNodeName::CrossFilter ==> r == ProcessorPlanGenerator::RandomCrossFilter,
        name == PermuteNodeName::CrossDistort ==> r == ProcessorPlanGenerator::RandomCrossDistort,
        name == PermuteNodeName::Normalise ==> r == ProcessorPlanGenerator::Normalise,
        name == PermuteNodeName::Trim ==> r == ProcessorPlanGenerator::AutoTrim,
        name == PermuteNodeName::SampleRateConversionHigh ==> r == ProcessorPlanGenerator::ChangeSampleRateHigh,
        name == PermuteNodeName::SampleRateConversionOriginal ==> r == ProcessorPlanGenerator::ChangeSampleRateOriginal,
{
    match name {
        PermuteNodeName::GranularTimeStretch => ProcessorPlanGenerator::RandomGranularTimeStretch,
        PermuteNodeName::DoubleSpeed => ProcessorPlanGenerator::DoubleSpeed,
        PermuteNodeName::RandomPitch => ProcessorPlanGenerator::RandomPitch,
        PermuteNodeName::BlurStretch => ProcessorPlanGenerator::RandomBlurStretch,
        PermuteNodeName::HalfSpeed => ProcessorPlanGenerator::HalfSpeed,
        PermuteNodeName::Reverse => ProcessorPlanGenerator::ReverseWithPlan,
        PermuteNodeName::Chorus => ProcessorPlanGenerator::RandomChorus,
        PermuteNodeName::Phaser => ProcessorPlanGenerator::RandomPhaser,
        PermuteNodeName::Flutter => ProcessorPlanGenerator::RandomFlutter,
        PermuteNodeName::Flange => ProcessorPlanGenerator::RandomZeroFlange,
        PermuteNodeName::Wow => ProcessorPlanGenerator::RandomWow,
        PermuteNodeName::Tremolo => ProcessorPlanGenerator::RandomTremolo,
        PermuteNodeName::Lazer => ProcessorPlanGenerator::RandomLazer,
        PermuteNodeName::RhythmicDelay => ProcessorPlanGenerator::RandomRhythmicDelay,
        PermuteNodeName::Reverb => ProcessorPlanGenerator::RandomReverb,
        PermuteNodeName::MetallicDelay => ProcessorPlanGenerator::RandomMetallicDelay,
        PermuteNodeName::Fuzz => ProcessorPlanGenerator::RandomFuzz,
        PermuteNodeName::Saturate => ProcessorPlanGenerator::RandomSaturate,
        PermuteNodeName::Filter => ProcessorPlanGenerator::RandomFilter,
        PermuteNodeName::LineFilter => ProcessorPlanGenerator::RandomLineFilter,
        PermuteNodeName::OscillatingFilter => ProcessorPlanGenerator::RandomOscillatingFilter,
        PermuteNodeName::CrossGain => ProcessorPlanGenerator::RandomCrossGain,
        PermuteNodeName::CrossFilter => ProcessorPlanGenerator::RandomCrossFilter,
        PermuteNodeName::CrossDistort => ProcessorPlanGenerator::RandomCrossDistort,
        PermuteNodeName::Normalise => ProcessorPlanGenerator::Normalise,
        PermuteNodeName::Trim => ProcessorPlanGenerator::AutoTrim,
        PermuteNodeName::SampleRateConversionHigh => ProcessorPlanGenerator::ChangeSampleRateHigh,
        PermuteNodeName::SampleRateConversionOriginal => ProcessorPlanGenerator::ChangeSampleRateOriginal,
    }
}

/// The processor whose plan a generator draws: the name its plan carries.
pub open spec fn generator_processor(g: ProcessorPlanGenerator) -> PermuteNodeName {
    match g {
        ProcessorPlanGenerator::RandomGranularTimeStretch => PermuteNodeName::GranularTimeStretch,
        ProcessorPlanGenerator::DoubleSpeed => PermuteNodeName::DoubleSpeed,
        ProcessorPlanGenerator::RandomPitch => PermuteNodeName::RandomPitch,
        ProcessorPlanGenerator::RandomBlurStretch => PermuteNodeName::BlurStretch,
        ProcessorPlanGenerator::HalfSpeed => PermuteNodeName::HalfSpeed,
        ProcessorPlanGenerator::ReverseWithPlan => PermuteNodeName::Reverse,
        ProcessorPlanGenerator::RandomChorus => PermuteNodeName::Chorus,
        ProcessorPlanGenerator::RandomPhaser => PermuteNodeName::Phaser,
        ProcessorPlanGenerator::RandomFlutter => PermuteNodeName::Flutter,
        ProcessorPlanGenerator::RandomZeroFlange => PermuteNodeName::Flange,
        ProcessorPlanGenerator::RandomWow => PermuteNodeName::Wow,
        ProcessorPlanGenerator::RandomTremolo => PermuteNodeName::Tremolo,
        ProcessorPlanGenerator::RandomLazer => PermuteNodeName::Lazer,
        ProcessorPlanGenerator::RandomRhythmicDelay => PermuteNodeName::RhythmicDelay,
        ProcessorPlanGenerator::RandomReverb => PermuteNodeName::Reverb,
        ProcessorPlanGenerator::RandomMetallicDelay => PermuteNodeName::MetallicDelay,
        ProcessorPlanGenerator::RandomFuzz => PermuteNodeName::Fuzz,
        ProcessorPlanGenerator::RandomSaturate => PermuteNodeName::Saturate,
        ProcessorPlanGenerator::RandomFilter => PermuteNodeName::Filter,
        ProcessorPlanGenerator::RandomLineFilter => PermuteNodeName::LineFilter,
        ProcessorPlanGenerator::RandomOscillatingFilter => PermuteNodeName::OscillatingFilter,
        ProcessorPlanGenerator::RandomCrossGain => PermuteNodeName::CrossGain,
        ProcessorPlanGenerator::RandomCrossFilter => PermuteNodeName::CrossFilter,
        ProcessorPlanGenerator::RandomCrossDistort => PermuteNodeName::CrossDistort,
        ProcessorPlanGenerator::Normalise => PermuteNodeName::Normalise,
        ProcessorPlanGenerator::AutoTrim => PermuteNodeName::Trim,
        ProcessorPlanGenerator::ChangeSampleRateHigh => PermuteNodeName::SampleRateConversionHigh,
        ProcessorPlanGenerator::ChangeSampleRateOriginal => PermuteNodeName::SampleRateConversionOriginal,
    }
}

/// The name the plan drawn by `generator` carries.
pub fn plan_label(generator: ProcessorPlanGenerator) -> (r: PermuteNodeName)
    ensures
        r == generator_processor(generator),
        generator == ProcessorPlanGenerator::RandomGranularTimeStretch ==> r == PermuteNodeName::GranularTimeStretch,
        generator == ProcessorPlanGenerator::DoubleSpeed ==> r == PermuteNodeName::DoubleSpeed,
        generator == ProcessorPlanGenerator::RandomPitch ==> r == PermuteNodeName::RandomPitch,
        generator == ProcessorPlanGenerator::RandomBlurStretch ==> r == PermuteNodeName::BlurStretch,
        generator == ProcessorPlanGenerator::HalfSpeed ==> r == PermuteNodeName::HalfSpeed,
        generator == ProcessorPlanGenerator::ReverseWithPlan ==> r == PermuteNodeName::Reverse,
        generator == ProcessorPlanGenerator::RandomChorus ==> r == PermuteNodeName::Chorus,
        generator == ProcessorPlanGenerator::RandomPhaser ==> r == PermuteNodeName::Phaser,
        generator == ProcessorPlanGenerator::RandomFlutter ==> r == PermuteNodeName::Flutter,
        generator == ProcessorPlanGenerator::RandomZeroFlange ==> r == PermuteNodeName::Flange,
        generator == ProcessorPlanGenerator::RandomWow ==> r == PermuteNodeName::Wow,
        generator == ProcessorPlanGenerator::RandomTremolo ==> r == PermuteNodeName::Tremolo,
        generator == ProcessorPlanGenerator::RandomLazer ==> r == PermuteNodeName::Lazer,
        generator == ProcessorPlanGenerator::RandomRhythmicDelay ==> r == PermuteNodeName::RhythmicDelay,
        generator == ProcessorPlanGenerator::RandomReverb ==> r == PermuteNodeName::Reverb,
        generator == ProcessorPlanGenerator::RandomMetallicDelay ==> r == PermuteNodeName::MetallicDelay,
        generator == ProcessorPlanGenerator::RandomFuzz ==> r == PermuteNodeName::Fuzz,
        generator == ProcessorPlanGenerator::RandomSaturate ==> r == PermuteNodeName::Saturate,
        generator == ProcessorPlanGenerator::RandomFilter ==> r == PermuteNodeName::Filter,
        generator == ProcessorPlanGenerator::RandomLineFilter ==> r == PermuteNodeName::LineFilter,
        generator == ProcessorPlanGenerator::RandomOscillatingFilter ==> r == PermuteNodeName::OscillatingFilter,
        generator == ProcessorPlanGenerator::RandomCrossGain ==> r == PermuteNodeName::CrossGain,
        generator == ProcessorPlanGenerator::RandomCrossFilter ==> r == PermuteNodeName::CrossFilter,
        generator == ProcessorPlanGenerator::RandomCrossDistort ==> r == PermuteNodeName::CrossDistort,
        generator == ProcessorPlanGenerator::Normalise ==> r == PermuteNodeName::Normalise,
        generator == ProcessorPlanGenerator::AutoTrim ==> r == PermuteNodeName::Trim,
        generator == ProcessorPlanGenerator::ChangeSampleRateHigh ==> r == PermuteNodeName::SampleRateConversionHigh,
        generator == ProcessorPlanGenerator::ChangeSampleRateOriginal ==> r == PermuteNodeName::SampleRateConversionOriginal,
{
    match generator {
        ProcessorPlanGenerator::RandomGranularTimeStretch => PermuteNodeName::GranularTimeStretch,
        ProcessorPlanGenerator::DoubleSpeed => PermuteNodeName::DoubleSpeed,
        ProcessorPlanGenerator::RandomPitch => PermuteNodeName::RandomPitch,
        ProcessorPlanGenerator::RandomBlurStretch => PermuteNodeName::BlurStretch,
        ProcessorPlanGenerator::HalfSpeed => PermuteNodeName::HalfSpeed,
        ProcessorPlanGenerator::ReverseWithPlan => PermuteNodeName::Reverse,
        ProcessorPlanGenerator::RandomChorus => PermuteNodeName::Chorus,
        ProcessorPlanGenerator::RandomPhaser => PermuteNodeName::Phaser,
        ProcessorPlanGenerator::RandomFlutter => PermuteNodeName::Flutter,
        ProcessorPlanGenerator::RandomZeroFlange => PermuteNodeName::Flange,
        ProcessorPlanGenerator::RandomWow => PermuteNodeName::Wow,
        ProcessorPlanGenerator::RandomTremolo => PermuteNodeName::Tremolo,
        ProcessorPlanGenerator::RandomLazer => PermuteNodeName::Lazer,
        ProcessorPlanGenerator::RandomRhythmicDelay => PermuteNodeName::RhythmicDelay,
        ProcessorPlanGenerator::RandomReverb => PermuteNodeName::Reverb,
        ProcessorPlanGenerator::RandomMetallicDelay => PermuteNodeName::MetallicDelay,
        ProcessorPlanGenerator::RandomFuzz => PermuteNodeName::Fuzz,
        ProcessorPlanGenerator::RandomSaturate => PermuteNodeName::Saturate,
        ProcessorPlanGenerator::RandomFilter => PermuteNodeName::Filter,
        ProcessorPlanGenerator::RandomLineFilter => PermuteNodeName::LineFilter,
        ProcessorPlanGenerator::RandomOscillatingFilter => PermuteNodeName::OscillatingFilter,
        ProcessorPlanGenerator::RandomCrossGain => PermuteNodeName::CrossGain,
        ProcessorPlanGenerator::RandomCrossFilter => PermuteNodeName::CrossFilter,
        ProcessorPlanGenerator::RandomCrossDistort => PermuteNodeName::CrossDistort,
        ProcessorPlanGenerator::Normalise => PermuteNodeName::Normalise,
        ProcessorPlanGenerator::AutoTrim => PermuteNodeName::Trim,
        ProcessorPlanGenerator::ChangeSampleRateHigh => PermuteNodeName::SampleRateConversionHigh,
        ProcessorPlanGenerator::ChangeSampleRateOriginal => PermuteNodeName::SampleRateConversionOriginal,
    }
}

/// The plan of a processor's generator is labelled with that processor,
/// and every generator is the generator of the processor it labels.
pub proof fn lemma_plan_label_round_trip(name: PermuteNodeName, g: ProcessorPlanGenerator)
    ensures
        generator_processor(plan_generator(name)) == name,
        plan_generator(generator_processor(g)) == g,
{
}

/// Each processor runs its own plan: the generator of every processor,
/// and the processor every generator's plan is labelled with, entry by
/// entry (Double speed runs the double speed plan, Half speed the half
/// speed plan, Reverse the reverse plan, and so on).
pub proof fn lemma_plan_table()
    ensures
        plan_generator(PermuteNodeName::GranularTimeStretch) == ProcessorPlanGenerator::RandomGranularTimeStretch,
        generator_processor(ProcessorPlanGenerator::RandomGranularTimeStretch) == PermuteNodeName::GranularTimeStretch,
        plan_generator(PermuteNodeName::DoubleSpeed) == ProcessorPlanGenerator::DoubleSpeed,
        generator_processor(ProcessorPlanGenerator::DoubleSpeed) == PermuteNodeName::DoubleSpeed,
        plan_generator(PermuteNodeName::RandomPitch) == ProcessorPlanGenerator::RandomPitch,
        generator_processor(ProcessorPlanGenerator::RandomPitch) == PermuteNodeName::RandomPitch,
        plan_generator(PermuteNodeName::BlurStretch) == ProcessorPlanGenerator::RandomBlurStretch,
        generator_processor(ProcessorPlanGenerator::RandomBlurStretch) == PermuteNodeName::BlurStretch,
        plan_generator(PermuteNodeName::HalfSpeed) == ProcessorPlanGenerator::HalfSpeed,
        generator_processor(ProcessorPlanGenerator::HalfSpeed) == PermuteNodeName::HalfSpeed,
        plan_generator(PermuteNodeName::Reverse) == ProcessorPlanGenerator::ReverseWithPlan,
        generator_processor(ProcessorPlanGenerator::ReverseWithPlan) == PermuteNodeName::Reverse,
        plan_generator(PermuteNodeName::Chorus) == ProcessorPlanGenerator::RandomChorus,
        generator_processor(ProcessorPlanGenerator::RandomChorus) == PermuteNodeName::Chorus,
        plan_generator(PermuteNodeName::Phaser) == ProcessorPlanGenerator::RandomPhaser,
        generator_processor(ProcessorPlanGenerator::RandomPhaser) == PermuteNodeName::Phaser,
        plan_generator(PermuteNodeName::Flutter) == ProcessorPlanGenerator::RandomFlutter,
        generator_processor(ProcessorPlanGenerator::RandomFlutter) == PermuteNodeName::Flutter,
        plan_generator(PermuteNodeName::Flange) == ProcessorPlanGenerator::RandomZeroFlange,
        generator_processor(ProcessorPlanGenerator::RandomZeroFlange) == PermuteNodeName::Flange,
        plan_generator(PermuteNodeName::Wow) == ProcessorPlanGenerator::RandomWow,
        generator_processor(ProcessorPlanGenerator::RandomWow) == PermuteNodeName::Wow,
        plan_generator(PermuteNodeName::Tremolo) == ProcessorPlanGenerator::RandomTremolo,
        generator_processor(ProcessorPlanGenerator::RandomTremolo) == PermuteNodeName::Tremolo,
        plan_generator(PermuteNodeName::Lazer) == ProcessorPlanGenerator::RandomLazer,
        generator_processor(ProcessorPlanGenerator::RandomLazer) == PermuteNodeName::Lazer,
        plan_generator(PermuteNodeName::RhythmicDelay) == ProcessorPlanGenerator::RandomRhythmicDelay,
        generator_processor(ProcessorPlanGenerator::RandomRhythmicDelay) == PermuteNodeName::RhythmicDelay,
        plan_generator(PermuteNodeName::Reverb) == ProcessorPlanGenerator::RandomReverb,
        generator_processor(ProcessorPlanGenerator::RandomReverb) == PermuteNodeName::Reverb,
        plan_generator(PermuteNodeName::MetallicDelay) == ProcessorPlanGenerator::RandomMetallicDelay,
        generator_processor(ProcessorPlanGenerator::RandomMetallicDelay) == PermuteNodeName::MetallicDelay,
        plan_generator(PermuteNodeName::Fuzz) == ProcessorPlanGenerator::RandomFuzz,
        generator_processor(ProcessorPlanGenerator::RandomFuzz) == PermuteNodeName::Fuzz,
        plan_generator(PermuteNodeName::Saturate) == ProcessorPlanGenerator::RandomSaturate,
        generator_processor(ProcessorPlanGenerator::RandomSaturate) == PermuteNodeName::Saturate,
        plan_generator(PermuteNodeName::Filter) == ProcessorPlanGenerator::RandomFilter,
        generator_processor(ProcessorPlanGenerator::RandomFilter) == PermuteNodeName::Filter,
        plan_generator(PermuteNodeName::LineFilter) == ProcessorPlanGenerator::RandomLineFilter,
        generator_processor(ProcessorPlanGenerator::RandomLineFilter) == PermuteNodeName::LineFilter,
        plan_generator(PermuteNodeName::OscillatingFilter) == ProcessorPlanGenerator::RandomOscillatingFilter,
        generator_processor(ProcessorPlanGenerator::RandomOscillatingFilter) == PermuteNodeName::OscillatingFilter,
        plan_generator(PermuteNodeName::CrossGain) == ProcessorPlanGenerator::RandomCrossGain,
        generator_processor(ProcessorPlanGenerator::RandomCrossGain) == PermuteNodeName::CrossGain,
        plan_generator(PermuteNodeName::CrossFilter) == ProcessorPlanGenerator::RandomCrossFilter,
        generator_processor(ProcessorPlanGenerator::RandomCrossFilter) == PermuteNodeName::CrossFilter,
        plan_generator(PermuteNodeName::CrossDistort) == ProcessorPlanGenerator::RandomCrossDistort,
        generator_processor(ProcessorPlanGenerator::RandomCrossDistort) == PermuteNodeName::CrossDistort,
        plan_generator(PermuteNodeName::Normalise) == ProcessorPlanGenerator::Normalise,
        generator_processor(ProcessorPlanGenerator::Normalise) == PermuteNodeName::Normalise,
        plan_generator(PermuteNodeName::Trim) == ProcessorPlanGenerator::AutoTrim,
        generator_processor(ProcessorPlanGenerator::AutoTrim) == PermuteNodeName::Trim,
        plan_generator(PermuteNodeName::SampleRateConversionHigh) == ProcessorPlanGenerator::ChangeSampleRateHigh,
        generator_processor(ProcessorPlanGenerator::ChangeSampleRateHigh) == PermuteNodeName::SampleRateConversionHigh,
        plan_generator(PermuteNodeName::SampleRateConversionOriginal) == ProcessorPlanGenerator::ChangeSampleRateOriginal,
        generator_processor(ProcessorPlanGenerator::ChangeSampleRateOriginal) == PermuteNodeName::SampleRateConversionOriginal,
{
}

/// No two processors share a plan generator.
pub proof fn lemma_plan_generators_distinct(a: PermuteNodeName, b: PermuteNodeName)
    ensures
        plan_generator(a) == plan_generator(b) ==> a == b,
{
}

} // verus!
