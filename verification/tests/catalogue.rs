use permute::display_node::{get_processor_display_name, get_processor_from_display_name};
use permute::process::{all_processors, PermuteNodeName};
use permute::random_process::{
    generate_processor_sequence, get_processor_plan, plan_label, select_random_processor, GetProcessorNodeParams,
    ProcessorPlanGenerator,
};
use permute::random_processors::random_cross::select_sidechain_file;

const EVERY_PROCESSOR: [PermuteNodeName; 28] = [
    PermuteNodeName::GranularTimeStretch,
    PermuteNodeName::Fuzz,
    PermuteNodeName::Saturate,
    PermuteNodeName::Reverse,
    PermuteNodeName::Chorus,
    PermuteNodeName::Phaser,
    PermuteNodeName::DoubleSpeed,
    PermuteNodeName::RandomPitch,
    PermuteNodeName::Flutter,
    PermuteNodeName::Flange,
    PermuteNodeName::HalfSpeed,
    PermuteNodeName::MetallicDelay,
    PermuteNodeName::RhythmicDelay,
    PermuteNodeName::Reverb,
    PermuteNodeName::Wow,
    PermuteNodeName::Tremolo,
    PermuteNodeName::Lazer,
    PermuteNodeName::Normalise,
    PermuteNodeName::Trim,
    PermuteNodeName::SampleRateConversionHigh,
    PermuteNodeName::SampleRateConversionOriginal,
    PermuteNodeName::Filter,
    PermuteNodeName::OscillatingFilter,
    PermuteNodeName::LineFilter,
    PermuteNodeName::CrossGain,
    PermuteNodeName::CrossFilter,
    PermuteNodeName::CrossDistort,
    PermuteNodeName::BlurStretch,
];

#[test]
fn display_names_of_known_processors() {
    assert_eq!(get_processor_display_name(PermuteNodeName::Reverse), "Reverse");
    assert_eq!(get_processor_display_name(PermuteNodeName::DoubleSpeed), "Double speed");
    assert_eq!(get_processor_display_name(PermuteNodeName::GranularTimeStretch), "Granular stretch");
    assert_eq!(
        get_processor_display_name(PermuteNodeName::SampleRateConversionOriginal),
        "Sample rate conversion low"
    );
    assert_eq!(get_processor_display_name(PermuteNodeName::CrossGain), "Cross gain");
}

#[test]
fn lookup_by_display_name() {
    assert_eq!(get_processor_from_display_name("Metallic delay"), Ok(PermuteNodeName::MetallicDelay));
    assert_eq!(get_processor_from_display_name("Wow"), Ok(PermuteNodeName::Wow));
    assert_eq!(get_processor_from_display_name("Trim"), Ok(PermuteNodeName::Trim));
}

#[test]
fn lookup_of_unknown_name_fails_with_message() {
    assert_eq!(get_processor_from_display_name("Banana"), Err("Banana not found".to_string()));
    assert_eq!(get_processor_from_display_name("reverse"), Err("reverse not found".to_string()));
    assert_eq!(get_processor_from_display_name(""), Err(" not found".to_string()));
    assert_eq!(get_processor_from_display_name("Tremolo"), Err("Tremolo not found".to_string()));
}

#[test]
fn display_name_round_trip() {
    let not_looked_up = [
        PermuteNodeName::Tremolo,
        PermuteNodeName::Lazer,
        PermuteNodeName::Filter,
        PermuteNodeName::OscillatingFilter,
        PermuteNodeName::LineFilter,
        PermuteNodeName::CrossGain,
        PermuteNodeName::CrossFilter,
        PermuteNodeName::CrossDistort,
        PermuteNodeName::BlurStretch,
    ];
    for n in EVERY_PROCESSOR {
        let name = get_processor_display_name(n);
        if not_looked_up.contains(&n) {
            assert!(get_processor_from_display_name(&name).is_err());
        } else {
            assert_eq!(get_processor_from_display_name(&name), Ok(n));
        }
    }
}

#[test]
fn display_names_are_distinct() {
    let names: Vec<String> = EVERY_PROCESSOR.iter().map(|n| get_processor_display_name(*n)).collect();
    for i in 0..names.len() {
        for j in 0..i {
            assert_ne!(names[i], names[j]);
        }
    }
}

#[test]
fn offered_processors() {
    let all = all_processors();
    assert_eq!(all.len(), 23);
    assert_eq!(all[0], PermuteNodeName::GranularTimeStretch);
    assert_eq!(all[22], PermuteNodeName::BlurStretch);
    assert!(!all.contains(&PermuteNodeName::Normalise));
    assert!(!all.contains(&PermuteNodeName::CrossDistort));
    assert!(!all.contains(&PermuteNodeName::SampleRateConversionHigh));
}

#[test]
fn plan_generators() {
    assert_eq!(get_processor_plan(PermuteNodeName::Reverse), ProcessorPlanGenerator::ReverseWithPlan);
    assert_eq!(get_processor_plan(PermuteNodeName::Trim), ProcessorPlanGenerator::AutoTrim);
    assert_eq!(get_processor_plan(PermuteNodeName::Flange), ProcessorPlanGenerator::RandomZeroFlange);
    assert_eq!(
        get_processor_plan(PermuteNodeName::SampleRateConversionHigh),
        ProcessorPlanGenerator::ChangeSampleRateHigh
    );
    let gens: Vec<ProcessorPlanGenerator> = EVERY_PROCESSOR.iter().map(|n| get_processor_plan(*n)).collect();
    for i in 0..gens.len() {
        for j in 0..i {
            assert_ne!(gens[i], gens[j]);
        }
    }
}

#[test]
fn plans_carry_their_processor() {
    for n in EVERY_PROCESSOR.iter() {
        assert_eq!(plan_label(get_processor_plan(*n)), *n);
    }
    assert_eq!(plan_label(ProcessorPlanGenerator::ReverseWithPlan), PermuteNodeName::Reverse);
    assert_eq!(plan_label(ProcessorPlanGenerator::AutoTrim), PermuteNodeName::Trim);
}

fn params(
    depth: usize,
    original_depth: usize,
    pool: Vec<PermuteNodeName>,
    count: Option<i32>,
    high: bool,
    normalise: bool,
    trim: bool,
) -> GetProcessorNodeParams {
    GetProcessorNodeParams {
        normalise_at_end: normalise,
        trim_at_end: trim,
        high_sample_rate: high,
        depth,
        processor_pool: pool,
        processor_count: count,
        constrain_length: true,
        rng: rand::thread_rng(),
        original_depth,
    }
}

#[test]
fn sequence_at_depth_zero() {
    let pool = vec![PermuteNodeName::Wow];
    let r = generate_processor_sequence(params(0, 0, pool.clone(), None, true, true, true));
    assert_eq!(
        r,
        vec![
            PermuteNodeName::SampleRateConversionHigh,
            PermuteNodeName::Wow,
            PermuteNodeName::SampleRateConversionOriginal,
            PermuteNodeName::Normalise,
            PermuteNodeName::Trim,
        ]
    );
    let r = generate_processor_sequence(params(0, 0, pool, None, false, false, false));
    assert_eq!(r, vec![PermuteNodeName::Wow]);
}

#[test]
fn sequence_with_given_count() {
    let pool = vec![PermuteNodeName::Reverse, PermuteNodeName::Chorus];
    let r = generate_processor_sequence(params(3, 3, pool.clone(), Some(2), false, true, false));
    assert_eq!(r.len(), 7);
    for p in &r[0..6] {
        assert!(pool.contains(p));
    }
    assert_eq!(r[6], PermuteNodeName::Normalise);
}

#[test]
fn sequence_with_random_count() {
    let pool = vec![PermuteNodeName::Fuzz];
    for _ in 0..20 {
        let r = generate_processor_sequence(params(2, 2, pool.clone(), None, false, false, true));
        let body = r.len() - 1;
        assert!(body == 4 || body == 6 || body == 8);
        assert_eq!(r[r.len() - 1], PermuteNodeName::Trim);
        assert!(r[..body].iter().all(|p| *p == PermuteNodeName::Fuzz));
    }
}

#[test]
fn high_sample_rate_frames_every_drawn_effect() {
    let pool = vec![PermuteNodeName::Reverse, PermuteNodeName::Chorus];
    let r = generate_processor_sequence(params(2, 2, pool.clone(), Some(3), true, true, true));
    assert_eq!(r.len(), 10);
    assert_eq!(r[0], PermuteNodeName::SampleRateConversionHigh);
    for p in &r[1..7] {
        assert!(pool.contains(p));
    }
    assert_eq!(r[7], PermuteNodeName::SampleRateConversionOriginal);
    assert_eq!(r[8], PermuteNodeName::Normalise);
    assert_eq!(r[9], PermuteNodeName::Trim);
    let r = generate_processor_sequence(params(1, 1, vec![PermuteNodeName::Wow], Some(1), true, false, false));
    assert_eq!(
        r,
        vec![
            PermuteNodeName::SampleRateConversionHigh,
            PermuteNodeName::Wow,
            PermuteNodeName::SampleRateConversionOriginal,
        ]
    );
}

#[test]
fn sequence_with_negative_count_is_only_its_end() {
    let r = generate_processor_sequence(params(2, 2, vec![], Some(-3), false, true, false));
    assert_eq!(r, vec![PermuteNodeName::Normalise]);
}

#[test]
fn random_processor_comes_from_pool() {
    let pool = [PermuteNodeName::Phaser, PermuteNodeName::Reverb, PermuteNodeName::Wow];
    let mut seen = [false; 3];
    for _ in 0..200 {
        let p = select_random_processor(&pool);
        let i = pool.iter().position(|q| *q == p).unwrap();
        seen[i] = true;
    }
    assert!(seen.iter().all(|s| *s));
}

#[test]
fn sidechain_file_selection() {
    let files = vec!["a.wav".to_string(), "b.wav".to_string(), "c.wav".to_string()];
    for _ in 0..50 {
        let f = select_sidechain_file("a.wav", &files).unwrap();
        assert!(f == "b.wav" || f == "c.wav");
    }
    assert_eq!(select_sidechain_file("a.wav", &files[..1]), None);
    let same = vec!["a.wav".to_string(), "a.wav".to_string()];
    assert_eq!(select_sidechain_file("a.wav", &same), None);
    let two = vec!["a.wav".to_string(), "b.wav".to_string()];
    assert_eq!(select_sidechain_file("a.wav", &two), Some("b.wav".to_string()));
}

#[test]
fn first_tool_chains_are_levels_of_speed_changes() {
    use_prototype_chain(true, 0);
    use_prototype_chain(false, 2);
    use_prototype_chain(true, 4);
}

fn use_prototype_chain(normalise_at_end: bool, depth: usize) {
    for _ in 0..50 {
        let chain = permute::prototype::generate_processor_sequence(permute::prototype::GetProcessorNodeParams {
            normalise_at_end,
            depth,
        });
        let body: &[PermuteNodeName] = if normalise_at_end {
            assert_eq!(*chain.last().unwrap(), PermuteNodeName::Normalise);
            &chain[..chain.len() - 1]
        } else {
            &chain[..]
        };
        let levels = depth + 1;
        assert!(body.len() >= 2 * levels && body.len() <= 7 * levels);
        assert!(body.iter().all(|p| *p == PermuteNodeName::HalfSpeed || *p == PermuteNodeName::DoubleSpeed));
    }
}
