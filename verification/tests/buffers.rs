use permute::processing::{delay_line, rev};
use permute::processors::cross::{find_zero_crossing, grain_boundaries, grain_slices};
use permute::processors::gain_distortion::{interleave_channels, split_channels, trim_range};
use permute::processors::modulation::PhaserStages;
use permute::processors::time_pitch::{reverse, time_stretch_chunks, time_stretch_plan, StretchGain, StretchStep};

fn signs(samples: &[f64]) -> Vec<bool> {
    samples.iter().map(|s| *s >= 0.0).collect()
}

#[test]
fn split_channels_deinterleaves() {
    let r = split_channels(vec![1, 2, 3, 4, 5], 2);
    assert_eq!(r, vec![vec![1, 3, 5], vec![2, 4]]);
    let mono = split_channels(vec![7, 8], 1);
    assert_eq!(mono, vec![vec![7, 8]]);
    let none: Vec<Vec<i32>> = split_channels(vec![1, 2], 0);
    assert!(none.is_empty());
}

#[test]
fn interleave_fills_short_channels() {
    let r: Result<Vec<i32>, String> = interleave_channels(Ok(vec![vec![1, 3, 5], vec![2, 4]]), 0);
    assert_eq!(r, Ok(vec![1, 2, 3, 4, 5, 0]));
    let e: Result<Vec<i32>, String> = interleave_channels(Err("no audio".to_string()), 0);
    assert_eq!(e, Err("no audio".to_string()));
}

#[test]
fn split_then_interleave_gives_back_whole_frames() {
    let samples = vec![0.1f64, -0.2, 0.3, -0.4, 0.5, -0.6];
    let by_channel = split_channels(samples.clone(), 3);
    let back: Result<Vec<f64>, ()> = interleave_channels(Ok(by_channel), 0.0);
    assert_eq!(back, Ok(samples));
}

#[test]
fn reverse_reverses_frames_and_keeps_the_tail() {
    let samples = vec![1, 2, 3, 4, 5, 6, 7];
    let r = reverse(&samples, 6, 2);
    assert_eq!(r, vec![5, 6, 3, 4, 1, 2, 7]);
    assert_eq!(reverse(&r, 6, 2), samples);
    assert_eq!(reverse(&vec![1, 2, 3], 3, 1), vec![3, 2, 1]);
    assert_eq!(reverse(&vec![1, 2, 3], 0, 0), vec![1, 2, 3]);
}

#[test]
fn trim_range_goes_from_first_to_last_loud_frame() {
    let loud = vec![false, false, false, true, false, true, false, false];
    assert_eq!(trim_range(&loud, 8, 2), (2, 4));
    assert_eq!(trim_range(&loud, 8, 1), (3, 5));
    assert_eq!(trim_range(&vec![false; 6], 6, 2), (0, 6));
    assert_eq!(trim_range(&vec![false, true, true, false], 4, 1), (1, 2));
    assert_eq!(trim_range(&loud, 3, 1), (0, 3));
}

#[test]
fn zero_crossing_search() {
    let s = signs(&[1.0, 2.0, -1.0, -2.0, 3.0]);
    assert_eq!(find_zero_crossing(&s, 0, 10, 1), 1);
    assert_eq!(find_zero_crossing(&s, 3, 1, 1), 3);
    let stereo = signs(&[1.0, 1.0, 1.0, -1.0, -1.0, -1.0, -1.0, 1.0]);
    assert_eq!(find_zero_crossing(&stereo, 1, 8, 2), 2);
    // No crossing within reach: the aligned position.
    assert_eq!(find_zero_crossing(&stereo, 5, 0, 2), 4);
}

#[test]
fn grain_boundaries_snap_to_crossings() {
    let flat = vec![true; 10];
    assert_eq!(grain_boundaries(&flat, 4, 1), vec![0, 4, 8]);
    let mut s = vec![true; 8];
    s.extend(vec![false; 4]);
    assert_eq!(grain_boundaries(&s, 6, 1), vec![0, 7]);
    assert_eq!(grain_boundaries(&vec![true; 3], 10, 1), vec![0]);
    // A grain shorter than a frame is one frame long.
    assert_eq!(grain_boundaries(&vec![true; 4], 0, 2), vec![0, 2]);
}

#[test]
fn grain_slices_cycle_the_sidechain() {
    let slices = grain_slices(&vec![0, 7], 12, 5, 1);
    assert_eq!(slices.len(), 2);
    assert_eq!((slices[0].start, slices[0].len, slices[0].sidechain_start), (0, 7, 0));
    assert!(!slices[0].fade_in_current);
    assert!(slices[0].fade_out_sidechain);
    assert_eq!((slices[1].start, slices[1].len, slices[1].sidechain_start), (7, 5, 2));
    assert!(slices[1].fade_in_current);
    assert!(!slices[1].fade_out_sidechain);

    let stereo = grain_slices(&vec![0, 4, 8], 10, 6, 2);
    let starts: Vec<usize> = stereo.iter().map(|g| g.sidechain_start).collect();
    assert_eq!(starts, vec![0, 4, 2]);
    let lens: Vec<usize> = stereo.iter().map(|g| g.len).collect();
    assert_eq!(lens, vec![4, 4, 2]);
}

#[test]
fn rev_keeps_the_first_sample() {
    assert_eq!(rev(&vec![1, 2, 3, 4]), vec![1, 3, 2, 1]);
    assert_eq!(rev(&vec![9]), vec![9]);
    assert!(rev::<i32>(&Vec::new()).is_empty());
}

#[test]
fn delay_line_adds_delayed_samples() {
    assert_eq!(delay_line(&vec![1, 2, 3, 4], 1, 0), vec![1, 3, 5, 7]);
    assert_eq!(delay_line(&vec![1, 2, 3, 4], 1, 1), vec![1, 4, 8, 12]);
    assert_eq!(delay_line(&vec![1, 2, 3, 4], 2, 0), vec![1, 2, 4, 6]);
    assert_eq!(delay_line(&vec![1, 2, 3, 4], 0, 0), vec![1, 4, 6, 8]);
    assert!(delay_line(&Vec::new(), 3, 2).is_empty());
}

#[test]
fn phaser_stage_counts() {
    assert_eq!(PhaserStages::One.stage_count(), 1);
    assert_eq!(PhaserStages::Six.stage_count(), 6);
    assert_eq!(PhaserStages::Twelve.stage_count(), 12);
    assert_eq!(PhaserStages::Twenty.stage_count(), 20);
}

fn step(source: usize, gain: StretchGain) -> StretchStep {
    StretchStep { source, gain }
}

#[test]
fn time_stretch_chunks_start_at_sign_flips_a_grain_apart() {
    let signs = vec![1, 1, -1, -1, 1, 1, -1, -1];
    assert_eq!(time_stretch_chunks(&signs, 8, 1, 1), vec![0, 2, 4, 6, 7]);
    assert_eq!(time_stretch_chunks(&signs, 8, 1, 2), vec![0, 4, 7]);
    // A zero sample is no flip.
    assert_eq!(time_stretch_chunks(&vec![1, 0, -1], 3, 1, 0), vec![0, 2]);
    assert_eq!(time_stretch_chunks(&vec![1], 1, 1, 0), vec![0, 0]);
    // Stereo: flips are looked for within a channel, a frame apart.
    let stereo = vec![1, 1, -1, 1, -1, 1, 1, 1];
    assert_eq!(time_stretch_chunks(&stereo, 8, 2, 0), vec![0, 2, 6, 7]);
}

#[test]
fn time_stretch_plan_repeats_and_fades_chunks() {
    let plan = time_stretch_plan(&vec![0, 2, 4], 2, 4, 2);
    assert_eq!(
        plan,
        vec![
            step(0, StretchGain::Unity),
            step(1, StretchGain::Unity),
            step(0, StretchGain::Ratio(0, 1)),
            step(1, StretchGain::Unity),
            step(2, StretchGain::Ratio(0, 1)),
            step(3, StretchGain::Unity),
            step(2, StretchGain::Ratio(0, 1)),
            step(3, StretchGain::Unity),
        ]
    );
    let faded = time_stretch_plan(&vec![0, 4], 1, 4, 4);
    assert_eq!(faded, vec![step(0, StretchGain::Unity), step(1, StretchGain::Unity), step(2, StretchGain::Unity), step(3, StretchGain::Ratio(1, 2))]);
    // The blend is at most a grain.
    let clamped = time_stretch_plan(&vec![0, 4], 1, 2, 100);
    assert_eq!(clamped, vec![step(0, StretchGain::Unity), step(1, StretchGain::Unity), step(2, StretchGain::Unity), step(3, StretchGain::Unity)]);
    assert!(time_stretch_plan(&vec![5], 3, 4, 4).is_empty());
}

#[test]
fn time_stretch_length_is_factor_times_length_less_one() {
    let signs = vec![1, -1, 1, -1, 1, -1, 1, -1, 1, 1];
    for factor in 1..5 {
        let chunks = time_stretch_chunks(&signs, signs.len(), 1, 2);
        let plan = time_stretch_plan(&chunks, factor, 2, 2);
        assert_eq!(plan.len(), factor * (signs.len() - 1));
    }
}

#[test]
fn grains_cover_the_current_audio() {
    let samples: Vec<f64> = (0..997).map(|i| ((i as f64) * 0.37).sin()).collect();
    let boundaries = grain_boundaries(&signs(&samples), 40, 2);
    let slices = grain_slices(&boundaries, samples.len(), 300, 2);
    let total: usize = slices.iter().map(|g| g.len).sum();
    assert_eq!(total, samples.len());
    for pair in slices.windows(2) {
        assert_eq!(pair[0].start + pair[0].len, pair[1].start);
    }
    assert_eq!(slices[0].start, 0);
}

#[test]
fn mono_reverse_mirrors_the_prefix() {
    let samples = vec![1, 2, 3, 4, 5, 6];
    assert_eq!(reverse(&samples, 4, 1), vec![4, 3, 2, 1, 5, 6]);
}
