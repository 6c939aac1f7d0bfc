use permute::audio_info::AudioInfo;
use permute::permute_files::{plan_permutation, single_process_permutation, PermuteUpdate};
use permute::processors::modulation::{all_phaser_stages, PhaserStages};
use permute::process::{all_processors, Permutation, PermutationProcessor, PermuteNodeEvent, PermuteNodeName, ProcessorAttribute};
use permute::state::{
    default_normalise_at_end, default_permutation_depth, default_permutations, default_processor_pool, default_true,
    display_names, processor_dto, processor_dtos, SharedState, DEFAULT_MAX_STRETCH_BITS, DEFAULT_OUTPUT_TRAIL_BITS,
};

fn info(path: &str) -> AudioInfo {
    AudioInfo {
        path: path.to_string(),
        name: path.rsplit('/').next().unwrap().to_string(),
        duration_sec_bits: 1.5f64.to_bits(),
        image: String::new(),
    }
}

fn permutation(file: &str, index: usize, output: &str) -> Permutation {
    Permutation {
        file: file.to_string(),
        permutation_index: index,
        output: output.to_string(),
        processor_pool: vec![PermuteNodeName::Reverse, PermuteNodeName::Fuzz],
        processors: Vec::new(),
        original_sample_rate: 44100,
        node_index: 0,
        files: vec![file.to_string()],
    }
}

fn chain() -> Vec<(PermuteNodeName, Vec<ProcessorAttribute>)> {
    vec![
        (PermuteNodeName::Reverse, Vec::new()),
        (PermuteNodeName::Fuzz, vec![ProcessorAttribute { key: "Gain".to_string(), value: "2".to_string() }]),
    ]
}

fn keys(state: &SharedState) -> Vec<(usize, usize)> {
    state.outputs.iter().map(|e| e.0).collect()
}

#[test]
fn init_has_the_documented_defaults() {
    let s = SharedState::init(Some(4));
    assert_eq!(s.permutations, 3);
    assert_eq!(s.permutation_depth, 2);
    assert_eq!(s.processor_pool, all_processors());
    assert_eq!(s.all_processors, all_processors());
    assert!(s.normalise_at_end);
    assert!(!s.trim_all);
    assert!(!s.high_sample_rate);
    assert!(s.constrain_length);
    assert!(s.create_subdirectories);
    assert!(!s.viewed_welcome);
    assert!(!s.processing);
    assert_eq!(s.processor_count, Some(4));
    assert_eq!(f64::from_bits(s.output_trail_bits), 2.0);
    assert_eq!(f64::from_bits(s.max_stretch_bits), 17.0);
    assert_eq!(s.input_trail_bits, 0);
    assert_eq!(s.output, "");
    assert_eq!(s.error, "");
    assert!(s.files.is_empty());
    assert!(s.outputs.is_empty());
}

#[test]
fn default_bit_patterns_are_the_float_defaults() {
    assert_eq!(DEFAULT_OUTPUT_TRAIL_BITS, 2.0f64.to_bits());
    assert_eq!(DEFAULT_MAX_STRETCH_BITS, 17.0f64.to_bits());
}

#[test]
fn scene_defaults() {
    assert_eq!(default_permutations(), 3);
    assert_eq!(default_permutation_depth(), 2);
    assert_eq!(default_processor_pool(), all_processors());
    assert!(default_normalise_at_end());
    assert!(default_true());
}

#[test]
fn add_file_makes_placeholders_once() {
    let mut s = SharedState::init(None);
    s.set_error("old".to_string());
    s.add_file("/in/a.wav".to_string(), info("/in/a.wav"));
    assert_eq!(s.error, "");
    assert_eq!(s.files.len(), 1);
    assert_eq!(keys(&s), vec![(0, 1), (0, 2), (0, 3)]);
    for (i, (_, o)) in s.outputs.iter().enumerate() {
        assert_eq!(o.permutation.permutation_index, i + 1);
        assert_eq!(o.permutation.file, "/in/a.wav");
        assert_eq!(o.source_file, "/in/a.wav");
        assert_eq!(o.output, "");
        assert_eq!(o.progress, 0);
        assert!(!o.deleted);
    }
    s.add_file("/in/a.wav".to_string(), info("/in/a.wav"));
    assert_eq!(s.files.len(), 1);
    assert_eq!(s.outputs.len(), 3);
    s.set_permutations(2);
    s.add_file("/in/b.wav".to_string(), info("/in/b.wav"));
    assert_eq!(s.files.len(), 2);
    assert_eq!(keys(&s), vec![(0, 1), (0, 2), (0, 3), (1, 1), (1, 2)]);
    assert!(s.contains_file("/in/b.wav"));
    assert_eq!(s.find_file("/in/b.wav"), Some(1));
    assert_eq!(s.find_file("/in/c.wav"), None);
    assert_eq!(s.input_paths(), vec!["/in/a.wav".to_string(), "/in/b.wav".to_string()]);
}

#[test]
fn remove_file_keeps_outputs() {
    let mut s = SharedState::init(None);
    s.add_file("/in/a.wav".to_string(), info("/in/a.wav"));
    s.add_file("/in/b.wav".to_string(), info("/in/b.wav"));
    s.remove_file("/in/a.wav".to_string());
    assert_eq!(s.input_paths(), vec!["/in/b.wav".to_string()]);
    assert_eq!(s.outputs.len(), 6);
    s.remove_file("/in/missing.wav".to_string());
    assert_eq!(s.files.len(), 1);
    s.clear_all_files();
    assert!(s.files.is_empty());
    assert!(s.outputs.is_empty());
}

#[test]
fn processors_are_added_and_removed_by_display_name() {
    let mut s = SharedState::init(None);
    s.deselect_all_processors();
    assert!(s.processor_pool.is_empty());
    s.add_processor("Reverse".to_string());
    s.add_processor("Reverse".to_string());
    s.add_processor("Fuzz".to_string());
    s.add_processor("No such processor".to_string());
    assert_eq!(s.processor_pool, vec![PermuteNodeName::Reverse, PermuteNodeName::Fuzz]);
    s.remove_processor("Reverse".to_string());
    assert_eq!(s.processor_pool, vec![PermuteNodeName::Fuzz]);
    s.remove_processor("Unknown".to_string());
    assert_eq!(s.processor_pool, vec![PermuteNodeName::Fuzz]);
    s.select_all_processors();
    assert_eq!(s.processor_pool, all_processors());
}

#[test]
fn settings_setters() {
    let mut s = SharedState::init(None);
    s.set_output("/out".to_string());
    s.set_normalised(false);
    s.set_trim_all(true);
    s.set_max_stretch(4.0f64.to_bits());
    s.set_input_trail(0.5f64.to_bits());
    s.set_output_trail(1.0f64.to_bits());
    s.set_permutations(5);
    s.set_depth(4);
    s.set_create_subdirectories(false);
    s.set_viewed_welcome(true);
    assert_eq!(s.output, "/out");
    assert!(!s.normalise_at_end);
    assert!(s.trim_all);
    assert_eq!(f64::from_bits(s.max_stretch_bits), 4.0);
    assert_eq!(f64::from_bits(s.input_trail_bits), 0.5);
    assert_eq!(f64::from_bits(s.output_trail_bits), 1.0);
    assert_eq!(s.permutations, 5);
    assert_eq!(s.permutation_depth, 4);
    assert!(!s.create_subdirectories);
    assert!(s.viewed_welcome);
    s.set_error("bad".to_string());
    assert_eq!(s.error, "bad");
    s.clear_error();
    assert_eq!(s.error, "");
}

#[test]
fn a_run_records_chains_progress_and_output_info() {
    let mut s = SharedState::init(None);
    s.add_file("/in/a.wav".to_string(), info("/in/a.wav"));
    assert!(s.begin_run());
    assert!(s.processing);
    assert!(s.outputs.is_empty());
    assert!(!s.begin_run());

    let p = permutation("/in/a.wav", 2, "/out/a_2.wav");
    s.add_output_progress(p, chain());
    assert_eq!(keys(&s), vec![(0, 2)]);
    let o = &s.outputs[0].1;
    assert_eq!(o.output, "/out/a_2.wav");
    assert_eq!(o.processors, vec![PermuteNodeName::Reverse, PermuteNodeName::Fuzz]);
    assert_eq!(o.progress, 0);

    let q = permutation("/in/a.wav", 1, "/out/a_1.wav");
    s.add_output_progress(q, vec![(PermuteNodeName::Trim, Vec::new())]);
    assert_eq!(keys(&s), vec![(0, 1), (0, 2)]);

    // A permutation of a file that is not an input changes nothing.
    s.add_output_progress(permutation("/in/other.wav", 1, "/out/x.wav"), chain());
    assert_eq!(s.outputs.len(), 2);

    s.update_output_progress(permutation("/in/a.wav", 2, "/out/a_2.wav"), 50);
    assert_eq!(s.outputs[1].1.progress, 50);
    assert_eq!(s.outputs[0].1.progress, 0);
    s.update_output_progress(permutation("/in/a.wav", 7, "/out/a_7.wav"), 80);
    assert_eq!(keys(&s), vec![(0, 1), (0, 2)]);

    assert!(s.has_output("/out/a_2.wav"));
    assert_eq!(s.find_output("/out/a_2.wav"), Some(1));
    assert!(!s.has_output("/out/none.wav"));

    s.update_output_audioinfo("/out/a_2.wav".to_string(), info("/out/a_2.wav"));
    assert_eq!(s.outputs[1].1.audio_info.path, "/out/a_2.wav");
    assert_eq!(s.outputs[1].1.permutation.output, "/out/a_2.wav");

    let mut replaced = info("/out/a_2.wav");
    replaced.duration_sec_bits = 3.0f64.to_bits();
    s.replace_output_audio_info("/out/a_2.wav".to_string(), replaced);
    assert_eq!(f64::from_bits(s.outputs[1].1.audio_info.duration_sec_bits), 3.0);

    s.set_finished();
    assert!(!s.processing);
}

#[test]
fn deleted_outputs_are_not_listed() {
    let mut s = SharedState::init(None);
    s.add_file("/in/a.wav".to_string(), info("/in/a.wav"));
    s.begin_run();
    s.add_output_progress(permutation("/in/a.wav", 1, "/out/1.wav"), chain());
    s.add_output_progress(permutation("/in/a.wav", 2, "/out/2.wav"), chain());
    s.add_output_progress(permutation("/in/a.wav", 3, "/out/3.wav"), chain());
    s.mark_output_deleted("/out/2.wav");
    let listed: Vec<String> = s.get_ordered_outputs().into_iter().map(|o| o.output).collect();
    assert_eq!(listed, vec!["/out/1.wav".to_string(), "/out/3.wav".to_string()]);
    let removed = s.mark_all_outputs_deleted();
    assert_eq!(removed, vec!["/out/1.wav".to_string(), "/out/2.wav".to_string(), "/out/3.wav".to_string()]);
    assert!(s.get_ordered_outputs().is_empty());
    assert_eq!(s.outputs.len(), 3);
}

#[test]
fn handle_update_drives_a_run() {
    let mut s = SharedState::init(None);
    s.add_file("/in/a.wav".to_string(), info("/in/a.wav"));
    s.begin_run();
    let started = PermuteUpdate::UpdatePermuteNodeStarted(
        permutation("/in/a.wav", 1, "/out/1.wav"),
        PermuteNodeName::Reverse,
        PermuteNodeEvent::NodeProcessStarted,
    );
    assert!(!s.handle_update(started, 0));
    assert!(s.outputs.is_empty());
    assert!(!s.handle_update(PermuteUpdate::UpdateSetProcessors(permutation("/in/a.wav", 1, "/out/1.wav"), chain()), 0));
    assert_eq!(s.outputs.len(), 1);
    let completed = PermuteUpdate::UpdatePermuteNodeCompleted(
        permutation("/in/a.wav", 1, "/out/1.wav"),
        PermuteNodeName::Reverse,
        PermuteNodeEvent::NodeProcessComplete,
    );
    assert!(!s.handle_update(completed, 50));
    assert_eq!(s.outputs[0].1.progress, 50);
    assert!(!s.handle_update(PermuteUpdate::AudioInfoGenerated("/out/1.wav".to_string(), info("/out/1.wav")), 0));
    assert_eq!(s.outputs[0].1.audio_info.name, "1.wav");
    assert!(s.processing);
    assert!(s.handle_update(PermuteUpdate::ProcessComplete(None), 0));
    assert!(!s.processing);
    assert_eq!(s.outputs.len(), 1);

    s.begin_run();
    assert!(s.handle_update(PermuteUpdate::Error("disk full".to_string()), 0));
    assert!(!s.processing);
    assert_eq!(s.error, "disk full");
}

#[test]
fn cancel_and_file_processing() {
    let mut s = SharedState::init(None);
    s.set_error("x".to_string());
    s.begin_file_process();
    assert!(s.processing);
    assert_eq!(s.error, "");
    s.cancel();
    assert!(!s.processing);
    assert_eq!(s.error, "Processing cancelled by user");
}

#[test]
fn scene_round_trip_keeps_settings() {
    let mut s = SharedState::init(Some(2));
    s.add_file("/in/a.wav".to_string(), info("/in/a.wav"));
    s.set_output("/out".to_string());
    s.set_depth(5);
    s.set_trim_all(true);
    s.remove_processor("Reverse".to_string());
    let saved = s.to_serializable();
    assert_eq!(saved.files.len(), 1);
    assert_eq!(saved.output, "/out");

    let mut t = SharedState::init(None);
    t.apply_serializable(saved);
    assert_eq!(t.output, s.output);
    assert_eq!(t.permutation_depth, 5);
    assert!(t.trim_all);
    assert_eq!(t.processor_pool, s.processor_pool);
    assert_eq!(t.processor_count, Some(2));
    assert_eq!(t.files.len(), 1);
    assert_eq!(t.files[0].path, "/in/a.wav");
    assert_eq!(t.output_trail_bits, s.output_trail_bits);
    assert_eq!(t.max_stretch_bits, s.max_stretch_bits);
}

#[test]
fn dtos_show_display_names_and_attributes() {
    let p = PermutationProcessor {
        name: PermuteNodeName::GranularTimeStretch,
        attributes: vec![ProcessorAttribute { key: "Grain".to_string(), value: "100".to_string() }],
    };
    let d = processor_dto(&p);
    assert_eq!(d.name, "Granular stretch");
    assert_eq!(d.attributes.len(), 1);
    assert_eq!(d.attributes[0].key, "Grain");
    assert_eq!(d.attributes[0].value, "100");
    let ds = processor_dtos(&vec![p, PermutationProcessor { name: PermuteNodeName::Reverse, attributes: Vec::new() }]);
    assert_eq!(ds.len(), 2);
    assert_eq!(ds[1].name, "Reverse");
    assert!(ds[1].attributes.is_empty());
    assert_eq!(
        display_names(&vec![PermuteNodeName::Fuzz, PermuteNodeName::HalfSpeed]),
        vec!["Fuzz".to_string(), "Half speed".to_string()]
    );
}

#[test]
fn state_dto_shows_settings_files_and_listed_outputs() {
    let mut s = SharedState::init(Some(-2));
    s.add_file("/in/a.wav".to_string(), info("/in/a.wav"));
    s.set_permutations(300);
    s.deselect_all_processors();
    s.add_processor("Fuzz".to_string());
    s.begin_run();
    let mut p = permutation("/in/a.wav", 1, "/out/1.wav");
    p.processors = vec![PermutationProcessor {
        name: PermuteNodeName::Fuzz,
        attributes: vec![ProcessorAttribute { key: "Gain".to_string(), value: "2".to_string() }],
    }];
    s.add_output_progress(p, chain());
    s.add_output_progress(permutation("/in/a.wav", 2, "/out/2.wav"), chain());
    s.mark_output_deleted("/out/2.wav");
    let dto = s.to_state_dto();
    assert_eq!(dto.processor_count, (-2i32) as u32);
    assert_eq!(dto.permutations, 300);
    assert_eq!(dto.permutation_depth, 2);
    assert!(dto.processing);
    assert_eq!(dto.processor_pool, vec!["Fuzz".to_string()]);
    assert_eq!(dto.all_processors.len(), s.all_processors.len());
    assert_eq!(dto.all_processors[0], get_name(s.all_processors[0]));
    assert_eq!(dto.files.len(), 1);
    assert_eq!(dto.files[0].path, "/in/a.wav");
    assert_eq!(dto.files[0].name, "a.wav");
    assert_eq!(f64::from_bits(dto.files[0].duration_sec_bits), 1.5);
    assert_eq!(dto.permutation_outputs.len(), 1);
    let o = &dto.permutation_outputs[0];
    assert_eq!(o.path, "/out/1.wav");
    assert!(!o.deleted);
    assert_eq!(o.processors.len(), 1);
    assert_eq!(o.processors[0].name, "Fuzz");
    assert_eq!(o.processors[0].attributes[0].key, "Gain");
    assert_eq!(f64::from_bits(dto.output_trail_bits), 2.0);
    assert_eq!(SharedState::init(None).to_state_dto().processor_count, 0);
}

fn get_name(p: PermuteNodeName) -> String {
    permute::display_node::get_processor_display_name(p)
}

#[test]
fn run_settings_come_from_the_state() {
    let mut s = SharedState::init(Some(3));
    s.add_file("/in/a.wav".to_string(), info("/in/a.wav"));
    s.add_file("/in/b.wav".to_string(), info("/in/b.wav"));
    s.set_output("/out".to_string());
    s.set_depth(4);
    let params = s.to_permute_params();
    assert_eq!(params.files, vec!["/in/a.wav".to_string(), "/in/b.wav".to_string()]);
    assert_eq!(params.output, "/out");
    assert_eq!(params.permutation_depth, 4);
    assert_eq!(params.permutations, 3);
    assert!(params.output_file_as_wav);
    assert!(params.create_subdirectories);
    assert!(params.constrain_length);
    assert_eq!(params.processor_count, Some(3));
    assert_eq!(params.processor_pool, all_processors());
    assert_eq!(f64::from_bits(params.max_stretch_bits), 17.0);
}

#[test]
fn planned_permutations() {
    let mut s = SharedState::init(None);
    s.add_file("/in/a.wav".to_string(), info("/in/a.wav"));
    let params = s.to_permute_params();
    let chain = vec![PermuteNodeName::Reverse, PermuteNodeName::Normalise];
    let p = plan_permutation(&params, &"/in/a.wav".to_string(), 2, &"/out/a_2.wav".to_string(), &chain, 44100);
    assert_eq!(p.file, "/in/a.wav");
    assert_eq!(p.permutation_index, 2);
    assert_eq!(p.output, "/out/a_2.wav");
    assert_eq!(p.original_sample_rate, 44100);
    assert_eq!(p.node_index, 0);
    assert_eq!(p.files, vec!["/in/a.wav".to_string()]);
    assert_eq!(p.processor_pool, all_processors());
    let names: Vec<PermuteNodeName> = p.processors.iter().map(|q| q.name).collect();
    assert_eq!(names, chain);
    assert!(p.processors.iter().all(|q| q.attributes.is_empty()));

    let single = single_process_permutation(&"/in/a.wav".to_string(), PermuteNodeName::Trim, 48000);
    assert_eq!(single.output, "/in/a.wav");
    assert_eq!(single.permutation_index, 0);
    assert_eq!(single.processor_pool, vec![PermuteNodeName::Trim]);
    assert_eq!(single.processors.len(), 1);
    assert_eq!(single.processors[0].name, PermuteNodeName::Trim);
    assert_eq!(single.files, vec!["/in/a.wav".to_string()]);
    assert_eq!(single.original_sample_rate, 48000);
}

#[test]
fn every_phaser_stage_count() {
    let counts: Vec<i32> = all_phaser_stages().iter().map(|s| s.stage_count()).collect();
    assert_eq!(counts, vec![1, 2, 3, 4, 6, 8, 12, 16, 20]);
    assert_eq!(all_phaser_stages()[0], PhaserStages::One);
}
