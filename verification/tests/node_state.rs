use permute::audio_info::AudioInfo;
use permute::node_state::SharedState;
use permute::permute_files::PermuteUpdate;
use permute::process::{all_processors, Permutation, PermuteNodeEvent, PermuteNodeName, ProcessorAttribute};

fn info(path: &str) -> AudioInfo {
    AudioInfo { path: path.to_string(), name: "n".to_string(), duration_sec_bits: 2.0f64.to_bits(), image: String::new() }
}

fn permutation(file: &str, index: usize, output: &str) -> Permutation {
    Permutation {
        file: file.to_string(),
        permutation_index: index,
        output: output.to_string(),
        processor_pool: Vec::new(),
        processors: Vec::new(),
        original_sample_rate: 44100,
        node_index: 0,
        files: Vec::new(),
    }
}

fn listed(s: &SharedState) -> Vec<(String, usize, bool)> {
    s.get_ordered_outputs()
        .into_iter()
        .map(|o| (o.permutation.file.clone(), o.permutation.permutation_index, o.deleted))
        .collect()
}

#[test]
fn node_init_defaults() {
    let s = SharedState::init(Some(2));
    assert_eq!(s.permutations, 3);
    assert_eq!(s.permutation_depth, 2);
    assert_eq!(s.processor_pool, all_processors());
    assert!(s.normalise_at_end);
    assert!(s.constrain_length);
    assert!(s.create_subdirectories);
    assert_eq!(f64::from_bits(s.output_trail_bits), 2.0);
    assert_eq!(s.processor_count, Some(2));
    assert!(s.outputs.is_empty());
}

#[test]
fn node_files_get_placeholders_listed_file_by_file() {
    let mut s = SharedState::init(None);
    s.add_file("/b.wav".to_string(), info("/b.wav"));
    s.set_permutations(2);
    s.add_file("/a.wav".to_string(), info("/a.wav"));
    s.add_file("/a.wav".to_string(), info("/a.wav"));
    assert_eq!(s.files.len(), 2);
    assert_eq!(s.outputs.len(), 5);
    // Outputs follow the files' order, and only numbers up to the current count.
    assert_eq!(
        listed(&s),
        vec![
            ("/b.wav".to_string(), 1, false),
            ("/b.wav".to_string(), 2, false),
            ("/a.wav".to_string(), 1, false),
            ("/a.wav".to_string(), 2, false),
        ]
    );
    s.remove_file("/b.wav".to_string());
    assert_eq!(listed(&s), vec![("/a.wav".to_string(), 1, false), ("/a.wav".to_string(), 2, false)]);
    assert_eq!(s.outputs.len(), 5);
    s.clear();
    assert!(s.outputs.is_empty());
}

#[test]
fn node_outputs_are_recorded_and_marked() {
    let mut s = SharedState::init(None);
    s.add_file("/a.wav".to_string(), info("/a.wav"));
    assert!(s.begin_run());
    assert!(!s.begin_run());
    s.add_output_progress(permutation("/a.wav", 2, "/out/a2.wav"), vec![PermuteNodeName::Fuzz]);
    assert_eq!(s.outputs.len(), 3);
    let o = &s.get_ordered_outputs()[1];
    assert_eq!(o.output, "/out/a2.wav");
    assert_eq!(o.processors, vec![PermuteNodeName::Fuzz]);
    s.update_output_progress(permutation("/a.wav", 2, "/out/a2.wav"), 40);
    assert_eq!(s.get_ordered_outputs()[1].progress, 40);
    s.update_output_progress(permutation("/z.wav", 2, "/out/z2.wav"), 40);
    assert_eq!(s.outputs.len(), 3);
    s.update_output_audioinfo("/out/a2.wav".to_string(), info("/out/a2.wav"));
    assert_eq!(s.get_ordered_outputs()[1].audio_info.path, "/out/a2.wav");
    // Deleting an output marks the file's first entry.
    s.mark_output_deleted("/a.wav");
    assert_eq!(listed(&s)[0], ("/a.wav".to_string(), 1, true));
    assert!(!listed(&s)[1].2);
    let paths = s.mark_all_outputs_deleted();
    assert_eq!(paths.len(), 3);
    assert!(paths.contains(&"/out/a2.wav".to_string()));
    assert!(listed(&s).iter().all(|o| o.2));
    s.set_finished();
    assert!(!s.processing);
}

#[test]
fn node_messages_update_the_state() {
    let mut s = SharedState::init(None);
    s.add_file("/a.wav".to_string(), info("/a.wav"));
    s.begin_run();
    let chain = vec![(PermuteNodeName::Reverse, Vec::<ProcessorAttribute>::new())];
    s.handle_update(PermuteUpdate::UpdateSetProcessors(permutation("/a.wav", 1, "/o1.wav"), chain), 0);
    assert_eq!(s.get_ordered_outputs()[0].processors, vec![PermuteNodeName::Reverse]);
    s.handle_update(
        PermuteUpdate::UpdatePermuteNodeCompleted(
            permutation("/a.wav", 1, "/o1.wav"),
            PermuteNodeName::Reverse,
            PermuteNodeEvent::NodeProcessComplete,
        ),
        100,
    );
    assert_eq!(s.get_ordered_outputs()[0].progress, 100);
    s.handle_update(PermuteUpdate::ProcessComplete(None), 0);
    assert!(!s.processing);
    s.begin_run();
    s.handle_update(PermuteUpdate::Error("bad".to_string()), 0);
    assert!(!s.processing);
    assert_eq!(s.error, "bad");
    s.cancel();
    assert_eq!(s.error, "Processing cancelled by user");
}

#[test]
fn node_processors_and_settings() {
    let mut s = SharedState::init(None);
    s.deselect_all_processors();
    s.add_processor("Fuzz".to_string());
    s.add_processor("Fuzz".to_string());
    s.add_processor("Reverse".to_string());
    assert_eq!(s.processor_pool, vec![PermuteNodeName::Fuzz, PermuteNodeName::Reverse]);
    s.remove_processor("Fuzz".to_string());
    assert_eq!(s.processor_pool, vec![PermuteNodeName::Reverse]);
    s.select_all_processors();
    assert_eq!(s.processor_pool, all_processors());
    s.set_output("/out".to_string());
    s.set_depth(4);
    s.set_normalised(false);
    s.set_trim_all(true);
    s.set_input_trail(1.0f64.to_bits());
    s.set_output_trail(3.0f64.to_bits());
    s.set_create_subdirectories(false);
    let saved = s.to_serializable();
    let mut t = SharedState::init(None);
    t.apply_serializable(saved);
    assert_eq!(t.output, "/out");
    assert_eq!(t.permutation_depth, 4);
    assert!(!t.normalise_at_end);
    assert!(t.trim_all);
    assert_eq!(f64::from_bits(t.input_trail_bits), 1.0);
    assert_eq!(f64::from_bits(t.output_trail_bits), 3.0);
    assert!(!t.create_subdirectories);
    s.set_error("x".to_string());
    assert_eq!(s.error, "x");
}

#[test]
fn node_view_shows_settings_files_and_outputs() {
    let mut s = SharedState::init(Some(-1));
    s.set_permutations(2);
    s.add_file("/a.wav".to_string(), info("/a.wav"));
    s.processor_pool = vec![PermuteNodeName::Fuzz, PermuteNodeName::Reverse];
    s.add_output_progress(permutation("/a.wav", 2, "/out/a2.wav"), vec![PermuteNodeName::Fuzz, PermuteNodeName::Reverse]);
    let v = s.to_view();
    assert_eq!(v.permutations, 2);
    assert_eq!(v.permutation_depth, 2);
    assert_eq!(v.processor_count, u32::MAX);
    assert!(v.normalise_at_end);
    assert!(!v.processing);
    assert_eq!(f64::from_bits(v.output_trail_bits), 2.0);
    assert_eq!(v.processor_pool, vec!["Fuzz".to_string(), "Reverse".to_string()]);
    assert_eq!(v.all_processors.len(), all_processors().len());
    assert_eq!(v.files.len(), 1);
    assert_eq!(v.files[0].path, "/a.wav");
    assert_eq!(v.files[0].name, "n");
    assert_eq!(v.permutation_outputs.len(), 2);
    assert_eq!(v.permutation_outputs[1].path, "/out/a2.wav");
    assert_eq!(v.permutation_outputs[1].processors, vec!["Fuzz".to_string(), "Reverse".to_string()]);
    assert!(v.permutation_outputs[0].processors.is_empty());
    let unset = SharedState::init(None).to_view();
    assert_eq!(unset.processor_count, 0);
}
