//! The state of the Node front end as its user interface receives it.
use vstd::prelude::*;
use crate::node_state::{ordered_outputs, OutputProgress, OutputProgressView, SharedState};
use crate::state::display_names;
use crate::state_dto::{input_dto, input_dto_matches, names_match, shown_processor_count, PermutationInputDto};

verus! {

/// An output as the Node user interface shows it: where it is written,
/// what is known of the written file, its progress, and the display names
/// of its chain. The duration is the bit pattern of its `f64` seconds.
pub struct NodeOutputView {
    pub path: String,
    pub name: String,
    pub image: String,
    pub progress: i32,
    pub duration_sec_bits: u64,
    pub processors: Vec<String>,
}

/// The whole Node state as its user interface receives it. Float settings
/// are the bit patterns of their `f64` values.
pub struct NodeStateView {
    pub output: String,
    pub error: String,
    pub processing: bool,
    pub high_sample_rate: bool,
    pub input_trail_bits: u64,
    pub output_trail_bits: u64,
    pub permutations: u32,
    pub permutation_depth: u32,
    pub processor_count: u32,
    pub normalise_at_end: bool,
    pub files: Vec<PermutationInputDto>,
    pub processor_pool: Vec<String>,
    pub all_processors: Vec<String>,
    pub permutation_outputs: Vec<NodeOutputView>,
}

/// `d` shows the output `o`.
pub open spec fn node_output_matches(d: NodeOutputView, o: OutputProgressView) -> bool {
    &&& d.path@ == o.output
    &&& d.name@ == o.audio_info.name
    &&& d.image@ == o.audio_info.image
    &&& d.progress == o.progress
    &&& d.duration_sec_bits == o.audio_info.duration_sec_bits
    &&& names_match(d.processors@, o.processors)
}

fn node_output(o: &OutputProgress) -> (r: NodeOutputView)
    ensures
        node_output_matches(r, o@),
{
    NodeOutputView {
        path: o.output.clone(),
        name: o.audio_info.name.clone(),
        image: o.audio_info.image.clone(),
        progress: o.progress,
        duration_sec_bits: o.audio_info.duration_sec_bits,
        processors: display_names(&o.processors),
    }
}

impl SharedState {
    /// The state as the Node user interface receives it: the settings, the
    /// display names of the pool and of every offered processor, the input
    /// files, and the outputs of the input files, file by file and by
    /// number, each with the display names of its chain.
    pub fn to_view(&self) -> (r: NodeStateView)
        requires
            self.wf(),
        ensures
            r.output@ == self.output@,
            r.error@ == self.error@,
            r.processing == self.processing,
            r.high_sample_rate == self.high_sample_rate,
            r.input_trail_bits == self.input_trail_bits,
            r.output_trail_bits == self.output_trail_bits,
            r.permutations == self.permutations as u32,
            r.permutation_depth == self.permutation_depth as u32,
            r.processor_count == shown_processor_count(self.processor_count),
            r.normalise_at_end == self.normalise_at_end,
            names_match(r.processor_pool@, self.processor_pool@),
            names_match(r.all_processors@, self.all_processors@),
            r.files@.len() == self.files_view().len(),
            forall|i: int| 0 <= i < r.files@.len() ==> #[trigger] input_dto_matches(r.files@[i], self.files_view()[i]),
            r.permutation_outputs@.len()
                == ordered_outputs(self.table(), self.files_view(), self.files@.len() as nat, self.permutations as nat).len(),
            forall|i: int| 0 <= i < r.permutation_outputs@.len() ==> #[trigger] node_output_matches(
                r.permutation_outputs@[i],
                ordered_outputs(self.table(), self.files_view(), self.files@.len() as nat, self.permutations as nat)[i],
            ),
    {
        let mut files: Vec<PermutationInputDto> = Vec::new();
        let mut i: usize = 0;
        while i < self.files.len()
            invariant
                i <= self.files@.len(),
                files@.len() == i,
                forall|k: int| 0 <= k < i ==> #[trigger] input_dto_matches(files@[k], self.files_view()[k]),
            decreases self.files@.len() - i,
        {
            files.push(input_dto(&self.files[i]));
            i = i + 1;
        }
        let outputs = self.get_ordered_outputs();
        let ghost expected = ordered_outputs(self.table(), self.files_view(), self.files@.len() as nat, self.permutations as nat);
        let mut permutation_outputs: Vec<NodeOutputView> = Vec::new();
        let mut j: usize = 0;
        while j < outputs.len()
            invariant
                j <= outputs@.len(),
                crate::node_state::outputs_view(outputs@) == expected,
                permutation_outputs@.len() == j,
                forall|k: int| 0 <= k < j ==> #[trigger] node_output_matches(permutation_outputs@[k], expected[k]),
            decreases outputs@.len() - j,
        {
            assert(crate::node_state::outputs_view(outputs@)[j as int] == outputs@[j as int]@);
            permutation_outputs.push(node_output(&outputs[j]));
            j = j + 1;
        }
        let processor_count: u32 = match self.processor_count {
            Some(n) => n as u32,
            None => 0,
        };
        NodeStateView {
            output: self.output.clone(),
            error: self.error.clone(),
            processing: self.processing,
            high_sample_rate: self.high_sample_rate,
            input_trail_bits: self.input_trail_bits,
            output_trail_bits: self.output_trail_bits,
            permutations: self.permutations as u32,
            permutation_depth: self.permutation_depth as u32,
            processor_count,
            normalise_at_end: self.normalise_at_end,
            files,
            processor_pool: display_names(&self.processor_pool),
            all_processors: display_names(&self.all_processors),
            permutation_outputs,
        }
    }
}

} // verus!
