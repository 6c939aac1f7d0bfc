//! The state of the desktop front end as its user interface shows it.
use vstd::prelude::*;
use crate::audio_info::{AudioInfo, AudioInfoView};
use crate::display_node::display_name;
use crate::state::{
    display_names, outputs_view, processor_dto_view, processor_dtos, undeleted, OutputProgress, OutputProgressView,
    ProcessorDto, SharedState,
};

verus! {

/// An input file as the user interface shows it. The duration is the bit
/// pattern of its `f64` seconds.
pub struct PermutationInputDto {
    pub path: String,
    pub name: String,
    pub duration_sec_bits: u64,
    pub image: String,
}

/// An output as the user interface shows it. The duration is the bit
/// pattern of its `f64` seconds.
pub struct PermutationOutputDto {
    pub path: String,
    pub name: String,
    pub progress: i32,
    pub image: String,
    pub duration_sec_bits: u64,
    pub deleted: bool,
    pub processors: Vec<ProcessorDto>,
}

/// The whole state as the user interface shows it. Float settings are the
/// bit patterns of their `f64` values.
pub struct PermuteStateDto {
    pub output: String,
    pub error: String,
    pub processing: bool,
    pub high_sample_rate: bool,
    pub input_trail_bits: u64,
    pub output_trail_bits: u64,
    pub permutations: u32,
    pub permutation_depth: u32,
    pub processor_count: u32,
    pub processor_pool: Vec<String>,
    pub all_processors: Vec<String>,
    pub normalise_at_end: bool,
    pub trim_all: bool,
    pub create_subdirectories: bool,
    pub viewed_welcome: bool,
    pub max_stretch_bits: u64,
    pub files: Vec<PermutationInputDto>,
    pub permutation_outputs: Vec<PermutationOutputDto>,
}

/// `d` shows the input file `f`.
pub open spec fn input_dto_matches(d: PermutationInputDto, f: AudioInfoView) -> bool {
    &&& d.path@ == f.path
    &&& d.name@ == f.name
    &&& d.duration_sec_bits == f.duration_sec_bits
    &&& d.image@ == f.image
}

/// `d` shows the output `o`: its path, what is known of the written file,
/// its progress and its chain with display names and attributes.
pub open spec fn output_dto_matches(d: PermutationOutputDto, o: OutputProgressView) -> bool {
    &&& d.path@ == o.output
    &&& d.name@ == o.audio_info.name
    &&& d.progress == o.progress
    &&& d.image@ == o.audio_info.image
    &&& d.duration_sec_bits == o.audio_info.duration_sec_bits
    &&& d.deleted == o.deleted
    &&& d.processors@.len() == o.permutation.processors.len()
    &&& forall|i: int| 0 <= i < d.processors@.len() ==> #[trigger] processor_dto_view(d.processors@[i])
        == (display_name(o.permutation.processors[i].0), o.permutation.processors[i].1)
}

/// `names` are the display names of the processors `pool`.
pub open spec fn names_match(names: Seq<String>, pool: Seq<crate::process::PermuteNodeName>) -> bool {
    &&& names.len() == pool.len()
    &&& forall|i: int| 0 <= i < names.len() ==> #[trigger] names[i]@ == display_name(pool[i])
}

/// The number of processors per level as shown: 0 when unset.
pub open spec fn shown_processor_count(c: Option<i32>) -> u32 {
    match c {
        Some(n) => n as u32,
        None => 0,
    }
}

pub(crate) fn input_dto(f: &AudioInfo) -> (r: PermutationInputDto)
    ensures
        input_dto_matches(r, f@),
{
    PermutationInputDto {
        path: f.path.clone(),
        name: f.name.clone(),
        duration_sec_bits: f.duration_sec_bits,
        image: f.image.clone(),
    }
}

fn output_dto(o: &OutputProgress) -> (r: PermutationOutputDto)
    ensures
        output_dto_matches(r, o@),
{
    let processors = processor_dtos(&o.permutation.processors);
    let r = PermutationOutputDto {
        path: o.output.clone(),
        name: o.audio_info.name.clone(),
        progress: o.progress,
        image: o.audio_info.image.clone(),
        duration_sec_bits: o.audio_info.duration_sec_bits,
        deleted: o.deleted,
        processors,
    };
    assert forall|i: int| 0 <= i < r.processors@.len() implies #[trigger] processor_dto_view(r.processors@[i])
        == (display_name(o@.permutation.processors[i].0), o@.permutation.processors[i].1) by {
        assert(o@.permutation.processors[i] == o.permutation.processors@[i]@);
    }
    r
}

impl SharedState {
    /// The state as the user interface shows it: the settings, the display
    /// names of the pool and of every offered processor, the input files,
    /// and the outputs that are not deleted, in key order.
    pub fn to_state_dto(&self) -> (r: PermuteStateDto)
        ensures
            r.output@ == self.output@,
            r.error@ == self.error@,
            r.processing == self.processing,
            r.high_sample_rate == self.high_sample_rate,
            r.input_trail_bits == self.input_trail_bits,
            r.output_trail_bits == self.output_trail_bits,
            r.permutations == self.permutations as u32,
            r.permutation_depth == self.permutation_depth as u32,
            r.processor_count == shown_processor_count(self.processor_count),
            names_match(r.processor_pool@, self.processor_pool@),
            names_match(r.all_processors@, self.all_processors@),
            r.normalise_at_end == self.normalise_at_end,
            r.trim_all == self.trim_all,
            r.create_subdirectories == self.create_subdirectories,
            r.viewed_welcome == self.viewed_welcome,
            r.max_stretch_bits == self.max_stretch_bits,
            r.files@.len() == self.files_view().len(),
            forall|i: int| 0 <= i < r.files@.len() ==> #[trigger] input_dto_matches(r.files@[i], self.files_view()[i]),
            r.permutation_outputs@.len() == undeleted(self.entries()).len(),
            forall|i: int| 0 <= i < r.permutation_outputs@.len() ==>
                #[trigger] output_dto_matches(r.permutation_outputs@[i], undeleted(self.entries())[i]),
    {
        let mut files: Vec<PermutationInputDto> = Vec::new();
        let mut i: usize = 0;
        while i < self.files.len()
            invariant
                i <= self.files@.len(),
                files@.len() == i,
                forall|k: int| 0 <= k < i ==> #[trigger] input_dto_matches(files@[k], self.files_view()[k]),
            decreases self.files@.len() - i,
        {
            files.push(input_dto(&self.files[i]));
            i = i + 1;
        }
        let outputs = self.get_ordered_outputs();
        let mut permutation_outputs: Vec<PermutationOutputDto> = Vec::new();
        let mut j: usize = 0;
        while j < outputs.len()
            invariant
                j <= outputs@.len(),
                outputs_view(outputs@) == undeleted(self.entries()),
                permutation_outputs@.len() == j,
                forall|k: int| 0 <= k < j ==>
                    #[trigger] output_dto_matches(permutation_outputs@[k], undeleted(self.entries())[k]),
            decreases outputs@.len() - j,
        {
            assert(outputs_view(outputs@)[j as int] == outputs@[j as int]@);
            permutation_outputs.push(output_dto(&outputs[j]));
            j = j + 1;
        }
        let processor_count: u32 = match self.processor_count {
            Some(n) => n as u32,
            None => 0,
        };
        PermuteStateDto {
            output: self.output.clone(),
            error: self.error.clone(),
            processing: self.processing,
            high_sample_rate: self.high_sample_rate,
            input_trail_bits: self.input_trail_bits,
            output_trail_bits: self.output_trail_bits,
            permutations: self.permutations as u32,
            permutation_depth: self.permutation_depth as u32,
            processor_count,
            processor_pool: display_names(&self.processor_pool),
            all_processors: display_names(&self.all_processors),
            normalise_at_end: self.normalise_at_end,
            trim_all: self.trim_all,
            create_subdirectories: self.create_subdirectories,
            viewed_welcome: self.viewed_welcome,
            max_stretch_bits: self.max_stretch_bits,
            files,
            permutation_outputs,
        }
    }
}

} // verus!
