//! A run over the input files: its settings, the records of its outputs and
//! the messages it sends while it works.
use vstd::prelude::*;
use crate::audio_info::AudioInfo;
use crate::process::{
    strings_view, Permutation, PermutationProcessor, PermuteNodeEvent, PermuteNodeName, ProcessorAttribute,
};
use crate::state::SharedState;

verus! {

/// A message from a run: an error, a processor starting or completing, the
/// chain chosen for an output, the end of the run (with the permutations
/// made, unless it was cancelled) or what was learnt of a written output.
pub enum PermuteUpdate {
    Error(String),
    UpdatePermuteNodeStarted(Permutation, PermuteNodeName, PermuteNodeEvent),
    UpdatePermuteNodeCompleted(Permutation, PermuteNodeName, PermuteNodeEvent),
    UpdateSetProcessors(Permutation, Vec<(PermuteNodeName, Vec<ProcessorAttribute>)>),
    ProcessComplete(Option<Vec<Permutation>>),
    AudioInfoGenerated(String, AudioInfo),
}

/// The settings of a run. Float settings are the bit patterns of their
/// `f64` values; the channels a run reports and is cancelled through are
/// held by the caller.
pub struct PermuteFilesParams {
    pub files: Vec<String>,
    pub output: String,
    pub input_trail_bits: u64,
    pub output_trail_bits: u64,
    pub permutations: usize,
    pub permutation_depth: usize,
    pub processor_pool: Vec<PermuteNodeName>,
    pub normalise_at_end: bool,
    pub trim_all: bool,
    pub high_sample_rate: bool,
    pub processor_count: Option<i32>,
    pub output_file_as_wav: bool,
    pub create_subdirectories: bool,
    pub constrain_length: bool,
    pub max_stretch_bits: u64,
}

fn clone_strings(v: &Vec<String>) -> (r: Vec<String>)
    ensures
        strings_view(r@) == strings_view(v@),
{
    let mut r: Vec<String> = Vec::new();
    let mut i: usize = 0;
    while i < v.len()
        invariant
            i <= v@.len(),
            strings_view(r@) == strings_view(v@.subrange(0, i as int)),
        decreases v@.len() - i,
    {
        let ghost before = r@;
        r.push(v[i].clone());
        assert(strings_view(r@) =~= strings_view(before).push(v@[i as int]@));
        assert(strings_view(v@.subrange(0, i + 1)) =~= strings_view(v@.subrange(0, i as int)).push(v@[i as int]@));
        i = i + 1;
    }
    assert(v@.subrange(0, i as int) =~= v@);
    r
}

impl SharedState {
    /// The settings of a run made from the state: its input files in
    /// order, its settings, and outputs written as WAV files.
    pub fn to_permute_params(&self) -> (r: PermuteFilesParams)
        ensures
            r.files@.len() == self.files@.len(),
            forall|i: int| 0 <= i < r.files@.len() ==> #[trigger] r.files@[i]@ == self.files@[i].path@,
            r.output@ == self.output@,
            r.input_trail_bits == self.input_trail_bits,
            r.output_trail_bits == self.output_trail_bits,
            r.permutations == self.permutations,
            r.permutation_depth == self.permutation_depth,
            r.processor_pool@ == self.processor_pool@,
            r.normalise_at_end == self.normalise_at_end,
            r.trim_all == self.trim_all,
            r.high_sample_rate == self.high_sample_rate,
            r.processor_count == self.processor_count,
            r.output_file_as_wav,
            r.create_subdirectories == self.create_subdirectories,
            r.constrain_length == self.constrain_length,
            r.max_stretch_bits == self.max_stretch_bits,
    {
        let pool = self.processor_pool.clone();
        assert(pool@ =~= self.processor_pool@);
        PermuteFilesParams {
            files: self.input_paths(),
            constrain_length: self.constrain_length,
            high_sample_rate: self.high_sample_rate,
            input_trail_bits: self.input_trail_bits,
            normalise_at_end: self.normalise_at_end,
            trim_all: self.trim_all,
            output: self.output.clone(),
            output_trail_bits: self.output_trail_bits,
            permutation_depth: self.permutation_depth,
            permutations: self.permutations,
            processor_count: self.processor_count,
            processor_pool: pool,
            output_file_as_wav: true,
            create_subdirectories: self.create_subdirectories,
            max_stretch_bits: self.max_stretch_bits,
        }
    }
}

/// A chain of processors whose attributes are not chosen yet.
pub open spec fn unplanned_chain(names: Seq<PermuteNodeName>) -> Seq<(PermuteNodeName, Seq<(Seq<char>, Seq<char>)>)> {
    names.map_values(|n: PermuteNodeName| (n, Seq::<(Seq<char>, Seq<char>)>::empty()))
}

/// The record of output `permutation_index` of `file` in a run with
/// settings `params`, written to `output` through the processors `chain`,
/// before any of them has chosen its attributes; `sample_rate` is the
/// input file's.
pub fn plan_permutation(
    params: &PermuteFilesParams,
    file: &String,
    permutation_index: usize,
    output: &String,
    chain: &Vec<PermuteNodeName>,
    sample_rate: usize,
) -> (r: Permutation)
    ensures
        r@.file == file@,
        r@.permutation_index == permutation_index,
        r@.output == output@,
        r@.processor_pool == params.processor_pool@,
        r@.processors == unplanned_chain(chain@),
        r@.original_sample_rate == sample_rate,
        r@.node_index == 0,
        r@.files == strings_view(params.files@),
{
    let mut processors: Vec<PermutationProcessor> = Vec::new();
    let mut i: usize = 0;
    while i < chain.len()
        invariant
            i <= chain@.len(),
            crate::process::processors_view(processors@) == unplanned_chain(chain@.subrange(0, i as int)),
        decreases chain@.len() - i,
    {
        let ghost before = processors@;
        let p = PermutationProcessor { name: chain[i], attributes: Vec::new() };
        assert(p@.1 =~= Seq::<(Seq<char>, Seq<char>)>::empty());
        processors.push(p);
        assert(crate::process::processors_view(processors@) =~= crate::process::processors_view(before).push(p@));
        assert(unplanned_chain(chain@.subrange(0, i + 1)) =~= unplanned_chain(chain@.subrange(0, i as int)).push(p@));
        i = i + 1;
    }
    assert(chain@.subrange(0, i as int) =~= chain@);
    let pool = params.processor_pool.clone();
    assert(pool@ =~= params.processor_pool@);
    Permutation {
        file: file.clone(),
        permutation_index,
        output: output.clone(),
        processor_pool: pool,
        processors,
        original_sample_rate: sample_rate,
        node_index: 0,
        files: clone_strings(&params.files),
    }
}

/// The record of running the one processor `process` on `file` in place:
/// the output is the file itself, and the pool and chain are that
/// processor alone.
pub fn single_process_permutation(file: &String, process: PermuteNodeName, sample_rate: usize) -> (r: Permutation)
    ensures
        r@.file == file@,
        r@.permutation_index == 0,
        r@.output == file@,
        r@.processor_pool == seq![process],
        r@.processors == unplanned_chain(seq![process]),
        r@.original_sample_rate == sample_rate,
        r@.node_index == 0,
        r@.files == seq![file@],
{
    let p = PermutationProcessor { name: process, attributes: Vec::new() };
    assert(p@.1 =~= Seq::<(Seq<char>, Seq<char>)>::empty());
    let ghost pv = p@;
    let r = Permutation {
        file: file.clone(),
        node_index: 0,
        original_sample_rate: sample_rate,
        output: file.clone(),
        permutation_index: 0,
        processor_pool: vec![process],
        processors: vec![p],
        files: vec![file.clone()],
    };
    assert(r@.processor_pool =~= seq![process]);
    assert(r@.processors[0] == pv);
    assert(r@.processors =~= unplanned_chain(seq![process]));
    assert(r@.files =~= seq![file@]);
    r
}

} // verus!
