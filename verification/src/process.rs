//! The processor catalogue and the record of one permutation of one file.
use vstd::prelude::*;

verus! {

/// One step of processing that a permutation chain can hold.
#[derive(Debug, Clone, Copy, PartialEq, Eq, Hash, Structural)]
pub enum PermuteNodeName {
    GranularTimeStretch,
    Fuzz,
    Saturate,
    Reverse,
    Chorus,
    Phaser,
    DoubleSpeed,
    RandomPitch,
    Flutter,
    Flange,
    HalfSpeed,
    MetallicDelay,
    RhythmicDelay,
    Reverb,
    Wow,
    Tremolo,
    Lazer,
    Normalise,
    Trim,
    SampleRateConversionHigh,
    SampleRateConversionOriginal,
    Filter,
    OscillatingFilter,
    LineFilter,
    CrossGain,
    CrossFilter,
    CrossDistort,
    BlurStretch,
}

/// Whether a processing step has started or completed.
#[derive(Debug, Clone, Copy, PartialEq, Eq, Hash, Structural)]
pub enum PermuteNodeEvent {
    NodeProcessStarted,
    NodeProcessComplete,
}

/// A named parameter that a processor chose, rendered as text.
#[derive(Debug)]
pub struct ProcessorAttribute {
    pub key: String,
    pub value: String,
}

impl View for ProcessorAttribute {
    type V = (Seq<char>, Seq<char>);

    open spec fn view(&self) -> (Seq<char>, Seq<char>) {
        (self.key@, self.value@)
    }
}

impl Clone for ProcessorAttribute {
    fn clone(&self) -> (r: Self)
        ensures
            r == *self,
    {
        ProcessorAttribute { key: self.key.clone(), value: self.value.clone() }
    }
}

/// The views of a sequence of attributes.
pub open spec fn attributes_view(s: Seq<ProcessorAttribute>) -> Seq<(Seq<char>, Seq<char>)> {
    s.map_values(|a: ProcessorAttribute| a@)
}

/// The views of a sequence of strings.
pub open spec fn strings_view(v: Seq<String>) -> Seq<Seq<char>> {
    v.map_values(|s: String| s@)
}

/// One processor of a permutation chain with the attributes it chose.
#[derive(Debug)]
pub struct PermutationProcessor {
    pub name: PermuteNodeName,
    pub attributes: Vec<ProcessorAttribute>,
}

impl View for PermutationProcessor {
    type V = (PermuteNodeName, Seq<(Seq<char>, Seq<char>)>);

    open spec fn view(&self) -> (PermuteNodeName, Seq<(Seq<char>, Seq<char>)>) {
        (self.name, attributes_view(self.attributes@))
    }
}

impl Clone for PermutationProcessor {
    fn clone(&self) -> (r: Self)
        ensures
            r@ == self@,
    {
        let attributes = self.attributes.clone();
        assert(attributes@ =~= self.attributes@);
        assert(attributes_view(attributes@) =~= attributes_view(self.attributes@));
        PermutationProcessor { name: self.name, attributes }
    }
}

/// The views of a sequence of processors.
pub open spec fn processors_view(s: Seq<PermutationProcessor>) -> Seq<(PermuteNodeName, Seq<(Seq<char>, Seq<char>)>)> {
    s.map_values(|p: PermutationProcessor| p@)
}

/// One output of one input file: which file, which output, and the chain
/// of processors that produces it.
#[derive(Debug)]
pub struct Permutation {
    pub file: String,
    pub permutation_index: usize,
    pub output: String,
    pub processor_pool: Vec<PermuteNodeName>,
    pub processors: Vec<PermutationProcessor>,
    pub original_sample_rate: usize,
    pub node_index: usize,
    pub files: Vec<String>,
}

/// The contents of a [`Permutation`], with its vectors taken as sequences.
pub struct PermutationView {
    pub file: Seq<char>,
    pub permutation_index: usize,
    pub output: Seq<char>,
    pub processor_pool: Seq<PermuteNodeName>,
    pub processors: Seq<(PermuteNodeName, Seq<(Seq<char>, Seq<char>)>)>,
    pub original_sample_rate: usize,
    pub node_index: usize,
    pub files: Seq<Seq<char>>,
}

impl View for Permutation {
    type V = PermutationView;

    open spec fn view(&self) -> PermutationView {
        PermutationView {
            file: self.file@,
            permutation_index: self.permutation_index,
            output: self.output@,
            processor_pool: self.processor_pool@,
            processors: processors_view(self.processors@),
            original_sample_rate: self.original_sample_rate,
            node_index: self.node_index,
            files: strings_view(self.files@),
        }
    }
}

/// Clones a vector of processors, keeping each one's contents.
pub fn clone_processors(v: &Vec<PermutationProcessor>) -> (r: Vec<PermutationProcessor>)
    ensures
        processors_view(r@) == processors_view(v@),
{
    let r = v.clone();
    assert forall|i: int| 0 <= i < r@.len() implies #[trigger] r@[i]@ == v@[i]@ by {
        assert(cloned::<PermutationProcessor>(v[i], r[i]));
    }
    assert(processors_view(r@) =~= processors_view(v@));
    r
}

impl Clone for Permutation {
    fn clone(&self) -> (r: Self)
        ensures
            r@ == self@,
    {
        let processor_pool = self.processor_pool.clone();
        assert(processor_pool@ =~= self.processor_pool@);
        let processors = clone_processors(&self.processors);
        let files = self.files.clone();
        assert(files@ =~= self.files@);
        assert(strings_view(files@) =~= strings_view(self.files@));
        Permutation {
            file: self.file.clone(),
            permutation_index: self.permutation_index,
            output: self.output.clone(),
            processor_pool,
            processors,
            original_sample_rate: self.original_sample_rate,
            node_index: self.node_index,
            files,
        }
    }
}

/// The processors offered to users, in the order they are offered.
/// Normalise, Trim, the sample rate conversions and CrossDistort are not
/// among them.
pub open spec fn all_processors_spec() -> Seq<PermuteNodeName> {
    seq![
        PermuteNodeName::GranularTimeStretch,
        PermuteNodeName::Fuzz,
        PermuteNodeName::Saturate,
        PermuteNodeName::Reverse,
        PermuteNodeName::Chorus,
        PermuteNodeName::Phaser,
        PermuteNodeName::DoubleSpeed,
        PermuteNodeName::RandomPitch,
        PermuteNodeName::Flutter,
        PermuteNodeName::Flange,
        PermuteNodeName::HalfSpeed,
        PermuteNodeName::MetallicDelay,
        PermuteNodeName::RhythmicDelay,
        PermuteNodeName::Reverb,
        PermuteNodeName::Wow,
        PermuteNodeName::Tremolo,
        PermuteNodeName::Lazer,
        PermuteNodeName::Filter,
        PermuteNodeName::OscillatingFilter,
        PermuteNodeName::LineFilter,
        PermuteNodeName::CrossGain,
        PermuteNodeName::CrossFilter,
        PermuteNodeName::BlurStretch,
    ]
}

/// The processors offered to users (the catalogue's public list).
pub fn all_processors() -> (r: Vec<PermuteNodeName>)
    ensures
        r@ == all_processors_spec(),
{
    let r = vec![
        PermuteNodeName::GranularTimeStretch,
        PermuteNodeName::Fuzz,
        PermuteNodeName::Saturate,
        PermuteNodeName::Reverse,
        PermuteNodeName::Chorus,
        PermuteNodeName::Phaser,
        PermuteNodeName::DoubleSpeed,
        PermuteNodeName::RandomPitch,
        PermuteNodeName::Flutter,
        PermuteNodeName::Flange,
        PermuteNodeName::HalfSpeed,
        PermuteNodeName::MetallicDelay,
        PermuteNodeName::RhythmicDelay,
        PermuteNodeName::Reverb,
        PermuteNodeName::Wow,
        PermuteNodeName::Tremolo,
        PermuteNodeName::Lazer,
        PermuteNodeName::Filter,
        PermuteNodeName::OscillatingFilter,
        PermuteNodeName::LineFilter,
        PermuteNodeName::CrossGain,
        PermuteNodeName::CrossFilter,
        PermuteNodeName::BlurStretch,
    ];
    assert(r@ =~= all_processors_spec());
    r
}

} // verus!
