//! The state of the desktop front end: its settings, the input files, the
//! processor pool and the progress of every output of a run.
use vstd::prelude::*;
use crate::audio_info::{audio_infos_view, empty_audio_info, AudioInfo, AudioInfoView};
use crate::display_node::{display_name, get_processor_display_name, get_processor_from_display_name, processor_from_display};
use crate::output_table::{
    contains_key, find_key_position, has_key_at, insert_sorted, key_position, keys_sorted, lemma_less_run,
    lemma_sorted_insert_lookup, lemma_sorted_insert_sorted, less_run, sorted_insert, value_of,
};
use crate::process::{
    all_processors, all_processors_spec, Permutation, PermutationProcessor,
    PermutationView, PermuteNodeName, ProcessorAttribute,
};
use crate::text::str_equal;
use crate::permute_files::PermuteUpdate;

verus! {

/// The progress of one output of a run.
#[derive(Debug)]
pub struct OutputProgress {
    pub output: String,
    pub progress: i32,
    pub permutation: Permutation,
    pub processors: Vec<PermuteNodeName>,
    pub audio_info: AudioInfo,
    pub deleted: bool,
    pub source_file: String,
}

/// The contents of an [`OutputProgress`].
pub struct OutputProgressView {
    pub output: Seq<char>,
    pub progress: i32,
    pub permutation: PermutationView,
    pub processors: Seq<PermuteNodeName>,
    pub audio_info: AudioInfoView,
    pub deleted: bool,
    pub source_file: Seq<char>,
}

impl View for OutputProgress {
    type V = OutputProgressView;

    open spec fn view(&self) -> OutputProgressView {
        OutputProgressView {
            output: self.output@,
            progress: self.progress,
            permutation: self.permutation@,
            processors: self.processors@,
            audio_info: self.audio_info@,
            deleted: self.deleted,
            source_file: self.source_file@,
        }
    }
}

impl Clone for OutputProgress {
    fn clone(&self) -> (r: Self)
        ensures
            r@ == self@,
    {
        let processors = self.processors.clone();
        assert(processors@ =~= self.processors@);
        OutputProgress {
            output: self.output.clone(),
            progress: self.progress,
            permutation: self.permutation.clone(),
            processors,
            audio_info: self.audio_info.clone(),
            deleted: self.deleted,
            source_file: self.source_file.clone(),
        }
    }
}

/// The views of the entries of an output table.
pub open spec fn entries_view(s: Seq<((usize, usize), OutputProgress)>) -> Seq<((usize, usize), OutputProgressView)> {
    s.map_values(|e: ((usize, usize), OutputProgress)| (e.0, e.1@))
}

/// The views of a sequence of outputs.
pub open spec fn outputs_view(s: Seq<OutputProgress>) -> Seq<OutputProgressView> {
    s.map_values(|o: OutputProgress| o@)
}

proof fn lemma_less_run_view(s: Seq<((usize, usize), OutputProgress)>, k: (usize, usize), i: int)
    requires
        0 <= i <= s.len(),
    ensures
        less_run(entries_view(s), k, i) == less_run(s, k, i),
    decreases s.len() - i,
{
    if i < s.len() {
        assert(entries_view(s)[i].0 == s[i].0);
        lemma_less_run_view(s, k, i + 1);
    }
}

/// Storing in the table commutes with taking its view.
proof fn lemma_sorted_insert_view(s: Seq<((usize, usize), OutputProgress)>, k: (usize, usize), v: OutputProgress)
    ensures
        entries_view(sorted_insert(s, k, v)) == sorted_insert(entries_view(s), k, v@),
        keys_sorted(s) == keys_sorted(entries_view(s)),
{
    lemma_less_run_view(s, k, 0);
    lemma_less_run(s, k, 0);
    let p = key_position(s, k);
    if p < s.len() {
        assert(entries_view(s)[p].0 == s[p].0);
    }
    assert(entries_view(sorted_insert(s, k, v)) =~= sorted_insert(entries_view(s), k, v@));
    assert(keys_sorted(s) == keys_sorted(entries_view(s))) by {
        if keys_sorted(s) {
            assert forall|i: int, j: int| 0 <= i < j < entries_view(s).len() implies
                crate::output_table::key_lt(#[trigger] entries_view(s)[i].0, #[trigger] entries_view(s)[j].0) by {
                assert(entries_view(s)[i].0 == s[i].0 && entries_view(s)[j].0 == s[j].0);
            }
        }
        if keys_sorted(entries_view(s)) {
            assert forall|i: int, j: int| 0 <= i < j < s.len() implies
                crate::output_table::key_lt(#[trigger] s[i].0, #[trigger] s[j].0) by {
                assert(entries_view(s)[i].0 == s[i].0 && entries_view(s)[j].0 == s[j].0);
            }
        }
    }
}

/// The settings of the front end, which a run is made from.
pub struct StateConfig {
    pub output: Seq<char>,
    pub input_trail_bits: u64,
    pub output_trail_bits: u64,
    pub permutations: usize,
    pub permutation_depth: usize,
    pub processor_pool: Seq<PermuteNodeName>,
    pub all_processors: Seq<PermuteNodeName>,
    pub normalise_at_end: bool,
    pub trim_all: bool,
    pub high_sample_rate: bool,
    pub processor_count: Option<i32>,
    pub constrain_length: bool,
    pub create_subdirectories: bool,
    pub viewed_welcome: bool,
    pub max_stretch_bits: u64,
}

/// Bit pattern of the `f64` 2.0: the default output trail in seconds.
pub const DEFAULT_OUTPUT_TRAIL_BITS: u64 = 0x4000_0000_0000_0000;

/// Bit pattern of the `f64` 17.0: the default largest stretch of a chain.
pub const DEFAULT_MAX_STRETCH_BITS: u64 = 0x4031_0000_0000_0000;

/// The message left when the user cancels a run.
pub open spec fn cancelled_message() -> Seq<char> {
    "Processing cancelled by user"@
}

/// The state of the front end. Float settings are held as the bit
/// patterns of their `f64` values, which this library only stores.
#[derive(Debug)]
pub struct SharedState {
    pub output: String,
    pub error: String,
    pub input_trail_bits: u64,
    pub output_trail_bits: u64,
    pub permutations: usize,
    pub permutation_depth: usize,
    pub processor_pool: Vec<PermuteNodeName>,
    pub all_processors: Vec<PermuteNodeName>,
    pub normalise_at_end: bool,
    pub trim_all: bool,
    pub high_sample_rate: bool,
    pub processor_count: Option<i32>,
    pub constrain_length: bool,
    pub create_subdirectories: bool,
    pub viewed_welcome: bool,
    pub max_stretch_bits: u64,
    pub processing: bool,
    pub outputs: Vec<((usize, usize), OutputProgress)>,
    pub files: Vec<AudioInfo>,
}

impl SharedState {
    /// The settings.
    pub open spec fn config(&self) -> StateConfig {
        StateConfig {
            output: self.output@,
            input_trail_bits: self.input_trail_bits,
            output_trail_bits: self.output_trail_bits,
            permutations: self.permutations,
            permutation_depth: self.permutation_depth,
            processor_pool: self.processor_pool@,
            all_processors: self.all_processors@,
            normalise_at_end: self.normalise_at_end,
            trim_all: self.trim_all,
            high_sample_rate: self.high_sample_rate,
            processor_count: self.processor_count,
            constrain_length: self.constrain_length,
            create_subdirectories: self.create_subdirectories,
            viewed_welcome: self.viewed_welcome,
            max_stretch_bits: self.max_stretch_bits,
        }
    }

    /// The outputs, keyed by (input file index, permutation index), in
    /// increasing key order.
    pub open spec fn entries(&self) -> Seq<((usize, usize), OutputProgressView)> {
        entries_view(self.outputs@)
    }

    /// The input files.
    pub open spec fn files_view(&self) -> Seq<AudioInfoView> {
        audio_infos_view(self.files@)
    }

    /// The state's invariant: the output table is sorted by key.
    pub open spec fn wf(&self) -> bool {
        keys_sorted(self.outputs@)
    }

    /// The output table is in increasing key order, so each key occurs
    /// once.
    pub proof fn lemma_entries_sorted(&self)
        requires
            self.wf(),
        ensures
            keys_sorted(self.entries()),
    {
        let s = self.outputs@;
        assert forall|i: int, j: int| 0 <= i < j < self.entries().len() implies
            crate::output_table::key_lt(#[trigger] self.entries()[i].0, #[trigger] self.entries()[j].0) by {
            assert(self.entries()[i].0 == s[i].0 && self.entries()[j].0 == s[j].0);
        }
    }

    /// The initial state: no files, no outputs, every processor in the
    /// pool, three outputs per file of depth two, normalised, an output
    /// trail of two seconds and a largest stretch of 17. `processor_count`
    /// is the number of processors per level, which the caller derives
    /// from the machine's parallelism.
    pub fn init(processor_count: Option<i32>) -> (r: Self)
        ensures
            r.wf(),
            r.config() == (StateConfig {
                output: Seq::empty(),
                input_trail_bits: 0,
                output_trail_bits: DEFAULT_OUTPUT_TRAIL_BITS,
                permutations: 3,
                permutation_depth: 2,
                processor_pool: all_processors_spec(),
                all_processors: all_processors_spec(),
                normalise_at_end: true,
                trim_all: false,
                high_sample_rate: false,
                processor_count,
                constrain_length: true,
                create_subdirectories: true,
                viewed_welcome: false,
                max_stretch_bits: DEFAULT_MAX_STRETCH_BITS,
            }),
            r.error@ == Seq::<char>::empty(),
            !r.processing,
            r.files@.len() == 0,
            r.entries().len() == 0,
    {
        let r = SharedState {
            high_sample_rate: false,
            input_trail_bits: 0,
            normalise_at_end: true,
            trim_all: false,
            error: String::new(),
            output: String::new(),
            output_trail_bits: DEFAULT_OUTPUT_TRAIL_BITS,
            permutation_depth: 2,
            permutations: 3,
            processor_count,
            processor_pool: all_processors(),
            all_processors: all_processors(),
            processing: false,
            outputs: Vec::new(),
            files: Vec::new(),
            constrain_length: true,
            create_subdirectories: true,
            viewed_welcome: false,
            max_stretch_bits: DEFAULT_MAX_STRETCH_BITS,
        };
        assert(r.entries() =~= Seq::<((usize, usize), OutputProgressView)>::empty());
        r
    }
}

/// Everything but the settings is unchanged: the error, whether a run is
/// going on, the files and the outputs.
pub open spec fn rest_same(a: SharedState, b: SharedState) -> bool {
    &&& a.error@ == b.error@
    &&& a.processing == b.processing
    &&& a.files_view() == b.files_view()
    &&& a.entries() == b.entries()
}

/// The processors of a pool other than `p`.
pub open spec fn pool_without(pool: Seq<PermuteNodeName>, p: PermuteNodeName) -> Seq<PermuteNodeName> {
    pool.filter(|q: PermuteNodeName| q != p)
}

/// The pool after adding the processor with display name `name`.
pub open spec fn pool_after_add(pool: Seq<PermuteNodeName>, name: Seq<char>) -> Seq<PermuteNodeName> {
    match processor_from_display(name) {
        Some(p) => if pool.contains(p) { pool } else { pool.push(p) },
        None => pool,
    }
}

/// The pool after removing the processor with display name `name`.
pub open spec fn pool_after_remove(pool: Seq<PermuteNodeName>, name: Seq<char>) -> Seq<PermuteNodeName> {
    match processor_from_display(name) {
        Some(p) => pool_without(pool, p),
        None => pool,
    }
}

/// The files other than those at `path`.
pub open spec fn files_without(files: Seq<AudioInfoView>, path: Seq<char>) -> Seq<AudioInfoView> {
    files.filter(|f: AudioInfoView| f.path != path)
}

impl SharedState {
    /// Clears the error message.
    pub fn clear_error(&mut self)
        requires
            old(self).wf(),
        ensures
            final(self).wf(),
            final(self).error@ == Seq::<char>::empty(),
            final(self).config() == old(self).config(),
            final(self).processing == old(self).processing,
            final(self).files_view() == old(self).files_view(),
            final(self).entries() == old(self).entries(),
    {
        self.error = String::new();
    }

    /// Sets the error message.
    pub fn set_error(&mut self, error: String)
        requires
            old(self).wf(),
        ensures
            final(self).wf(),
            final(self).error@ == error@,
            final(self).config() == old(self).config(),
            final(self).processing == old(self).processing,
            final(self).files_view() == old(self).files_view(),
            final(self).entries() == old(self).entries(),
    {
        self.error = error;
    }

    /// Sets the output directory, clearing the error.
    pub fn set_output(&mut self, output: String)
        requires
            old(self).wf(),
        ensures
            final(self).wf(),
            final(self).config() == (StateConfig { output: output@, ..old(self).config() }),
            final(self).error@ == Seq::<char>::empty(),
            final(self).processing == old(self).processing,
            final(self).files_view() == old(self).files_view(),
            final(self).entries() == old(self).entries(),
    {
        self.clear_error();
        self.output = output;
    }

    /// Whether to normalise at the end of each chain.
    pub fn set_normalised(&mut self, normalised: bool)
        requires
            old(self).wf(),
        ensures
            final(self).wf(),
            final(self).config() == (StateConfig { normalise_at_end: normalised, ..old(self).config() }),
            rest_same(*final(self), *old(self)),
    {
        self.normalise_at_end = normalised;
    }

    /// Whether to trim the silence at the end of each chain.
    pub fn set_trim_all(&mut self, trim_all: bool)
        requires
            old(self).wf(),
        ensures
            final(self).wf(),
            final(self).config() == (StateConfig { trim_all, ..old(self).config() }),
            rest_same(*final(self), *old(self)),
    {
        self.trim_all = trim_all;
    }

    /// The largest stretch a chain may reach, as an `f64` bit pattern.
    pub fn set_max_stretch(&mut self, max_stretch_bits: u64)
        requires
            old(self).wf(),
        ensures
            final(self).wf(),
            final(self).config() == (StateConfig { max_stretch_bits, ..old(self).config() }),
            rest_same(*final(self), *old(self)),
    {
        self.max_stretch_bits = max_stretch_bits;
    }

    /// The silence added before each input, as an `f64` bit pattern of
    /// seconds.
    pub fn set_input_trail(&mut self, trail_bits: u64)
        requires
            old(self).wf(),
        ensures
            final(self).wf(),
            final(self).config() == (StateConfig { input_trail_bits: trail_bits, ..old(self).config() }),
            rest_same(*final(self), *old(self)),
    {
        self.input_trail_bits = trail_bits;
    }

    /// The silence added after each input, as an `f64` bit pattern of
    /// seconds.
    pub fn set_output_trail(&mut self, trail_bits: u64)
        requires
            old(self).wf(),
        ensures
            final(self).wf(),
            final(self).config() == (StateConfig { output_trail_bits: trail_bits, ..old(self).config() }),
            rest_same(*final(self), *old(self)),
    {
        self.output_trail_bits = trail_bits;
    }

    /// The number of outputs made of each input file.
    pub fn set_permutations(&mut self, permutations: usize)
        requires
            old(self).wf(),
        ensures
            final(self).wf(),
            final(self).config() == (StateConfig { permutations, ..old(self).config() }),
            rest_same(*final(self), *old(self)),
    {
        self.permutations = permutations;
    }

    /// The number of levels of processors in each chain.
    pub fn set_depth(&mut self, depth: usize)
        requires
            old(self).wf(),
        ensures
            final(self).wf(),
            final(self).config() == (StateConfig { permutation_depth: depth, ..old(self).config() }),
            rest_same(*final(self), *old(self)),
    {
        self.permutation_depth = depth;
    }

    /// Whether each run writes into a new numbered subdirectory.
    pub fn set_create_subdirectories(&mut self, create: bool)
        requires
            old(self).wf(),
        ensures
            final(self).wf(),
            final(self).config() == (StateConfig { create_subdirectories: create, ..old(self).config() }),
            rest_same(*final(self), *old(self)),
    {
        self.create_subdirectories = create;
    }

    /// Whether the user has seen the welcome screen.
    pub fn set_viewed_welcome(&mut self, viewed: bool)
        requires
            old(self).wf(),
        ensures
            final(self).wf(),
            final(self).config() == (StateConfig { viewed_welcome: viewed, ..old(self).config() }),
            rest_same(*final(self), *old(self)),
    {
        self.viewed_welcome = viewed;
    }

    /// Puts every offered processor in the pool.
    pub fn select_all_processors(&mut self)
        requires
            old(self).wf(),
        ensures
            final(self).wf(),
            final(self).config() == (StateConfig { processor_pool: old(self).all_processors@, ..old(self).config() }),
            rest_same(*final(self), *old(self)),
    {
        let pool = self.all_processors.clone();
        assert(pool@ =~= self.all_processors@);
        self.processor_pool = pool;
    }

    /// Empties the pool.
    pub fn deselect_all_processors(&mut self)
        requires
            old(self).wf(),
        ensures
            final(self).wf(),
            final(self).config() == (StateConfig { processor_pool: Seq::empty(), ..old(self).config() }),
            rest_same(*final(self), *old(self)),
    {
        self.processor_pool.clear();
    }

    /// Adds the processor with the given display name to the pool, unless
    /// it is there already or the name is unknown; clears the error.
    pub fn add_processor(&mut self, name: String)
        requires
            old(self).wf(),
        ensures
            final(self).wf(),
            final(self).config() == (StateConfig {
                processor_pool: pool_after_add(old(self).processor_pool@, name@),
                ..old(self).config()
            }),
            final(self).error@ == Seq::<char>::empty(),
            final(self).processing == old(self).processing,
            final(self).files_view() == old(self).files_view(),
            final(self).entries() == old(self).entries(),
    {
        self.clear_error();
        if let Ok(processor) = get_processor_from_display_name(name.as_str()) {
            let mut i: usize = 0;
            let mut found = false;
            while i < self.processor_pool.len()
                invariant
                    i <= self.processor_pool@.len(),
                    found == exists|j: int| 0 <= j < i && self.processor_pool@[j] == processor,
                decreases self.processor_pool@.len() - i,
            {
                if self.processor_pool[i] == processor {
                    found = true;
                }
                i = i + 1;
            }
            if !found {
                self.processor_pool.push(processor);
            } else {
                assert(self.processor_pool@.contains(processor));
            }
        }
    }

    /// Takes the processor with the given display name out of the pool
    /// (every occurrence of it); unknown names change nothing. Clears the
    /// error.
    pub fn remove_processor(&mut self, name: String)
        requires
            old(self).wf(),
        ensures
            final(self).wf(),
            final(self).config() == (StateConfig {
                processor_pool: pool_after_remove(old(self).processor_pool@, name@),
                ..old(self).config()
            }),
            final(self).error@ == Seq::<char>::empty(),
            final(self).processing == old(self).processing,
            final(self).files_view() == old(self).files_view(),
            final(self).entries() == old(self).entries(),
    {
        self.clear_error();
        if let Ok(processor) = get_processor_from_display_name(name.as_str()) {
            let ghost pool = self.processor_pool@;
            let mut kept: Vec<PermuteNodeName> = Vec::new();
            let mut i: usize = 0;
            while i < self.processor_pool.len()
                invariant
                    i <= self.processor_pool@.len(),
                    self.processor_pool@ == pool,
                    kept@ == pool_without(pool.subrange(0, i as int), processor),
                decreases self.processor_pool@.len() - i,
            {
                let q = self.processor_pool[i];
                proof {
                    let next = pool.subrange(0, i + 1);
                    assert(next.drop_last() =~= pool.subrange(0, i as int));
                    assert(next.last() == q);
                    reveal(Seq::filter);
                }
                if q != processor {
                    kept.push(q);
                }
                i = i + 1;
            }
            assert(pool.subrange(0, pool.len() as int) =~= pool);
            self.processor_pool = kept;
        }
    }
}

/// The first position from `i` on of a file at `path`, or -1.
pub open spec fn file_position_from(files: Seq<AudioInfoView>, path: Seq<char>, i: int) -> int
    decreases files.len() - i,
{
    if i < 0 || i >= files.len() {
        -1
    } else if files[i].path == path {
        i
    } else {
        file_position_from(files, path, i + 1)
    }
}

/// The position of the first file at `path`, or -1.
pub open spec fn file_position(files: Seq<AudioInfoView>, path: Seq<char>) -> int {
    file_position_from(files, path, 0)
}

/// The first position from `i` on of an output written to `file`, or -1.
pub open spec fn output_position_from(s: Seq<((usize, usize), OutputProgressView)>, file: Seq<char>, i: int) -> int
    decreases s.len() - i,
{
    if i < 0 || i >= s.len() {
        -1
    } else if s[i].1.output == file {
        i
    } else {
        output_position_from(s, file, i + 1)
    }
}

/// The position of the first output (in key order) written to `file`, or
/// -1.
pub open spec fn output_position(s: Seq<((usize, usize), OutputProgressView)>, file: Seq<char>) -> int {
    output_position_from(s, file, 0)
}

/// The entry that a new input file gets for its output `i` before any run.
pub open spec fn placeholder_output(file: Seq<char>, i: usize) -> OutputProgressView {
    OutputProgressView {
        output: Seq::empty(),
        progress: 0,
        permutation: PermutationView {
            file,
            permutation_index: i,
            output: Seq::empty(),
            processor_pool: Seq::empty(),
            processors: Seq::empty(),
            original_sample_rate: 0,
            node_index: 0,
            files: Seq::empty(),
        },
        processors: Seq::empty(),
        audio_info: empty_audio_info(),
        deleted: false,
        source_file: file,
    }
}

/// The table with placeholders for outputs 1 to `n` of the file at index
/// `file_index`.
pub open spec fn add_placeholders(
    s: Seq<((usize, usize), OutputProgressView)>,
    file_index: usize,
    file: Seq<char>,
    n: usize,
) -> Seq<((usize, usize), OutputProgressView)>
    decreases n,
{
    if n == 0 {
        s
    } else {
        sorted_insert(add_placeholders(s, file_index, file, (n - 1) as usize), (file_index, n), placeholder_output(file, n))
    }
}

/// The entry made for an output when its chain is known.
pub open spec fn planned_output(p: PermutationView, processors: Seq<PermuteNodeName>) -> OutputProgressView {
    OutputProgressView {
        output: p.output,
        progress: 0,
        permutation: p,
        processors,
        audio_info: empty_audio_info(),
        deleted: false,
        source_file: p.file,
    }
}

/// The outputs that are not deleted, in table order.
pub open spec fn undeleted(s: Seq<((usize, usize), OutputProgressView)>) -> Seq<OutputProgressView>
    decreases s.len(),
{
    if s.len() == 0 {
        Seq::empty()
    } else if s.last().1.deleted {
        undeleted(s.drop_last())
    } else {
        undeleted(s.drop_last()).push(s.last().1)
    }
}

/// The names of a chain of processors with their attributes.
pub open spec fn chain_names(s: Seq<(PermuteNodeName, Vec<ProcessorAttribute>)>) -> Seq<PermuteNodeName> {
    s.map_values(|p: (PermuteNodeName, Vec<ProcessorAttribute>)| p.0)
}

/// The output table after recording the chain of an output of a run.
pub open spec fn with_planned_output(
    entries: Seq<((usize, usize), OutputProgressView)>,
    files: Seq<AudioInfoView>,
    p: PermutationView,
    processors: Seq<PermuteNodeName>,
) -> Seq<((usize, usize), OutputProgressView)> {
    let fp = file_position(files, p.file);
    if fp >= 0 {
        sorted_insert(entries, (fp as usize, p.permutation_index), planned_output(p, processors))
    } else {
        entries
    }
}

/// The output table after recording the progress of an output.
pub open spec fn with_progress(
    entries: Seq<((usize, usize), OutputProgressView)>,
    files: Seq<AudioInfoView>,
    p: PermutationView,
    progress: i32,
) -> Seq<((usize, usize), OutputProgressView)> {
    let fp = file_position(files, p.file);
    let key = (fp as usize, p.permutation_index);
    let pos = key_position(entries, key);
    if fp >= 0 && has_key_at(entries, key) {
        entries.update(pos, (key, OutputProgressView { progress, permutation: p, ..entries[pos].1 }))
    } else {
        entries
    }
}

/// The output table after recording what is known of the output written
/// to `file`.
pub open spec fn with_output_info(
    entries: Seq<((usize, usize), OutputProgressView)>,
    file: Seq<char>,
    info: AudioInfoView,
) -> Seq<((usize, usize), OutputProgressView)> {
    let pos = output_position(entries, file);
    let e = entries[pos];
    if pos >= 0 {
        entries.update(pos, (e.0, OutputProgressView {
            audio_info: info,
            permutation: PermutationView { output: file, ..e.1.permutation },
            ..e.1
        }))
    } else {
        entries
    }
}

fn placeholder(file: &String, i: usize) -> (r: OutputProgress)
    ensures
        r@ == placeholder_output(file@, i),
{
    let r = OutputProgress {
        output: String::new(),
        progress: 0,
        permutation: Permutation {
            file: file.clone(),
            permutation_index: i,
            output: String::new(),
            processor_pool: Vec::new(),
            processors: Vec::new(),
            original_sample_rate: 0,
            node_index: 0,
            files: Vec::new(),
        },
        processors: Vec::new(),
        audio_info: AudioInfo::default(),
        deleted: false,
        source_file: file.clone(),
    };
    assert(r@.permutation.processor_pool =~= Seq::<PermuteNodeName>::empty());
    assert(r@.permutation.processors =~= Seq::<(PermuteNodeName, Seq<(Seq<char>, Seq<char>)>)>::empty());
    assert(r@.permutation.files =~= Seq::<Seq<char>>::empty());
    assert(r@.processors =~= Seq::<PermuteNodeName>::empty());
    r
}

impl SharedState {
    /// Whether some input file is at `file`.
    pub fn contains_file(&self, file: &str) -> (r: bool)
        ensures
            r == (file_position(self.files_view(), file@) >= 0),
    {
        self.find_file(file).is_some()
    }

    /// The position of the first input file at `file`.
    pub fn find_file(&self, file: &str) -> (r: Option<usize>)
        ensures
            match r {
                Some(i) => i as int == file_position(self.files_view(), file@) && i < self.files@.len(),
                None => file_position(self.files_view(), file@) == -1,
            },
    {
        let mut i: usize = 0;
        while i < self.files.len()
            invariant
                i <= self.files@.len(),
                file_position(self.files_view(), file@) == file_position_from(self.files_view(), file@, i as int),
            decreases self.files@.len() - i,
        {
            if str_equal(self.files[i].path.as_str(), file) {
                return Some(i);
            }
            i = i + 1;
        }
        None
    }

    /// Adds an input file with what is known of it, unless a file at that
    /// path is there already; makes a placeholder entry for each of its
    /// outputs. Clears the error. Reading `audio_info` from the file is
    /// done by the caller, when `contains_file` says the file is new.
    pub fn add_file(&mut self, file: String, audio_info: AudioInfo)
        requires
            old(self).wf(),
        ensures
            final(self).wf(),
            final(self).error@ == Seq::<char>::empty(),
            final(self).config() == old(self).config(),
            final(self).processing == old(self).processing,
            file_position(old(self).files_view(), file@) >= 0 ==> {
                &&& final(self).files_view() == old(self).files_view()
                &&& final(self).entries() == old(self).entries()
            },
            file_position(old(self).files_view(), file@) < 0 ==> {
                &&& final(self).files_view() == old(self).files_view().push(audio_info@)
                &&& final(self).entries() == add_placeholders(
                    old(self).entries(), old(self).files@.len() as usize, file@, old(self).permutations)
            },
    {
        self.clear_error();
        if self.contains_file(file.as_str()) {
            return;
        }
        let file_index = self.files.len();
        let n = self.permutations;
        let ghost start = self.entries();
        let mut j: usize = 0;
        while j < n
            invariant
                j <= n,
                n == self.permutations,
                file_index == self.files@.len(),
                keys_sorted(self.outputs@),
                self.entries() == add_placeholders(start, file_index, file@, j),
                self.error@ == Seq::<char>::empty(),
                self.config() == old(self).config(),
                self.processing == old(self).processing,
                self.files_view() == old(self).files_view(),
            decreases n - j,
        {
            let entry = placeholder(&file, j + 1);
            proof { lemma_sorted_insert_view(self.outputs@, (file_index, (j + 1) as usize), entry); }
            insert_sorted(&mut self.outputs, (file_index, j + 1), entry);
            j = j + 1;
        }
        self.files.push(audio_info);
        assert(self.files_view() =~= old(self).files_view().push(audio_info@));
    }

    /// Removes the input files at `file`; their outputs stay. Clears the
    /// error.
    pub fn remove_file(&mut self, file: String)
        requires
            old(self).wf(),
        ensures
            final(self).wf(),
            final(self).error@ == Seq::<char>::empty(),
            final(self).config() == old(self).config(),
            final(self).processing == old(self).processing,
            final(self).files_view() == files_without(old(self).files_view(), file@),
            final(self).entries() == old(self).entries(),
    {
        self.clear_error();
        let ghost files = self.files_view();
        let mut kept: Vec<AudioInfo> = Vec::new();
        let mut i: usize = 0;
        while i < self.files.len()
            invariant
                i <= self.files@.len(),
                self.files_view() == files,
                audio_infos_view(kept@) == files_without(files.subrange(0, i as int), file@),
            decreases self.files@.len() - i,
        {
            let f = self.files[i].clone();
            proof {
                let next = files.subrange(0, i + 1);
                assert(next.drop_last() =~= files.subrange(0, i as int));
                assert(next.last() == f@);
                reveal(Seq::filter);
            }
            let keep = !str_equal(f.path.as_str(), file.as_str());
            let ghost before = kept@;
            if keep {
                kept.push(f);
                assert(audio_infos_view(kept@) =~= audio_infos_view(before).push(f@));
            }
            i = i + 1;
        }
        assert(files.subrange(0, files.len() as int) =~= files);
        self.files = kept;
    }

    /// Removes every input file and every output. Clears the error.
    pub fn clear_all_files(&mut self)
        requires
            old(self).wf(),
        ensures
            final(self).wf(),
            final(self).error@ == Seq::<char>::empty(),
            final(self).config() == old(self).config(),
            final(self).processing == old(self).processing,
            final(self).files_view() == Seq::<AudioInfoView>::empty(),
            final(self).entries() == Seq::<((usize, usize), OutputProgressView)>::empty(),
    {
        self.clear_error();
        self.files.clear();
        self.outputs.clear();
        assert(self.files_view() =~= Seq::<AudioInfoView>::empty());
        assert(self.entries() =~= Seq::<((usize, usize), OutputProgressView)>::empty());
    }

    /// The paths of the input files, in order.
    pub fn input_paths(&self) -> (r: Vec<String>)
        ensures
            r@.len() == self.files@.len(),
            forall|i: int| 0 <= i < r@.len() ==> #[trigger] r@[i]@ == self.files@[i].path@,
    {
        let mut r: Vec<String> = Vec::new();
        let mut i: usize = 0;
        while i < self.files.len()
            invariant
                i <= self.files@.len(),
                r@.len() == i,
                forall|k: int| 0 <= k < i ==> #[trigger] r@[k]@ == self.files@[k].path@,
            decreases self.files@.len() - i,
        {
            r.push(self.files[i].path.clone());
            i = i + 1;
        }
        r
    }

    /// The outputs that are not deleted, in key order.
    pub fn get_ordered_outputs(&self) -> (r: Vec<OutputProgress>)
        ensures
            outputs_view(r@) == undeleted(self.entries()),
    {
        let mut r: Vec<OutputProgress> = Vec::new();
        let mut i: usize = 0;
        while i < self.outputs.len()
            invariant
                i <= self.outputs@.len(),
                outputs_view(r@) == undeleted(self.entries().subrange(0, i as int)),
            decreases self.outputs@.len() - i,
        {
            proof {
                let next = self.entries().subrange(0, i + 1);
                assert(next.drop_last() =~= self.entries().subrange(0, i as int));
                assert(next.last() == (self.outputs@[i as int].0, self.outputs@[i as int].1@));
            }
            if !self.outputs[i].1.deleted {
                let o = self.outputs[i].1.clone();
                let ghost before = r@;
                r.push(o);
                assert(outputs_view(r@) =~= outputs_view(before).push(o@));
            }
            i = i + 1;
        }
        assert(self.entries().subrange(0, i as int) =~= self.entries());
        r
    }
}

impl SharedState {
    /// The position of the first output (in key order) written to `file`.
    pub fn find_output(&self, file: &str) -> (r: Option<usize>)
        ensures
            match r {
                Some(i) => i as int == output_position(self.entries(), file@) && i < self.outputs@.len(),
                None => output_position(self.entries(), file@) == -1,
            },
    {
        let mut i: usize = 0;
        while i < self.outputs.len()
            invariant
                i <= self.outputs@.len(),
                output_position(self.entries(), file@) == output_position_from(self.entries(), file@, i as int),
            decreases self.outputs@.len() - i,
        {
            if str_equal(self.outputs[i].1.output.as_str(), file) {
                return Some(i);
            }
            i = i + 1;
        }
        None
    }

    /// Whether some output is written to `file`.
    pub fn has_output(&self, file: &str) -> (r: bool)
        ensures
            r == (output_position(self.entries(), file@) >= 0),
    {
        self.find_output(file).is_some()
    }

    /// Replaces the value of entry `i`, keeping its key.
    fn set_entry_value(&mut self, i: usize, value: OutputProgress)
        requires
            old(self).wf(),
            i < old(self).outputs@.len(),
        ensures
            final(self).wf(),
            final(self).entries() == old(self).entries().update(i as int, (old(self).outputs@[i as int].0, value@)),
            final(self).outputs@.len() == old(self).outputs@.len(),
            final(self).config() == old(self).config(),
            final(self).error == old(self).error,
            final(self).processing == old(self).processing,
            final(self).files_view() == old(self).files_view(),
    {
        let (key, _) = self.outputs.remove(i);
        self.outputs.insert(i, (key, value));
        assert(self.outputs@ =~= old(self).outputs@.update(i as int, (key, value)));
        assert(self.entries() =~= old(self).entries().update(i as int, (key, value@)));
        assert forall|a: int, b: int| 0 <= a < b < self.outputs@.len() implies
            crate::output_table::key_lt(#[trigger] self.outputs@[a].0, #[trigger] self.outputs@[b].0) by {
            assert(self.outputs@[a].0 == old(self).outputs@[a].0);
            assert(self.outputs@[b].0 == old(self).outputs@[b].0);
        }
    }

    /// Records the chain of an output of a run: the entry of the output
    /// (keyed by the position of its input file and its permutation index)
    /// gets the permutation, the processor names and no progress. Nothing
    /// changes when the permutation's file is not an input file.
    pub fn add_output_progress(
        &mut self,
        permutation: Permutation,
        processors: Vec<(PermuteNodeName, Vec<ProcessorAttribute>)>,
    )
        requires
            old(self).wf(),
        ensures
            final(self).wf(),
            final(self).config() == old(self).config(),
            final(self).error == old(self).error,
            final(self).processing == old(self).processing,
            final(self).files_view() == old(self).files_view(),
            final(self).entries() == with_planned_output(
                old(self).entries(), old(self).files_view(), permutation@, chain_names(processors@)),
    {
        if let Some(file_index) = self.find_file(permutation.file.as_str()) {
            let key = (file_index, permutation.permutation_index);
            let mut names: Vec<PermuteNodeName> = Vec::new();
            let mut i: usize = 0;
            while i < processors.len()
                invariant
                    i <= processors@.len(),
                    names@ == chain_names(processors@).subrange(0, i as int),
                decreases processors@.len() - i,
            {
                names.push(processors[i].0);
                i = i + 1;
                assert(names@ =~= chain_names(processors@).subrange(0, i as int));
            }
            assert(names@ =~= chain_names(processors@));
            let entry = OutputProgress {
                output: permutation.output.clone(),
                source_file: permutation.file.clone(),
                permutation,
                processors: names,
                progress: 0,
                audio_info: AudioInfo::default(),
                deleted: false,
            };
            proof { lemma_sorted_insert_view(self.outputs@, key, entry); }
            insert_sorted(&mut self.outputs, key, entry);
        }
    }

    /// Records the progress of an output: its entry, when there is one,
    /// gets `progress` (the percentage of its chain done, which the caller
    /// computes) and the permutation.
    pub fn update_output_progress(&mut self, permutation: Permutation, progress: i32)
        requires
            old(self).wf(),
        ensures
            final(self).wf(),
            final(self).config() == old(self).config(),
            final(self).error == old(self).error,
            final(self).processing == old(self).processing,
            final(self).files_view() == old(self).files_view(),
            final(self).entries() == with_progress(old(self).entries(), old(self).files_view(), permutation@, progress),
    {
        if let Some(file_index) = self.find_file(permutation.file.as_str()) {
            let key = (file_index, permutation.permutation_index);
            proof {
                lemma_less_run_view_pub(self.outputs@, key);
                lemma_less_run(self.outputs@, key, 0);
            }
            let pos = find_key_position(&self.outputs, key);
            if pos < self.outputs.len() && self.outputs[pos].0.0 == key.0 && self.outputs[pos].0.1 == key.1 {
                let mut o = self.outputs[pos].1.clone();
                o.progress = progress;
                o.permutation = permutation;
                self.set_entry_value(pos, o);
            }
        }
    }

    /// Records what is known of a written output: the first output (in key
    /// order) written to `file` gets `audio_info`, and its permutation's
    /// output is set to `file`.
    pub fn update_output_audioinfo(&mut self, file: String, audio_info: AudioInfo)
        requires
            old(self).wf(),
        ensures
            final(self).wf(),
            final(self).config() == old(self).config(),
            final(self).error == old(self).error,
            final(self).processing == old(self).processing,
            final(self).files_view() == old(self).files_view(),
            final(self).entries() == with_output_info(old(self).entries(), file@, audio_info@),
    {
        if let Some(pos) = self.find_output(file.as_str()) {
            let mut o = self.outputs[pos].1.clone();
            o.audio_info = audio_info;
            o.permutation.output = file;
            self.set_entry_value(pos, o);
        }
    }

    /// Replaces what is known of the first output (in key order) written
    /// to `file`, after that file was processed again in place.
    pub fn replace_output_audio_info(&mut self, file: String, audio_info: AudioInfo)
        requires
            old(self).wf(),
        ensures
            final(self).wf(),
            final(self).config() == old(self).config(),
            final(self).error == old(self).error,
            final(self).processing == old(self).processing,
            final(self).files_view() == old(self).files_view(),
            ({
                let pos = output_position(old(self).entries(), file@);
                let e = old(self).entries()[pos];
                if pos >= 0 {
                    final(self).entries() == old(self).entries().update(pos, (e.0, OutputProgressView {
                        audio_info: audio_info@,
                        ..e.1
                    }))
                } else {
                    final(self).entries() == old(self).entries()
                }
            }),
    {
        if let Some(pos) = self.find_output(file.as_str()) {
            let mut o = self.outputs[pos].1.clone();
            o.audio_info = audio_info;
            self.set_entry_value(pos, o);
        }
    }

    /// Marks the first output (in key order) written to `file` as deleted;
    /// removing the file itself is done by the caller first.
    pub fn mark_output_deleted(&mut self, file: &str)
        requires
            old(self).wf(),
        ensures
            final(self).wf(),
            final(self).config() == old(self).config(),
            final(self).error == old(self).error,
            final(self).processing == old(self).processing,
            final(self).files_view() == old(self).files_view(),
            ({
                let pos = output_position(old(self).entries(), file@);
                let e = old(self).entries()[pos];
                if pos >= 0 {
                    final(self).entries() == old(self).entries().update(pos, (e.0, OutputProgressView { deleted: true, ..e.1 }))
                } else {
                    final(self).entries() == old(self).entries()
                }
            }),
    {
        if let Some(pos) = self.find_output(file) {
            let mut o = self.outputs[pos].1.clone();
            o.deleted = true;
            self.set_entry_value(pos, o);
        }
    }

    /// Marks every output as deleted and returns the paths they were
    /// written to, in key order, for the caller to remove.
    pub fn mark_all_outputs_deleted(&mut self) -> (r: Vec<String>)
        requires
            old(self).wf(),
        ensures
            final(self).wf(),
            final(self).config() == old(self).config(),
            final(self).error == old(self).error,
            final(self).processing == old(self).processing,
            final(self).files_view() == old(self).files_view(),
            final(self).entries().len() == old(self).entries().len(),
            forall|i: int| 0 <= i < old(self).entries().len() ==> #[trigger] final(self).entries()[i]
                == (old(self).entries()[i].0, OutputProgressView { deleted: true, ..old(self).entries()[i].1 }),
            r@.len() == old(self).entries().len(),
            forall|i: int| 0 <= i < r@.len() ==> #[trigger] r@[i]@ == old(self).entries()[i].1.output,
    {
        let ghost start = self.entries();
        let mut paths: Vec<String> = Vec::new();
        let mut i: usize = 0;
        while i < self.outputs.len()
            invariant
                i <= self.outputs@.len(),
                self.outputs@.len() == start.len(),
                self.wf(),
                self.config() == old(self).config(),
                self.error == old(self).error,
                self.processing == old(self).processing,
                self.files_view() == old(self).files_view(),
                forall|k: int| 0 <= k < i ==> #[trigger] self.entries()[k]
                    == (start[k].0, OutputProgressView { deleted: true, ..start[k].1 }),
                forall|k: int| i <= k < start.len() ==> #[trigger] self.entries()[k] == start[k],
                paths@.len() == i,
                forall|k: int| 0 <= k < i ==> #[trigger] paths@[k]@ == start[k].1.output,
            decreases self.outputs@.len() - i,
        {
            assert(self.entries()[i as int] == start[i as int]);
            paths.push(self.outputs[i].1.output.clone());
            let mut o = self.outputs[i].1.clone();
            o.deleted = true;
            self.set_entry_value(i, o);
            i = i + 1;
        }
        paths
    }

    /// Starts a run unless one is going on: clears the error, and when no
    /// run is going on marks one as going on and empties the output table.
    /// Returns whether a run starts.
    pub fn begin_run(&mut self) -> (r: bool)
        requires
            old(self).wf(),
        ensures
            final(self).wf(),
            r == !old(self).processing,
            final(self).processing,
            final(self).error@ == Seq::<char>::empty(),
            final(self).config() == old(self).config(),
            final(self).files_view() == old(self).files_view(),
            final(self).entries() == if r { Seq::empty() } else { old(self).entries() },
    {
        self.clear_error();
        if self.processing {
            return false;
        }
        self.processing = true;
        self.outputs.clear();
        assert(self.entries() =~= Seq::<((usize, usize), OutputProgressView)>::empty());
        true
    }

    /// Starts processing one file in place (reversing or trimming it):
    /// clears the error and marks processing as going on.
    pub fn begin_file_process(&mut self)
        requires
            old(self).wf(),
        ensures
            final(self).wf(),
            final(self).processing,
            final(self).error@ == Seq::<char>::empty(),
            final(self).config() == old(self).config(),
            final(self).files_view() == old(self).files_view(),
            final(self).entries() == old(self).entries(),
    {
        self.clear_error();
        self.processing = true;
    }

    /// Marks processing as finished.
    pub fn set_finished(&mut self)
        requires
            old(self).wf(),
        ensures
            final(self).wf(),
            !final(self).processing,
            final(self).error == old(self).error,
            final(self).config() == old(self).config(),
            final(self).files_view() == old(self).files_view(),
            final(self).entries() == old(self).entries(),
    {
        self.processing = false;
    }

    /// Cancels the run: no run is going on, and the error says it was
    /// cancelled. Signalling the running chain is done by the caller.
    pub fn cancel(&mut self)
        requires
            old(self).wf(),
        ensures
            final(self).wf(),
            !final(self).processing,
            final(self).error@ == cancelled_message(),
            final(self).config() == old(self).config(),
            final(self).files_view() == old(self).files_view(),
            final(self).entries() == old(self).entries(),
    {
        self.processing = false;
        self.error = String::from_str("Processing cancelled by user");
    }
}

proof fn lemma_less_run_view_pub(s: Seq<((usize, usize), OutputProgress)>, k: (usize, usize))
    ensures
        key_position(entries_view(s), k) == key_position(s, k),
{
    lemma_less_run_view(s, k, 0);
}

/// The settings and files kept between sessions, as saved to a scene file.
pub struct SharedStateSerializable {
    pub files: Vec<AudioInfo>,
    pub output: String,
    pub input_trail_bits: u64,
    pub output_trail_bits: u64,
    pub permutations: usize,
    pub permutation_depth: usize,
    pub processor_pool: Vec<PermuteNodeName>,
    pub normalise_at_end: bool,
    pub trim_all: bool,
    pub high_sample_rate: bool,
    pub processor_count: Option<i32>,
    pub create_subdirectories: bool,
    pub viewed_welcome: bool,
    pub max_stretch_bits: u64,
}

/// The number of outputs per file when a scene does not say.
pub fn default_permutations() -> (r: usize)
    ensures
        r == 3,
{
    3
}

/// The depth of chains when a scene does not say.
pub fn default_permutation_depth() -> (r: usize)
    ensures
        r == 2,
{
    2
}

/// The processor pool when a scene does not say: every offered processor.
pub fn default_processor_pool() -> (r: Vec<PermuteNodeName>)
    ensures
        r@ == all_processors_spec(),
{
    all_processors()
}

/// Whether to normalise when a scene does not say.
pub fn default_normalise_at_end() -> (r: bool)
    ensures
        r,
{
    true
}

/// The value of settings that are on unless a scene says otherwise.
pub fn default_true() -> (r: bool)
    ensures
        r,
{
    true
}

fn clone_files(files: &Vec<AudioInfo>) -> (r: Vec<AudioInfo>)
    ensures
        r@ == files@,
{
    let r = files.clone();
    assert forall|i: int| 0 <= i < r@.len() implies r@[i] == files@[i] by {
        assert(cloned::<AudioInfo>(files[i], r[i]));
    }
    assert(r@ =~= files@);
    r
}

impl SharedState {
    /// The part of the state that a scene file keeps.
    pub fn to_serializable(&self) -> (r: SharedStateSerializable)
        ensures
            r.files@ == self.files@,
            r.output@ == self.output@,
            r.input_trail_bits == self.input_trail_bits,
            r.output_trail_bits == self.output_trail_bits,
            r.permutations == self.permutations,
            r.permutation_depth == self.permutation_depth,
            r.processor_pool@ == self.processor_pool@,
            r.normalise_at_end == self.normalise_at_end,
            r.trim_all == self.trim_all,
            r.high_sample_rate == self.high_sample_rate,
            r.processor_count == self.processor_count,
            r.create_subdirectories == self.create_subdirectories,
            r.viewed_welcome == self.viewed_welcome,
            r.max_stretch_bits == self.max_stretch_bits,
    {
        let pool = self.processor_pool.clone();
        assert(pool@ =~= self.processor_pool@);
        SharedStateSerializable {
            files: clone_files(&self.files),
            high_sample_rate: self.high_sample_rate,
            input_trail_bits: self.input_trail_bits,
            normalise_at_end: self.normalise_at_end,
            trim_all: self.trim_all,
            output: self.output.clone(),
            output_trail_bits: self.output_trail_bits,
            permutation_depth: self.permutation_depth,
            permutations: self.permutations,
            processor_count: self.processor_count,
            processor_pool: pool,
            create_subdirectories: self.create_subdirectories,
            viewed_welcome: self.viewed_welcome,
            max_stretch_bits: self.max_stretch_bits,
        }
    }

    /// Takes the settings and files of a scene; the rest of the state
    /// (the offered processors, whether to constrain length, the error,
    /// the outputs) stays.
    pub fn apply_serializable(&mut self, data: SharedStateSerializable)
        requires
            old(self).wf(),
        ensures
            final(self).wf(),
            final(self).config() == (StateConfig {
                output: data.output@,
                input_trail_bits: data.input_trail_bits,
                output_trail_bits: data.output_trail_bits,
                permutations: data.permutations,
                permutation_depth: data.permutation_depth,
                processor_pool: data.processor_pool@,
                normalise_at_end: data.normalise_at_end,
                trim_all: data.trim_all,
                high_sample_rate: data.high_sample_rate,
                processor_count: data.processor_count,
                create_subdirectories: data.create_subdirectories,
                viewed_welcome: data.viewed_welcome,
                max_stretch_bits: data.max_stretch_bits,
                ..old(self).config()
            }),
            final(self).files@ == data.files@,
            final(self).error == old(self).error,
            final(self).processing == old(self).processing,
            final(self).entries() == old(self).entries(),
    {
        self.files = data.files;
        self.high_sample_rate = data.high_sample_rate;
        self.input_trail_bits = data.input_trail_bits;
        self.normalise_at_end = data.normalise_at_end;
        self.trim_all = data.trim_all;
        self.output = data.output;
        self.output_trail_bits = data.output_trail_bits;
        self.permutation_depth = data.permutation_depth;
        self.permutations = data.permutations;
        self.processor_count = data.processor_count;
        self.processor_pool = data.processor_pool;
        self.create_subdirectories = data.create_subdirectories;
        self.viewed_welcome = data.viewed_welcome;
        self.max_stretch_bits = data.max_stretch_bits;
    }
}

/// A processor of an output as the front end shows it.
pub struct ProcessorDto {
    pub name: String,
    pub attributes: Vec<ProcessorAttributeDto>,
}

/// A processor attribute as the front end shows it.
pub struct ProcessorAttributeDto {
    pub key: String,
    pub value: String,
}

/// The view of a processor as the front end shows it: display name and
/// attributes.
pub open spec fn processor_dto_view(d: ProcessorDto) -> (Seq<char>, Seq<(Seq<char>, Seq<char>)>) {
    (d.name@, attribute_dtos_view(d.attributes@))
}

/// The keys and values of a sequence of attributes as shown.
pub open spec fn attribute_dtos_view(s: Seq<ProcessorAttributeDto>) -> Seq<(Seq<char>, Seq<char>)> {
    s.map_values(|a: ProcessorAttributeDto| (a.key@, a.value@))
}

/// A processor of a chain as the front end shows it.
pub fn processor_dto(p: &PermutationProcessor) -> (r: ProcessorDto)
    ensures
        processor_dto_view(r) == (display_name(p.name), p@.1),
{
    let mut attributes: Vec<ProcessorAttributeDto> = Vec::new();
    let mut i: usize = 0;
    while i < p.attributes.len()
        invariant
            i <= p.attributes@.len(),
            attribute_dtos_view(attributes@) == p@.1.subrange(0, i as int),
        decreases p.attributes@.len() - i,
    {
        let a = &p.attributes[i];
        let ghost before = attributes@;
        let d = ProcessorAttributeDto { key: a.key.clone(), value: a.value.clone() };
        assert(p@.1[i as int] == (d.key@, d.value@));
        attributes.push(d);
        assert(attribute_dtos_view(attributes@) =~= attribute_dtos_view(before).push((d.key@, d.value@)));
        assert(p@.1.subrange(0, i + 1) =~= p@.1.subrange(0, i as int).push(p@.1[i as int]));
        i = i + 1;
    }
    assert(p@.1.subrange(0, i as int) =~= p@.1);
    ProcessorDto { name: get_processor_display_name(p.name), attributes }
}

/// The processors of a chain as the front end shows them.
pub fn processor_dtos(processors: &Vec<PermutationProcessor>) -> (r: Vec<ProcessorDto>)
    ensures
        r@.len() == processors@.len(),
        forall|i: int| 0 <= i < r@.len() ==> #[trigger] processor_dto_view(r@[i])
            == (display_name(processors@[i].name), processors@[i]@.1),
{
    let mut r: Vec<ProcessorDto> = Vec::new();
    let mut i: usize = 0;
    while i < processors.len()
        invariant
            i <= processors@.len(),
            r@.len() == i,
            forall|k: int| 0 <= k < i ==> #[trigger] processor_dto_view(r@[k])
                == (display_name(processors@[k].name), processors@[k]@.1),
        decreases processors@.len() - i,
    {
        r.push(processor_dto(&processors[i]));
        i = i + 1;
    }
    r
}

/// The display names of a list of processors.
pub fn display_names(names: &Vec<PermuteNodeName>) -> (r: Vec<String>)
    ensures
        r@.len() == names@.len(),
        forall|i: int| 0 <= i < r@.len() ==> #[trigger] r@[i]@ == display_name(names@[i]),
{
    let mut r: Vec<String> = Vec::new();
    let mut i: usize = 0;
    while i < names.len()
        invariant
            i <= names@.len(),
            r@.len() == i,
            forall|k: int| 0 <= k < i ==> #[trigger] r@[k]@ == display_name(names@[k]),
        decreases names@.len() - i,
    {
        r.push(get_processor_display_name(names[i]));
        i = i + 1;
    }
    r
}

/// Whether no processor occurs twice in a pool.
pub open spec fn no_duplicates(pool: Seq<PermuteNodeName>) -> bool {
    forall|i: int, j: int| 0 <= i < j < pool.len() ==> pool[i] != pool[j]
}

/// Adding a processor to the pool never makes it hold a processor twice.
pub proof fn lemma_add_processor_keeps_pool_unique(pool: Seq<PermuteNodeName>, name: Seq<char>)
    requires
        no_duplicates(pool),
    ensures
        no_duplicates(pool_after_add(pool, name)),
{
    if let Some(p) = processor_from_display(name) {
        if !pool.contains(p) {
            let r = pool.push(p);
            assert forall|i: int, j: int| 0 <= i < j < r.len() implies r[i] != r[j] by {
                if j == pool.len() {
                    assert(r[i] == pool[i]);
                }
            }
        }
    }
}

/// After removing a processor by its display name the pool does not hold
/// it, whether or not it was added just before; the other processors of
/// the pool stay.
pub proof fn lemma_remove_processor_removes(pool: Seq<PermuteNodeName>, name: Seq<char>, q: PermuteNodeName)
    ensures
        processor_from_display(name) matches Some(p) ==> {
            &&& !pool_after_remove(pool, name).contains(p)
            &&& !pool_after_remove(pool_after_add(pool, name), name).contains(p)
            &&& (q != p && pool.contains(q) ==> pool_after_remove(pool, name).contains(q))
        },
{
    if let Some(p) = processor_from_display(name) {
        broadcast use vstd::seq_lib::group_filter_ensures;
        if q != p && pool.contains(q) {
            let i = choose|i: int| 0 <= i < pool.len() && pool[i] == q;
            assert(pool_without(pool, p).contains(pool[i]));
        }
    }
}

/// Adding a file makes one entry for each of its outputs, numbered from 1
/// to the number of outputs per file, each a placeholder for that output;
/// the table stays sorted.
pub proof fn lemma_placeholders_cover(
    s: Seq<((usize, usize), OutputProgressView)>,
    file_index: usize,
    file: Seq<char>,
    n: usize,
    i: usize,
)
    requires
        keys_sorted(s),
        1 <= i <= n,
    ensures
        keys_sorted(add_placeholders(s, file_index, file, n)),
        contains_key(add_placeholders(s, file_index, file, n), (file_index, i)),
        value_of(add_placeholders(s, file_index, file, n), (file_index, i)) == placeholder_output(file, i),
    decreases n,
{
    lemma_placeholders_sorted(s, file_index, file, n);
    let prev = add_placeholders(s, file_index, file, (n - 1) as usize);
    lemma_placeholders_sorted(s, file_index, file, (n - 1) as usize);
    if i == n {
        lemma_sorted_insert_lookup(prev, (file_index, n), placeholder_output(file, n), (file_index, 0));
    } else {
        lemma_placeholders_cover(s, file_index, file, (n - 1) as usize, i);
        lemma_sorted_insert_lookup(prev, (file_index, n), placeholder_output(file, n), (file_index, i));
    }
}

proof fn lemma_placeholders_sorted(s: Seq<((usize, usize), OutputProgressView)>, file_index: usize, file: Seq<char>, n: usize)
    requires
        keys_sorted(s),
    ensures
        keys_sorted(add_placeholders(s, file_index, file, n)),
    decreases n,
{
    if n > 0 {
        lemma_placeholders_sorted(s, file_index, file, (n - 1) as usize);
        lemma_sorted_insert_sorted(add_placeholders(s, file_index, file, (n - 1) as usize), (file_index, n), placeholder_output(file, n));
    }
}

/// The outputs listed in order are never deleted ones, and there are no
/// more of them than entries.
pub proof fn lemma_ordered_outputs_not_deleted(s: Seq<((usize, usize), OutputProgressView)>)
    ensures
        forall|i: int| 0 <= i < undeleted(s).len() ==> !(#[trigger] undeleted(s)[i]).deleted,
        undeleted(s).len() <= s.len(),
    decreases s.len(),
{
    if s.len() > 0 {
        lemma_ordered_outputs_not_deleted(s.drop_last());
    }
}

/// Saving a scene and loading it back leaves the settings as they were.
pub proof fn lemma_scene_round_trip(state: SharedState, data: SharedStateSerializable)
    requires
        data.output@ == state.output@,
        data.input_trail_bits == state.input_trail_bits,
        data.output_trail_bits == state.output_trail_bits,
        data.permutations == state.permutations,
        data.permutation_depth == state.permutation_depth,
        data.processor_pool@ == state.processor_pool@,
        data.normalise_at_end == state.normalise_at_end,
        data.trim_all == state.trim_all,
        data.high_sample_rate == state.high_sample_rate,
        data.processor_count == state.processor_count,
        data.create_subdirectories == state.create_subdirectories,
        data.viewed_welcome == state.viewed_welcome,
        data.max_stretch_bits == state.max_stretch_bits,
    ensures
        (StateConfig {
            output: data.output@,
            input_trail_bits: data.input_trail_bits,
            output_trail_bits: data.output_trail_bits,
            permutations: data.permutations,
            permutation_depth: data.permutation_depth,
            processor_pool: data.processor_pool@,
            normalise_at_end: data.normalise_at_end,
            trim_all: data.trim_all,
            high_sample_rate: data.high_sample_rate,
            processor_count: data.processor_count,
            create_subdirectories: data.create_subdirectories,
            viewed_welcome: data.viewed_welcome,
            max_stretch_bits: data.max_stretch_bits,
            ..state.config()
        }) == state.config(),
{
}

impl SharedState {
    /// Takes one message of a run into the state: a completed processor
    /// records the output's progress (`progress`, the percentage of its
    /// chain done, computed by the caller), a chosen chain records the
    /// output, generated information about an output records it, the end
    /// of the run or an error finishes processing (an error also becomes
    /// the error message). Returns whether the message ends the run.
    pub fn handle_update(&mut self, message: PermuteUpdate, progress: i32) -> (r: bool)
        requires
            old(self).wf(),
        ensures
            final(self).wf(),
            final(self).config() == old(self).config(),
            final(self).files_view() == old(self).files_view(),
            r == (message is ProcessComplete || message is Error),
            match message {
                PermuteUpdate::ProcessComplete(_) => !final(self).processing
                    && final(self).error == old(self).error
                    && final(self).entries() == old(self).entries(),
                PermuteUpdate::Error(e) => !final(self).processing
                    && final(self).error@ == e@
                    && final(self).entries() == old(self).entries(),
                PermuteUpdate::UpdatePermuteNodeStarted(_, _, _) => final(self).processing == old(self).processing
                    && final(self).error == old(self).error
                    && final(self).entries() == old(self).entries(),
                PermuteUpdate::UpdatePermuteNodeCompleted(p, _, _) => final(self).processing == old(self).processing
                    && final(self).error == old(self).error
                    && final(self).entries() == with_progress(old(self).entries(), old(self).files_view(), p@, progress),
                PermuteUpdate::UpdateSetProcessors(p, procs) => final(self).processing == old(self).processing
                    && final(self).error == old(self).error
                    && final(self).entries() == with_planned_output(
                        old(self).entries(), old(self).files_view(), p@, chain_names(procs@)),
                PermuteUpdate::AudioInfoGenerated(file, info) => final(self).processing == old(self).processing
                    && final(self).error == old(self).error
                    && final(self).entries() == with_output_info(old(self).entries(), file@, info@),
            },
    {
        match message {
            PermuteUpdate::UpdatePermuteNodeCompleted(permutation, _, _) => {
                self.update_output_progress(permutation, progress);
                false
            },
            PermuteUpdate::UpdatePermuteNodeStarted(_, _, _) => false,
            PermuteUpdate::UpdateSetProcessors(permutation, processors) => {
                self.add_output_progress(permutation, processors);
                false
            },
            PermuteUpdate::AudioInfoGenerated(file, info) => {
                self.update_output_audioinfo(file, info);
                false
            },
            PermuteUpdate::ProcessComplete(_) => {
                self.set_finished();
                true
            },
            PermuteUpdate::Error(err) => {
                self.set_finished();
                self.set_error(err);
                true
            },
        }
    }
}

} // verus!
