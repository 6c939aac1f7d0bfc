//! The state of the Node front end: its settings, the input files, the
//! processor pool, and a table of outputs keyed by the path of their input
//! file and their output number.
use vstd::prelude::*;
use crate::audio_info::{audio_infos_view, empty_audio_info, AudioInfo, AudioInfoView};
use crate::display_node::{get_processor_from_display_name, processor_from_display};
use crate::permute_files::PermuteUpdate;
use crate::process::{all_processors, all_processors_spec, Permutation, PermutationView, PermuteNodeName};
use crate::state::chain_names;
use crate::state::{cancelled_message, file_position, file_position_from, files_without, pool_without, DEFAULT_OUTPUT_TRAIL_BITS};
use crate::text::str_equal;

verus! {

/// The progress of one output of a run.
#[derive(Debug)]
pub struct OutputProgress {
    pub output: String,
    pub progress: i32,
    pub permutation: Permutation,
    pub processors: Vec<PermuteNodeName>,
    pub audio_info: AudioInfo,
    pub deleted: bool,
}

/// The contents of an [`OutputProgress`].
pub struct OutputProgressView {
    pub output: Seq<char>,
    pub progress: i32,
    pub permutation: PermutationView,
    pub processors: Seq<PermuteNodeName>,
    pub audio_info: AudioInfoView,
    pub deleted: bool,
}

impl View for OutputProgress {
    type V = OutputProgressView;

    open spec fn view(&self) -> OutputProgressView {
        OutputProgressView {
            output: self.output@,
            progress: self.progress,
            permutation: self.permutation@,
            processors: self.processors@,
            audio_info: self.audio_info@,
            deleted: self.deleted,
        }
    }
}

impl Clone for OutputProgress {
    fn clone(&self) -> (r: Self)
        ensures
            r@ == self@,
    {
        let processors = self.processors.clone();
        assert(processors@ =~= self.processors@);
        OutputProgress {
            output: self.output.clone(),
            progress: self.progress,
            permutation: self.permutation.clone(),
            processors,
            audio_info: self.audio_info.clone(),
            deleted: self.deleted,
        }
    }
}

/// The key of an output: the path of its input file and its number.
pub type OutputKey = (Seq<char>, usize);

/// The key of an entry of the output table.
pub open spec fn key_of(e: ((String, usize), OutputProgress)) -> OutputKey {
    (e.0.0@, e.0.1)
}

/// No two entries share a key.
pub open spec fn unique_keys(s: Seq<((String, usize), OutputProgress)>) -> bool {
    forall|i: int, j: int| 0 <= i < j < s.len() ==> key_of(s[i]) != key_of(s[j])
}

/// The output table as a map from keys to outputs.
pub open spec fn table_of(s: Seq<((String, usize), OutputProgress)>) -> Map<OutputKey, OutputProgressView>
    decreases s.len(),
{
    if s.len() == 0 {
        Map::empty()
    } else {
        table_of(s.drop_last()).insert(key_of(s.last()), s.last().1@)
    }
}

/// The map holds exactly the keys of the entries, each with the value of
/// its entry when the keys are unique.
proof fn lemma_table_of(s: Seq<((String, usize), OutputProgress)>)
    ensures
        forall|k: OutputKey| #[trigger] table_of(s).dom().contains(k) <==> exists|i: int| 0 <= i < s.len() && key_of(s[i]) == k,
        unique_keys(s) ==> forall|i: int| 0 <= i < s.len() ==> #[trigger] table_of(s)[key_of(s[i])] == s[i].1@,
        table_of(s).dom().finite(),
    decreases s.len(),
{
    if s.len() > 0 {
        let p = s.drop_last();
        lemma_table_of(p);
        assert forall|k: OutputKey| #[trigger] table_of(s).dom().contains(k) <==> exists|i: int| 0 <= i < s.len() && key_of(s[i]) == k by {
            if table_of(s).dom().contains(k) {
                if k == key_of(s.last()) {
                    assert(key_of(s[s.len() - 1]) == k);
                } else {
                    assert(table_of(p).dom().contains(k));
                    let i = choose|i: int| 0 <= i < p.len() && key_of(p[i]) == k;
                    assert(key_of(s[i]) == k);
                }
            }
            if exists|i: int| 0 <= i < s.len() && key_of(s[i]) == k {
                let i = choose|i: int| 0 <= i < s.len() && key_of(s[i]) == k;
                if i < s.len() - 1 {
                    assert(key_of(p[i]) == k);
                }
            }
        }
        if unique_keys(s) {
            assert forall|i: int| 0 <= i < s.len() implies #[trigger] table_of(s)[key_of(s[i])] == s[i].1@ by {
                if i < s.len() - 1 {
                    assert(p[i] == s[i]);
                    assert(key_of(s[i]) != key_of(s.last()));
                }
            }
        }
    }
}

/// The entries' keys are unique after setting entry `i` to a value.
proof fn lemma_update_keeps_table(s: Seq<((String, usize), OutputProgress)>, i: int, v: OutputProgress)
    requires
        unique_keys(s),
        0 <= i < s.len(),
    ensures
        unique_keys(s.update(i, (s[i].0, v))),
        table_of(s.update(i, (s[i].0, v))) == table_of(s).insert(key_of(s[i]), v@),
{
    let t = s.update(i, (s[i].0, v));
    assert forall|a: int, b: int| 0 <= a < b < t.len() implies key_of(t[a]) != key_of(t[b]) by {
        assert(key_of(t[a]) == key_of(s[a]));
        assert(key_of(t[b]) == key_of(s[b]));
    }
    lemma_table_of(s);
    lemma_table_of(t);
    assert forall|k: OutputKey| #[trigger] table_of(t).dom().contains(k) <==> table_of(s).insert(key_of(s[i]), v@).dom().contains(k) by {
        if table_of(t).dom().contains(k) {
            let j = choose|j: int| 0 <= j < t.len() && key_of(t[j]) == k;
            assert(key_of(s[j]) == k);
        }
        if table_of(s).dom().contains(k) {
            let j = choose|j: int| 0 <= j < s.len() && key_of(s[j]) == k;
            assert(key_of(t[j]) == k);
        }
        if k == key_of(s[i]) {
            assert(key_of(t[i]) == k);
        }
    }
    assert forall|k: OutputKey| #[trigger] table_of(t).dom().contains(k) implies table_of(t)[k] == table_of(s).insert(key_of(s[i]), v@)[k] by {
        let j = choose|j: int| 0 <= j < t.len() && key_of(t[j]) == k;
        assert(table_of(t)[key_of(t[j])] == t[j].1@);
        if j != i {
            assert(table_of(s)[key_of(s[j])] == s[j].1@);
        }
    }
    assert(table_of(t) =~= table_of(s).insert(key_of(s[i]), v@));
}

/// Appending an entry with a new key adds it to the map.
proof fn lemma_push_keeps_table(s: Seq<((String, usize), OutputProgress)>, e: ((String, usize), OutputProgress))
    requires
        unique_keys(s),
        !table_of(s).dom().contains(key_of(e)),
    ensures
        unique_keys(s.push(e)),
        table_of(s.push(e)) == table_of(s).insert(key_of(e), e.1@),
{
    lemma_table_of(s);
    let t = s.push(e);
    assert forall|a: int, b: int| 0 <= a < b < t.len() implies key_of(t[a]) != key_of(t[b]) by {
        if b == s.len() {
            assert(t[a] == s[a]);
        } else {
            assert(t[a] == s[a] && t[b] == s[b]);
        }
    }
    assert(t.drop_last() =~= s);
}

/// The settings of the Node front end.
pub struct NodeConfig {
    pub output: Seq<char>,
    pub input_trail_bits: u64,
    pub output_trail_bits: u64,
    pub permutations: usize,
    pub permutation_depth: usize,
    pub processor_pool: Seq<PermuteNodeName>,
    pub all_processors: Seq<PermuteNodeName>,
    pub normalise_at_end: bool,
    pub trim_all: bool,
    pub high_sample_rate: bool,
    pub processor_count: Option<i32>,
    pub constrain_length: bool,
    pub create_subdirectories: bool,
}

/// The state of the Node front end. Float settings are the bit patterns
/// of their `f64` values.
#[derive(Debug)]
pub struct SharedState {
    pub output: String,
    pub error: String,
    pub input_trail_bits: u64,
    pub output_trail_bits: u64,
    pub permutations: usize,
    pub permutation_depth: usize,
    pub processor_pool: Vec<PermuteNodeName>,
    pub all_processors: Vec<PermuteNodeName>,
    pub normalise_at_end: bool,
    pub trim_all: bool,
    pub high_sample_rate: bool,
    pub processor_count: Option<i32>,
    pub constrain_length: bool,
    pub create_subdirectories: bool,
    pub processing: bool,
    pub outputs: Vec<((String, usize), OutputProgress)>,
    pub files: Vec<AudioInfo>,
}

impl SharedState {
    /// The settings.
    pub open spec fn config(&self) -> NodeConfig {
        NodeConfig {
            output: self.output@,
            input_trail_bits: self.input_trail_bits,
            output_trail_bits: self.output_trail_bits,
            permutations: self.permutations,
            permutation_depth: self.permutation_depth,
            processor_pool: self.processor_pool@,
            all_processors: self.all_processors@,
            normalise_at_end: self.normalise_at_end,
            trim_all: self.trim_all,
            high_sample_rate: self.high_sample_rate,
            processor_count: self.processor_count,
            constrain_length: self.constrain_length,
            create_subdirectories: self.create_subdirectories,
        }
    }

    /// The outputs, by key.
    pub open spec fn table(&self) -> Map<OutputKey, OutputProgressView> {
        table_of(self.outputs@)
    }

    /// The input files.
    pub open spec fn files_view(&self) -> Seq<AudioInfoView> {
        audio_infos_view(self.files@)
    }

    /// The state's invariant: each key occurs once in the output table.
    pub open spec fn wf(&self) -> bool {
        unique_keys(self.outputs@)
    }

    /// The initial state: no files, no outputs, every processor in the
    /// pool, three outputs per file of depth two, normalised, and an
    /// output trail of two seconds. `processor_count` is the number of
    /// processors per level, which the caller derives from the machine.
    pub fn init(processor_count: Option<i32>) -> (r: Self)
        ensures
            r.wf(),
            r.config() == (NodeConfig {
                output: Seq::empty(),
                input_trail_bits: 0,
                output_trail_bits: DEFAULT_OUTPUT_TRAIL_BITS,
                permutations: 3,
                permutation_depth: 2,
                processor_pool: all_processors_spec(),
                all_processors: all_processors_spec(),
                normalise_at_end: true,
                trim_all: false,
                high_sample_rate: false,
                processor_count,
                constrain_length: true,
                create_subdirectories: true,
            }),
            r.error@ == Seq::<char>::empty(),
            !r.processing,
            r.files@.len() == 0,
            r.table() == Map::<OutputKey, OutputProgressView>::empty(),
    {
        SharedState {
            high_sample_rate: false,
            input_trail_bits: 0,
            normalise_at_end: true,
            trim_all: false,
            error: String::new(),
            output: String::new(),
            output_trail_bits: DEFAULT_OUTPUT_TRAIL_BITS,
            permutation_depth: 2,
            permutations: 3,
            processor_count,
            processor_pool: all_processors(),
            all_processors: all_processors(),
            processing: false,
            outputs: Vec::new(),
            files: Vec::new(),
            constrain_length: true,
            create_subdirectories: true,
        }
    }

    /// The position of the entry with key (`file`, `index`).
    fn find_key(&self, file: &str, index: usize) -> (r: Option<usize>)
        requires
            self.wf(),
        ensures
            match r {
                Some(i) => i < self.outputs@.len() && key_of(self.outputs@[i as int]) == (file@, index)
                    && self.table().dom().contains((file@, index))
                    && self.table()[(file@, index)] == self.outputs@[i as int].1@,
                None => !self.table().dom().contains((file@, index)),
            },
    {
        proof { lemma_table_of(self.outputs@); }
        let mut i: usize = 0;
        while i < self.outputs.len()
            invariant
                i <= self.outputs@.len(),
                self.wf(),
                forall|j: int| 0 <= j < i ==> key_of(#[trigger] self.outputs@[j]) != (file@, index),
            decreases self.outputs@.len() - i,
        {
            if self.outputs[i].0.1 == index && str_equal(self.outputs[i].0.0.as_str(), file) {
                assert(key_of(self.outputs@[i as int]) == (file@, index));
                proof { lemma_table_of(self.outputs@); }
                assert(self.table()[key_of(self.outputs@[i as int])] == self.outputs@[i as int].1@);
                return Some(i);
            }
            i = i + 1;
        }
        None
    }

    /// Stores `value` under (`file`, `index`), replacing what was there.
    fn put(&mut self, file: &String, index: usize, value: OutputProgress)
        requires
            old(self).wf(),
        ensures
            final(self).wf(),
            final(self).table() == old(self).table().insert((file@, index), value@),
            final(self).config() == old(self).config(),
            final(self).error == old(self).error,
            final(self).processing == old(self).processing,
            final(self).files == old(self).files,
    {
        match self.find_key(file.as_str(), index) {
            Some(i) => {
                let ghost s = self.outputs@;
                proof { lemma_update_keeps_table(s, i as int, value); }
                let (key, _) = self.outputs.remove(i);
                self.outputs.insert(i, (key, value));
                assert(self.outputs@ =~= s.update(i as int, (s[i as int].0, value)));
            },
            None => {
                let e = ((file.clone(), index), value);
                proof { lemma_push_keeps_table(self.outputs@, e); }
                self.outputs.push(e);
            },
        }
    }
}

/// Everything but the settings is unchanged: the error, whether a run is
/// going on, the files and the outputs.
pub open spec fn rest_same(a: SharedState, b: SharedState) -> bool {
    &&& a.error@ == b.error@
    &&& a.processing == b.processing
    &&& a.files_view() == b.files_view()
    &&& a.table() == b.table()
    &&& a.wf() == b.wf()
}

impl SharedState {
    /// Sets the output directory.
    pub fn set_output(&mut self, output: String)
        ensures
            final(self).config() == (NodeConfig { output: output@, ..old(self).config() }),
            rest_same(*final(self), *old(self)),
    {
        self.output = output;
    }

    /// Sets the error message.
    pub fn set_error(&mut self, error: String)
        ensures
            final(self).error@ == error@,
            final(self).config() == old(self).config(),
            final(self).processing == old(self).processing,
            final(self).files == old(self).files,
            final(self).outputs == old(self).outputs,
    {
        self.error = error;
    }

    /// Sets whether to normalise at the end of each chain.
    pub fn set_normalised(&mut self, normalised: bool)
        ensures
            final(self).config() == (NodeConfig { normalise_at_end: normalised, ..old(self).config() }),
            rest_same(*final(self), *old(self)),
    {
        self.normalise_at_end = normalised;
    }

    /// Sets whether to trim at the end of each chain.
    pub fn set_trim_all(&mut self, trim_all: bool)
        ensures
            final(self).config() == (NodeConfig { trim_all, ..old(self).config() }),
            rest_same(*final(self), *old(self)),
    {
        self.trim_all = trim_all;
    }

    /// Sets the input trail (the bit pattern of its `f64` seconds).
    pub fn set_input_trail(&mut self, trail_bits: u64)
        ensures
            final(self).config() == (NodeConfig { input_trail_bits: trail_bits, ..old(self).config() }),
            rest_same(*final(self), *old(self)),
    {
        self.input_trail_bits = trail_bits;
    }

    /// Sets the output trail (the bit pattern of its `f64` seconds).
    pub fn set_output_trail(&mut self, trail_bits: u64)
        ensures
            final(self).config() == (NodeConfig { output_trail_bits: trail_bits, ..old(self).config() }),
            rest_same(*final(self), *old(self)),
    {
        self.output_trail_bits = trail_bits;
    }

    /// Sets the number of outputs per file.
    pub fn set_permutations(&mut self, permutations: usize)
        ensures
            final(self).config() == (NodeConfig { permutations, ..old(self).config() }),
            rest_same(*final(self), *old(self)),
    {
        self.permutations = permutations;
    }

    /// Sets the depth of the chains.
    pub fn set_depth(&mut self, depth: usize)
        ensures
            final(self).config() == (NodeConfig { permutation_depth: depth, ..old(self).config() }),
            rest_same(*final(self), *old(self)),
    {
        self.permutation_depth = depth;
    }

    /// Sets whether each run writes into a new numbered directory.
    pub fn set_create_subdirectories(&mut self, create: bool)
        ensures
            final(self).config() == (NodeConfig { create_subdirectories: create, ..old(self).config() }),
            rest_same(*final(self), *old(self)),
    {
        self.create_subdirectories = create;
    }

    /// Puts every offered processor in the pool.
    pub fn select_all_processors(&mut self)
        ensures
            final(self).config() == (NodeConfig { processor_pool: old(self).all_processors@, ..old(self).config() }),
            rest_same(*final(self), *old(self)),
    {
        let pool = self.all_processors.clone();
        assert(pool@ =~= self.all_processors@);
        self.processor_pool = pool;
    }

    /// Empties the pool.
    pub fn deselect_all_processors(&mut self)
        ensures
            final(self).config() == (NodeConfig { processor_pool: Seq::empty(), ..old(self).config() }),
            rest_same(*final(self), *old(self)),
    {
        self.processor_pool.clear();
    }

    /// Adds the processor with the given display name to the pool unless
    /// it is there already. The name must be a known one.
    pub fn add_processor(&mut self, name: String)
        requires
            processor_from_display(name@) is Some,
        ensures
            ({
                let p = processor_from_display(name@)->Some_0;
                let pool = old(self).processor_pool@;
                final(self).config() == (NodeConfig {
                    processor_pool: if pool.contains(p) { pool } else { pool.push(p) },
                    ..old(self).config()
                })
            }),
            rest_same(*final(self), *old(self)),
    {
        if let Ok(processor) = get_processor_from_display_name(name.as_str()) {
            let mut i: usize = 0;
            let mut found = false;
            while i < self.processor_pool.len()
                invariant
                    i <= self.processor_pool@.len(),
                    found == exists|j: int| 0 <= j < i && self.processor_pool@[j] == processor,
                decreases self.processor_pool@.len() - i,
            {
                if self.processor_pool[i] == processor {
                    found = true;
                }
                i = i + 1;
            }
            if !found {
                self.processor_pool.push(processor);
            } else {
                assert(self.processor_pool@.contains(processor));
            }
        }
    }

    /// Takes every occurrence of the processor with the given display name
    /// out of the pool. The name must be a known one.
    pub fn remove_processor(&mut self, name: String)
        requires
            processor_from_display(name@) is Some,
        ensures
            final(self).config() == (NodeConfig {
                processor_pool: pool_without(old(self).processor_pool@, processor_from_display(name@)->Some_0),
                ..old(self).config()
            }),
            rest_same(*final(self), *old(self)),
    {
        if let Ok(processor) = get_processor_from_display_name(name.as_str()) {
            let ghost pool = self.processor_pool@;
            let mut kept: Vec<PermuteNodeName> = Vec::new();
            let mut i: usize = 0;
            while i < self.processor_pool.len()
                invariant
                    i <= self.processor_pool@.len(),
                    self.processor_pool@ == pool,
                    kept@ == pool_without(pool.subrange(0, i as int), processor),
                decreases self.processor_pool@.len() - i,
            {
                let q = self.processor_pool[i];
                proof {
                    let next = pool.subrange(0, i + 1);
                    assert(next.drop_last() =~= pool.subrange(0, i as int));
                    assert(next.last() == q);
                    reveal(Seq::filter);
                }
                if q != processor {
                    kept.push(q);
                }
                i = i + 1;
            }
            assert(pool.subrange(0, pool.len() as int) =~= pool);
            self.processor_pool = kept;
        }
    }
}

/// The entry a new input file gets for its output `i` before any run.
pub open spec fn placeholder_output(file: Seq<char>, i: usize) -> OutputProgressView {
    OutputProgressView {
        output: Seq::empty(),
        progress: 0,
        permutation: PermutationView {
            file,
            permutation_index: i,
            output: Seq::empty(),
            processor_pool: Seq::empty(),
            processors: Seq::empty(),
            original_sample_rate: 0,
            node_index: 0,
            files: Seq::empty(),
        },
        processors: Seq::empty(),
        audio_info: empty_audio_info(),
        deleted: false,
    }
}

/// The table with placeholders for outputs 1 to `n` of `file`.
pub open spec fn with_placeholders(
    t: Map<OutputKey, OutputProgressView>,
    file: Seq<char>,
    n: nat,
) -> Map<OutputKey, OutputProgressView>
    decreases n,
{
    if n == 0 {
        t
    } else {
        with_placeholders(t, file, (n - 1) as nat).insert((file, n as usize), placeholder_output(file, n as usize))
    }
}

/// The entry made for an output when its chain is known.
pub open spec fn planned_output(p: PermutationView, processors: Seq<PermuteNodeName>) -> OutputProgressView {
    OutputProgressView {
        output: p.output,
        progress: 0,
        permutation: p,
        processors,
        audio_info: empty_audio_info(),
        deleted: false,
    }
}

/// The outputs 1 to `j` of the file at `path` that the table holds, in
/// order.
pub open spec fn file_outputs(t: Map<OutputKey, OutputProgressView>, path: Seq<char>, j: nat) -> Seq<OutputProgressView>
    decreases j,
{
    if j == 0 {
        Seq::empty()
    } else {
        file_outputs(t, path, (j - 1) as nat)
            + if t.dom().contains((path, j as usize)) { seq![t[(path, j as usize)]] } else { Seq::empty() }
    }
}

/// The outputs 1 to `n` of the first `k` files, file by file.
pub open spec fn ordered_outputs(
    t: Map<OutputKey, OutputProgressView>,
    files: Seq<AudioInfoView>,
    k: nat,
    n: nat,
) -> Seq<OutputProgressView>
    decreases k,
{
    if k == 0 {
        Seq::empty()
    } else {
        ordered_outputs(t, files, (k - 1) as nat, n) + file_outputs(t, files[k - 1].path, n)
    }
}

/// The first position from `i` on of an entry whose output is written to
/// `file`, or -1.
pub open spec fn output_position_from(s: Seq<((String, usize), OutputProgress)>, file: Seq<char>, i: int) -> int
    decreases s.len() - i,
{
    if i < 0 || i >= s.len() {
        -1
    } else if s[i].1.output@ == file {
        i
    } else {
        output_position_from(s, file, i + 1)
    }
}

/// An output marked as deleted when its number is one of the first `n`.
pub open spec fn marked_deleted(k: OutputKey, o: OutputProgressView, n: usize) -> OutputProgressView {
    if 1 <= k.1 <= n { OutputProgressView { deleted: true, ..o } } else { o }
}

impl SharedState {
    /// Whether some input file is at `file`.
    pub fn contains_file(&self, file: &str) -> (r: bool)
        ensures
            r == (file_position(self.files_view(), file@) >= 0),
    {
        let mut i: usize = 0;
        while i < self.files.len()
            invariant
                i <= self.files@.len(),
                file_position(self.files_view(), file@) == file_position_from(self.files_view(), file@, i as int),
            decreases self.files@.len() - i,
        {
            if str_equal(self.files[i].path.as_str(), file) {
                assert(self.files_view()[i as int].path == self.files@[i as int].path@);
                return true;
            }
            i = i + 1;
        }
        false
    }

    /// Adds an input file with what is known of it, unless a file at that
    /// path is there already, and makes a placeholder for each of its
    /// outputs. Reading `audio_info` from the file is done by the caller.
    pub fn add_file(&mut self, file: String, audio_info: AudioInfo)
        requires
            old(self).wf(),
        ensures
            final(self).wf(),
            final(self).config() == old(self).config(),
            final(self).error == old(self).error,
            final(self).processing == old(self).processing,
            file_position(old(self).files_view(), file@) >= 0 ==> {
                &&& final(self).files_view() == old(self).files_view()
                &&& final(self).table() == old(self).table()
            },
            file_position(old(self).files_view(), file@) < 0 ==> {
                &&& final(self).files_view() == old(self).files_view().push(audio_info@)
                &&& final(self).table() == with_placeholders(old(self).table(), file@, old(self).permutations as nat)
            },
    {
        if self.contains_file(file.as_str()) {
            return;
        }
        let n = self.permutations;
        let mut i: usize = 0;
        while i < n
            invariant
                i <= n,
                n == self.permutations,
                self.wf(),
                self.table() == with_placeholders(old(self).table(), file@, i as nat),
                self.config() == old(self).config(),
                self.error == old(self).error,
                self.processing == old(self).processing,
                self.files == old(self).files,
            decreases n - i,
        {
            let idx = i + 1;
            let entry = placeholder(&file, idx);
            self.put(&file, idx, entry);
            i = idx;
        }
        self.files.push(audio_info);
        assert(self.files_view() =~= old(self).files_view().push(audio_info@));
    }

    /// Removes the input files at `file`; their outputs stay.
    pub fn remove_file(&mut self, file: String)
        requires
            old(self).wf(),
        ensures
            final(self).wf(),
            final(self).config() == old(self).config(),
            final(self).error == old(self).error,
            final(self).processing == old(self).processing,
            final(self).files_view() == files_without(old(self).files_view(), file@),
            final(self).table() == old(self).table(),
    {
        let ghost files = self.files_view();
        let mut kept: Vec<AudioInfo> = Vec::new();
        let mut i: usize = 0;
        while i < self.files.len()
            invariant
                i <= self.files@.len(),
                self.files_view() == files,
                audio_infos_view(kept@) == files_without(files.subrange(0, i as int), file@),
            decreases self.files@.len() - i,
        {
            let f = self.files[i].clone();
            proof {
                let next = files.subrange(0, i + 1);
                assert(next.drop_last() =~= files.subrange(0, i as int));
                assert(next.last() == f@);
                reveal(Seq::filter);
            }
            let keep = !str_equal(f.path.as_str(), file.as_str());
            let ghost before = kept@;
            if keep {
                kept.push(f);
                assert(audio_infos_view(kept@) =~= audio_infos_view(before).push(f@));
            }
            i = i + 1;
        }
        assert(files.subrange(0, files.len() as int) =~= files);
        self.files = kept;
    }

    /// The outputs of the input files, file by file and by number, for the
    /// current number of outputs per file.
    pub fn get_ordered_outputs(&self) -> (r: Vec<OutputProgress>)
        requires
            self.wf(),
        ensures
            crate::node_state::outputs_view(r@)
                == ordered_outputs(self.table(), self.files_view(), self.files@.len() as nat, self.permutations as nat),
    {
        let mut r: Vec<OutputProgress> = Vec::new();
        let n = self.permutations;
        let mut k: usize = 0;
        while k < self.files.len()
            invariant
                k <= self.files@.len(),
                n == self.permutations,
                self.wf(),
                outputs_view(r@) == ordered_outputs(self.table(), self.files_view(), k as nat, n as nat),
            decreases self.files@.len() - k,
        {
            let path = &self.files[k].path;
            let ghost before = outputs_view(r@);
            assert(self.files_view()[k as int].path == path@);
            let mut j: usize = 0;
            while j < n
                invariant
                    j <= n,
                    n == self.permutations,
                    self.wf(),
                    outputs_view(r@) == before + file_outputs(self.table(), path@, j as nat),
                decreases n - j,
            {
                let idx = j + 1;
                let ghost prev = outputs_view(r@);
                if let Some(pos) = self.find_key(path.as_str(), idx) {
                    let o = self.outputs[pos].1.clone();
                    r.push(o);
                    assert(outputs_view(r@) =~= prev.push(o@));
                }
                assert(outputs_view(r@) =~= before + file_outputs(self.table(), path@, idx as nat));
                j = idx;
            }
            assert(outputs_view(r@) =~= ordered_outputs(self.table(), self.files_view(), (k + 1) as nat, n as nat));
            k = k + 1;
        }
        r
    }
}

/// The views of a sequence of outputs.
pub open spec fn outputs_view(s: Seq<OutputProgress>) -> Seq<OutputProgressView> {
    s.map_values(|o: OutputProgress| o@)
}

fn placeholder(file: &String, i: usize) -> (r: OutputProgress)
    ensures
        r@ == placeholder_output(file@, i),
{
    let r = OutputProgress {
        output: String::new(),
        progress: 0,
        permutation: Permutation {
            file: file.clone(),
            permutation_index: i,
            output: String::new(),
            processor_pool: Vec::new(),
            processors: Vec::new(),
            original_sample_rate: 0,
            node_index: 0,
            files: Vec::new(),
        },
        processors: Vec::new(),
        audio_info: AudioInfo::default(),
        deleted: false,
    };
    assert(r@.permutation.processor_pool =~= Seq::<PermuteNodeName>::empty());
    assert(r@.permutation.processors =~= Seq::<(PermuteNodeName, Seq<(Seq<char>, Seq<char>)>)>::empty());
    assert(r@.permutation.files =~= Seq::<Seq<char>>::empty());
    assert(r@.processors =~= Seq::<PermuteNodeName>::empty());
    r
}

impl SharedState {
    /// Replaces the value of entry `i`, keeping its key.
    fn set_entry_value(&mut self, i: usize, value: OutputProgress)
        requires
            old(self).wf(),
            i < old(self).outputs@.len(),
        ensures
            final(self).wf(),
            final(self).table() == old(self).table().insert(key_of(old(self).outputs@[i as int]), value@),
            final(self).outputs@.len() == old(self).outputs@.len(),
            forall|j: int| 0 <= j < final(self).outputs@.len() ==> key_of(#[trigger] final(self).outputs@[j]) == key_of(old(self).outputs@[j]),
            forall|j: int| 0 <= j < final(self).outputs@.len() && j != i ==> #[trigger] final(self).outputs@[j] == old(self).outputs@[j],
            final(self).outputs@[i as int].1 == value,
            final(self).config() == old(self).config(),
            final(self).error == old(self).error,
            final(self).processing == old(self).processing,
            final(self).files == old(self).files,
    {
        let ghost s = self.outputs@;
        proof { lemma_update_keeps_table(s, i as int, value); }
        let (key, _) = self.outputs.remove(i);
        self.outputs.insert(i, (key, value));
        assert(self.outputs@ =~= s.update(i as int, (s[i as int].0, value)));
    }

    /// Records the chain of an output of a run under the path of its input
    /// file and its number, with no progress.
    pub fn add_output_progress(&mut self, permutation: Permutation, processors: Vec<PermuteNodeName>)
        requires
            old(self).wf(),
        ensures
            final(self).wf(),
            final(self).table() == old(self).table().insert(
                (permutation@.file, permutation.permutation_index), planned_output(permutation@, processors@)),
            final(self).config() == old(self).config(),
            final(self).error == old(self).error,
            final(self).processing == old(self).processing,
            final(self).files == old(self).files,
    {
        let file = permutation.file.clone();
        let index = permutation.permutation_index;
        let entry = OutputProgress {
            output: permutation.output.clone(),
            permutation,
            processors,
            progress: 0,
            audio_info: AudioInfo::default(),
            deleted: false,
        };
        self.put(&file, index, entry);
    }

    /// Records the progress of an output (`progress`, the percentage of its
    /// chain done, computed by the caller) and its permutation, when the
    /// table holds it.
    pub fn update_output_progress(&mut self, permutation: Permutation, progress: i32)
        requires
            old(self).wf(),
        ensures
            final(self).wf(),
            ({
                let k = (permutation@.file, permutation.permutation_index);
                if old(self).table().dom().contains(k) {
                    final(self).table() == old(self).table().insert(k, OutputProgressView {
                        progress,
                        permutation: permutation@,
                        ..old(self).table()[k]
                    })
                } else {
                    final(self).table() == old(self).table()
                }
            }),
            final(self).config() == old(self).config(),
            final(self).error == old(self).error,
            final(self).processing == old(self).processing,
            final(self).files == old(self).files,
    {
        if let Some(pos) = self.find_key(permutation.file.as_str(), permutation.permutation_index) {
            let mut o = self.outputs[pos].1.clone();
            o.progress = progress;
            o.permutation = permutation;
            self.set_entry_value(pos, o);
        }
    }

    /// Starts a run unless one is going on; returns whether it starts.
    pub fn begin_run(&mut self) -> (r: bool)
        ensures
            r == !old(self).processing,
            final(self).processing,
            final(self).error == old(self).error,
            final(self).config() == old(self).config(),
            final(self).files == old(self).files,
            final(self).outputs == old(self).outputs,
    {
        if self.processing {
            return false;
        }
        self.processing = true;
        true
    }

    /// Marks processing as going on, for processing one file in place.
    pub fn begin_file_process(&mut self)
        ensures
            final(self).processing,
            final(self).error == old(self).error,
            final(self).config() == old(self).config(),
            final(self).files == old(self).files,
            final(self).outputs == old(self).outputs,
    {
        self.processing = true;
    }

    /// Marks processing as finished.
    pub fn set_finished(&mut self)
        ensures
            !final(self).processing,
            final(self).error == old(self).error,
            final(self).config() == old(self).config(),
            final(self).files == old(self).files,
            final(self).outputs == old(self).outputs,
    {
        self.processing = false;
    }

    /// Cancels the run: no run is going on, and the error says it was
    /// cancelled. Signalling the running chain is done by the caller.
    pub fn cancel(&mut self)
        ensures
            !final(self).processing,
            final(self).error@ == cancelled_message(),
            final(self).config() == old(self).config(),
            final(self).files == old(self).files,
            final(self).outputs == old(self).outputs,
    {
        self.processing = false;
        self.error = String::from_str("Processing cancelled by user");
    }

    /// Marks as deleted the first output of the input file `file`, when
    /// the table holds it; removing the file itself is done by the caller.
    pub fn mark_output_deleted(&mut self, file: &str)
        requires
            old(self).wf(),
        ensures
            final(self).wf(),
            ({
                let k = (file@, 1usize);
                if old(self).table().dom().contains(k) {
                    final(self).table() == old(self).table().insert(k, OutputProgressView { deleted: true, ..old(self).table()[k] })
                } else {
                    final(self).table() == old(self).table()
                }
            }),
            final(self).config() == old(self).config(),
            final(self).error == old(self).error,
            final(self).processing == old(self).processing,
            final(self).files == old(self).files,
    {
        if let Some(pos) = self.find_key(file, 1) {
            let mut o = self.outputs[pos].1.clone();
            o.deleted = true;
            self.set_entry_value(pos, o);
        }
    }

    /// Marks as deleted every output whose number is at most the number of
    /// outputs per file, and returns the paths every output was written to,
    /// for the caller to remove.
    pub fn mark_all_outputs_deleted(&mut self) -> (r: Vec<String>)
        requires
            old(self).wf(),
        ensures
            final(self).wf(),
            final(self).table().dom() == old(self).table().dom(),
            forall|k: OutputKey| #[trigger] final(self).table().dom().contains(k) ==>
                final(self).table()[k] == marked_deleted(k, old(self).table()[k], old(self).permutations),
            r@.len() == old(self).outputs@.len(),
            forall|i: int| 0 <= i < r@.len() ==> #[trigger] r@[i]@ == old(self).outputs@[i].1.output@,
            final(self).config() == old(self).config(),
            final(self).error == old(self).error,
            final(self).processing == old(self).processing,
            final(self).files == old(self).files,
    {
        let ghost start = self.outputs@;
        let n = self.permutations;
        let mut paths: Vec<String> = Vec::new();
        let mut i: usize = 0;
        while i < self.outputs.len()
            invariant
                i <= self.outputs@.len(),
                n == self.permutations,
                self.outputs@.len() == start.len(),
                self.wf(),
                unique_keys(start),
                self.config() == old(self).config(),
                self.error == old(self).error,
                self.processing == old(self).processing,
                self.files == old(self).files,
                forall|j: int| 0 <= j < self.outputs@.len() ==> key_of(#[trigger] self.outputs@[j]) == key_of(start[j]),
                forall|j: int| 0 <= j < i ==> (#[trigger] self.outputs@[j]).1@ == marked_deleted(key_of(start[j]), start[j].1@, n),
                forall|j: int| i <= j < self.outputs@.len() ==> #[trigger] self.outputs@[j] == start[j],
                paths@.len() == i,
                forall|j: int| 0 <= j < i ==> #[trigger] paths@[j]@ == start[j].1.output@,
            decreases self.outputs@.len() - i,
        {
            assert(self.outputs@[i as int] == start[i as int]);
            paths.push(self.outputs[i].1.output.clone());
            let index = self.outputs[i].0.1;
            if 1 <= index && index <= n {
                let mut o = self.outputs[i].1.clone();
                o.deleted = true;
                self.set_entry_value(i, o);
            }
            i = i + 1;
        }
        proof {
            let t = self.outputs@;
            lemma_table_of(start);
            lemma_table_of(t);
            assert forall|k: OutputKey| #[trigger] table_of(t).dom().contains(k) <==> table_of(start).dom().contains(k) by {
                if table_of(t).dom().contains(k) {
                    let j = choose|j: int| 0 <= j < t.len() && key_of(t[j]) == k;
                    assert(key_of(start[j]) == k);
                }
                if table_of(start).dom().contains(k) {
                    let j = choose|j: int| 0 <= j < start.len() && key_of(start[j]) == k;
                    assert(key_of(t[j]) == k);
                }
            }
            assert(table_of(t).dom() =~= table_of(start).dom());
            assert forall|k: OutputKey| #[trigger] table_of(t).dom().contains(k) implies
                table_of(t)[k] == marked_deleted(k, table_of(start)[k], n) by {
                let j = choose|j: int| 0 <= j < t.len() && key_of(t[j]) == k;
                assert(table_of(t)[key_of(t[j])] == t[j].1@);
                assert(key_of(start[j]) == k);
                assert(table_of(start)[key_of(start[j])] == start[j].1@);
            }
        }
        paths
    }

    /// Records what is known of a written output: the first entry (in
    /// table order) whose output is `file` gets `audio_info`, and its
    /// permutation's output is set to `file`.
    pub fn update_output_audioinfo(&mut self, file: String, audio_info: AudioInfo)
        requires
            old(self).wf(),
        ensures
            final(self).wf(),
            ({
                let pos = output_position_from(old(self).outputs@, file@, 0);
                if pos >= 0 {
                    let e = old(self).outputs@[pos].1@;
                    final(self).table() == old(self).table().insert(key_of(old(self).outputs@[pos]), OutputProgressView {
                        audio_info: audio_info@,
                        permutation: PermutationView { output: file@, ..e.permutation },
                        ..e
                    })
                } else {
                    final(self).table() == old(self).table()
                }
            }),
            final(self).config() == old(self).config(),
            final(self).error == old(self).error,
            final(self).processing == old(self).processing,
            final(self).files == old(self).files,
    {
        let mut i: usize = 0;
        while i < self.outputs.len()
            invariant
                i <= self.outputs@.len(),
                self.wf(),
                self.outputs == old(self).outputs,
                self.config() == old(self).config(),
                self.error == old(self).error,
                self.processing == old(self).processing,
                self.files == old(self).files,
                output_position_from(self.outputs@, file@, 0) == output_position_from(self.outputs@, file@, i as int),
            decreases self.outputs@.len() - i,
        {
            if str_equal(self.outputs[i].1.output.as_str(), file.as_str()) {
                assert(output_position_from(self.outputs@, file@, i as int) == i);
                let mut o = self.outputs[i].1.clone();
                o.audio_info = audio_info;
                o.permutation.output = file;
                self.set_entry_value(i, o);
                return;
            }
            i = i + 1;
        }
    }

    /// Empties the output table.
    pub fn clear(&mut self)
        ensures
            final(self).wf(),
            final(self).table() == Map::<OutputKey, OutputProgressView>::empty(),
            final(self).config() == old(self).config(),
            final(self).error == old(self).error,
            final(self).processing == old(self).processing,
            final(self).files == old(self).files,
    {
        self.outputs.clear();
        assert(self.outputs@ =~= Seq::<((String, usize), OutputProgress)>::empty());
    }

    /// Takes one message of a run into the state: a completed processor
    /// records the output's progress (`progress`, the percentage of its
    /// chain done, computed by the caller), a chosen chain records the
    /// output, generated information about an output records it, and the
    /// end of the run or an error finishes processing (an error also
    /// becomes the error message).
    pub fn handle_update(&mut self, message: PermuteUpdate, progress: i32)
        requires
            old(self).wf(),
        ensures
            final(self).wf(),
            final(self).config() == old(self).config(),
            final(self).files == old(self).files,
            match message {
                PermuteUpdate::ProcessComplete(_) => !final(self).processing
                    && final(self).error == old(self).error
                    && final(self).outputs == old(self).outputs,
                PermuteUpdate::Error(e) => !final(self).processing
                    && final(self).error@ == e@
                    && final(self).outputs == old(self).outputs,
                PermuteUpdate::UpdatePermuteNodeStarted(_, _, _) => final(self).processing == old(self).processing
                    && final(self).error == old(self).error
                    && final(self).outputs == old(self).outputs,
                PermuteUpdate::UpdatePermuteNodeCompleted(p, _, _) => final(self).processing == old(self).processing
                    && final(self).error == old(self).error
                    && ({
                        let k = (p@.file, p.permutation_index);
                        if old(self).table().dom().contains(k) {
                            final(self).table() == old(self).table().insert(k, OutputProgressView {
                                progress,
                                permutation: p@,
                                ..old(self).table()[k]
                            })
                        } else {
                            final(self).table() == old(self).table()
                        }
                    }),
                PermuteUpdate::UpdateSetProcessors(p, procs) => final(self).processing == old(self).processing
                    && final(self).error == old(self).error
                    && final(self).table() == old(self).table().insert(
                        (p@.file, p.permutation_index), planned_output(p@, chain_names(procs@))),
                PermuteUpdate::AudioInfoGenerated(file, info) => final(self).processing == old(self).processing
                    && final(self).error == old(self).error
                    && ({
                        let pos = output_position_from(old(self).outputs@, file@, 0);
                        if pos >= 0 {
                            let e = old(self).outputs@[pos].1@;
                            final(self).table() == old(self).table().insert(key_of(old(self).outputs@[pos]), OutputProgressView {
                                audio_info: info@,
                                permutation: PermutationView { output: file@, ..e.permutation },
                                ..e
                            })
                        } else {
                            final(self).table() == old(self).table()
                        }
                    }),
            },
    {
        match message {
            PermuteUpdate::UpdatePermuteNodeCompleted(permutation, _, _) => {
                self.update_output_progress(permutation, progress);
            },
            PermuteUpdate::UpdatePermuteNodeStarted(_, _, _) => {},
            PermuteUpdate::UpdateSetProcessors(permutation, processors) => {
                let mut names: Vec<PermuteNodeName> = Vec::new();
                let mut i: usize = 0;
                while i < processors.len()
                    invariant
                        i <= processors@.len(),
                        names@ == chain_names(processors@).subrange(0, i as int),
                    decreases processors@.len() - i,
                {
                    names.push(processors[i].0);
                    i = i + 1;
                    assert(names@ =~= chain_names(processors@).subrange(0, i as int));
                }
                assert(names@ =~= chain_names(processors@));
                self.add_output_progress(permutation, names);
            },
            PermuteUpdate::AudioInfoGenerated(file, info) => {
                self.update_output_audioinfo(file, info);
            },
            PermuteUpdate::ProcessComplete(_) => {
                self.set_finished();
            },
            PermuteUpdate::Error(err) => {
                self.set_finished();
                self.set_error(err);
            },
        }
    }
}

/// The settings and files kept between sessions, as saved to a settings
/// file. Float settings are the bit patterns of their `f64` values.
pub struct SharedStateSerializable {
    pub files: Vec<AudioInfo>,
    pub output: String,
    pub input_trail_bits: u64,
    pub output_trail_bits: u64,
    pub permutations: usize,
    pub permutation_depth: usize,
    pub processor_pool: Vec<PermuteNodeName>,
    pub normalise_at_end: bool,
    pub trim_all: bool,
    pub high_sample_rate: bool,
    pub processor_count: Option<i32>,
    pub create_subdirectories: bool,
}

fn clone_files(files: &Vec<AudioInfo>) -> (r: Vec<AudioInfo>)
    ensures
        r@ == files@,
{
    let r = files.clone();
    assert forall|i: int| 0 <= i < r@.len() implies r@[i] == files@[i] by {
        assert(cloned::<AudioInfo>(files[i], r[i]));
    }
    assert(r@ =~= files@);
    r
}

impl SharedState {
    /// The part of the state that a settings file keeps.
    pub fn to_serializable(&self) -> (r: SharedStateSerializable)
        ensures
            r.files@ == self.files@,
            r.output@ == self.output@,
            r.input_trail_bits == self.input_trail_bits,
            r.output_trail_bits == self.output_trail_bits,
            r.permutations == self.permutations,
            r.permutation_depth == self.permutation_depth,
            r.processor_pool@ == self.processor_pool@,
            r.normalise_at_end == self.normalise_at_end,
            r.trim_all == self.trim_all,
            r.high_sample_rate == self.high_sample_rate,
            r.processor_count == self.processor_count,
            r.create_subdirectories == self.create_subdirectories,
    {
        let pool = self.processor_pool.clone();
        assert(pool@ =~= self.processor_pool@);
        SharedStateSerializable {
            files: clone_files(&self.files),
            high_sample_rate: self.high_sample_rate,
            input_trail_bits: self.input_trail_bits,
            normalise_at_end: self.normalise_at_end,
            trim_all: self.trim_all,
            output: self.output.clone(),
            output_trail_bits: self.output_trail_bits,
            permutation_depth: self.permutation_depth,
            permutations: self.permutations,
            processor_count: self.processor_count,
            processor_pool: pool,
            create_subdirectories: self.create_subdirectories,
        }
    }

    /// Takes the settings and files of a settings file; the offered
    /// processors, whether to constrain length, the error, whether a run
    /// is going on and the outputs stay.
    pub fn apply_serializable(&mut self, data: SharedStateSerializable)
        ensures
            final(self).config() == (NodeConfig {
                output: data.output@,
                input_trail_bits: data.input_trail_bits,
                output_trail_bits: data.output_trail_bits,
                permutations: data.permutations,
                permutation_depth: data.permutation_depth,
                processor_pool: data.processor_pool@,
                normalise_at_end: data.normalise_at_end,
                trim_all: data.trim_all,
                high_sample_rate: data.high_sample_rate,
                processor_count: data.processor_count,
                create_subdirectories: data.create_subdirectories,
                ..old(self).config()
            }),
            final(self).files@ == data.files@,
            final(self).error == old(self).error,
            final(self).processing == old(self).processing,
            final(self).outputs == old(self).outputs,
    {
        self.files = data.files;
        self.high_sample_rate = data.high_sample_rate;
        self.input_trail_bits = data.input_trail_bits;
        self.normalise_at_end = data.normalise_at_end;
        self.trim_all = data.trim_all;
        self.output = data.output;
        self.output_trail_bits = data.output_trail_bits;
        self.permutation_depth = data.permutation_depth;
        self.permutations = data.permutations;
        self.processor_count = data.processor_count;
        self.processor_pool = data.processor_pool;
        self.create_subdirectories = data.create_subdirectories;
    }
}

proof fn lemma_file_position_from(files: Seq<AudioInfoView>, path: Seq<char>, i: int)
    requires
        0 <= i,
    ensures
        file_position_from(files, path, i) >= 0 ==> {
            &&& i <= file_position_from(files, path, i) < files.len()
            &&& files[file_position_from(files, path, i)].path == path
        },
    decreases files.len() - i,
{
    if i < files.len() && files[i].path != path {
        lemma_file_position_from(files, path, i + 1);
    }
}

proof fn lemma_file_outputs_contains(t: Map<OutputKey, OutputProgressView>, path: Seq<char>, j: nat, idx: nat)
    requires
        1 <= idx <= j,
        idx <= usize::MAX,
        t.dom().contains((path, idx as usize)),
    ensures
        file_outputs(t, path, j).contains(t[(path, idx as usize)]),
    decreases j,
{
    let prev = file_outputs(t, path, (j - 1) as nat);
    let tail = if t.dom().contains((path, j as usize)) { seq![t[(path, j as usize)]] } else { Seq::empty() };
    assert(file_outputs(t, path, j) == prev + tail);
    if idx == j {
        assert((prev + tail)[prev.len() as int] == t[(path, idx as usize)]);
    } else {
        lemma_file_outputs_contains(t, path, (j - 1) as nat, idx);
        let w = choose|w: int| 0 <= w < prev.len() && prev[w] == t[(path, idx as usize)];
        assert((prev + tail)[w] == prev[w]);
    }
}

proof fn lemma_ordered_outputs_contains(
    t: Map<OutputKey, OutputProgressView>,
    files: Seq<AudioInfoView>,
    k: nat,
    n: nat,
    fi: int,
    idx: nat,
)
    requires
        0 <= fi < k <= files.len(),
        1 <= idx <= n,
        idx <= usize::MAX,
        t.dom().contains((files[fi].path, idx as usize)),
    ensures
        ordered_outputs(t, files, k, n).contains(t[(files[fi].path, idx as usize)]),
    decreases k,
{
    let prev = ordered_outputs(t, files, (k - 1) as nat, n);
    let last = file_outputs(t, files[k - 1].path, n);
    assert(ordered_outputs(t, files, k, n) == prev + last);
    let x = t[(files[fi].path, idx as usize)];
    if fi == k - 1 {
        lemma_file_outputs_contains(t, files[fi].path, n, idx);
        let w = choose|w: int| 0 <= w < last.len() && last[w] == x;
        assert((prev + last)[prev.len() + w] == x);
    } else {
        lemma_ordered_outputs_contains(t, files, (k - 1) as nat, n, fi, idx);
        let w = choose|w: int| 0 <= w < prev.len() && prev[w] == x;
        assert((prev + last)[w] == x);
    }
}

/// The chain recorded for an output of an input file shows among the
/// listed outputs, as long as its number is within the number of outputs
/// per file.
pub proof fn lemma_recorded_output_is_listed(state: SharedState, p: PermutationView, procs: Seq<PermuteNodeName>)
    requires
        file_position(state.files_view(), p.file) >= 0,
        1 <= p.permutation_index <= state.permutations,
    ensures
        ordered_outputs(
            state.table().insert((p.file, p.permutation_index), planned_output(p, procs)),
            state.files_view(),
            state.files@.len() as nat,
            state.permutations as nat,
        ).contains(planned_output(p, procs)),
{
    let files = state.files_view();
    lemma_file_position_from(files, p.file, 0);
    let fi = file_position(files, p.file);
    let t = state.table().insert((p.file, p.permutation_index), planned_output(p, procs));
    assert(files.len() == state.files@.len());
    assert(files[fi].path == p.file);
    lemma_ordered_outputs_contains(t, files, files.len() as nat, state.permutations as nat, fi, p.permutation_index as nat);
}

} // verus!
