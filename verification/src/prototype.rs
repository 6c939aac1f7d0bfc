//! The first command line tool: its processor chains (levels of speed
//! changes, each of two to seven processors, then normalisation) and the
//! names of its outputs, numbered beside the output it is given.
use vstd::prelude::*;
use crate::files::{extension_of, file_stem_of, join_path, stem_and_extension};
use crate::process::PermuteNodeName;
use crate::rng::{gen_range_usize, thread_rng};
use crate::text::{decimal, decimal_chars, last_index_of, lemma_last_index_of, push_char, push_chars, str_chars};

verus! {

/// What a chain of the first command line tool is generated from.
pub struct GetProcessorNodeParams {
    pub normalise_at_end: bool,
    pub depth: usize,
}

/// A processor the first command line tool draws: half or double speed.
pub open spec fn is_speed_change(p: PermuteNodeName) -> bool {
    p == PermuteNodeName::HalfSpeed || p == PermuteNodeName::DoubleSpeed
}

/// `level` is one level of a chain: two to seven speed changes.
pub open spec fn speed_level(level: Seq<PermuteNodeName>) -> bool {
    &&& 2 <= level.len() <= 7
    &&& forall|i: int| 0 <= i < level.len() ==> is_speed_change(#[trigger] level[i])
}

/// `body` is `levels` levels of two to seven speed changes each, one after
/// the other: its last level follows `levels - 1` levels.
#[verifier::opaque]
pub open spec fn speed_levels(body: Seq<PermuteNodeName>, levels: nat) -> bool
    decreases levels,
{
    if levels == 0 {
        body.len() == 0
    } else {
        exists|n: int|
            0 <= n <= body.len()
            && #[trigger] speed_level(body.subrange(body.len() - n, body.len() as int))
            && speed_levels(body.subrange(0, body.len() - n), (levels - 1) as nat)
    }
}

/// A level after `levels - 1` levels makes `levels` levels.
proof fn lemma_add_level(prefix: Seq<PermuteNodeName>, level: Seq<PermuteNodeName>, levels: nat)
    requires
        levels > 0,
        speed_levels(prefix, (levels - 1) as nat),
        speed_level(level),
    ensures
        speed_levels(prefix + level, levels),
{
    reveal(speed_levels);
    let body = prefix + level;
    let n = level.len() as int;
    assert(body.subrange(body.len() - n, body.len() as int) =~= level);
    assert(speed_level(body.subrange(body.len() - n, body.len() as int)));
    assert(body.subrange(0, body.len() - n) =~= prefix);
    assert(speed_levels(body.subrange(0, body.len() - n), (levels - 1) as nat));
}

/// A random chain: `depth + 1` levels of two to seven speed changes each,
/// the deepest level first, then Normalise when asked for.
pub fn generate_processor_sequence(params: GetProcessorNodeParams) -> (r: Vec<PermuteNodeName>)
    ensures
        params.normalise_at_end ==> r@.len() > 0 && r@.last() == PermuteNodeName::Normalise
            && speed_levels(r@.drop_last(), (params.depth + 1) as nat),
        !params.normalise_at_end ==> speed_levels(r@, (params.depth + 1) as nat),
    decreases params.depth,
{
    let GetProcessorNodeParams { normalise_at_end, depth } = params;
    let pool = vec![PermuteNodeName::HalfSpeed, PermuteNodeName::DoubleSpeed];
    let mut rng = thread_rng();
    let processor_count = gen_range_usize(&mut rng, 2, 8);
    let mut processors: Vec<PermuteNodeName> = Vec::new();
    let mut i: usize = 0;
    while i < processor_count
        invariant
            i <= processor_count,
            processors@.len() == i,
            pool@ == seq![PermuteNodeName::HalfSpeed, PermuteNodeName::DoubleSpeed],
            forall|k: int| 0 <= k < processors@.len() ==> is_speed_change(#[trigger] processors@[k]),
        decreases processor_count - i,
    {
        let j = gen_range_usize(&mut rng, 0, pool.len());
        processors.push(pool[j]);
        i = i + 1;
    }
    let ghost level = processors@;
    if depth > 0 {
        let mut deeper = generate_processor_sequence(GetProcessorNodeParams { depth: depth - 1, normalise_at_end: false });
        let ghost d = deeper@;
        deeper.append(&mut processors);
        processors = deeper;
        proof {
            lemma_add_level(d, level, (depth + 1) as nat);
            assert(processors@ =~= d + level);
        }
    } else {
        proof {
            reveal(speed_levels);
            assert(speed_levels(Seq::<PermuteNodeName>::empty(), 0));
            lemma_add_level(Seq::<PermuteNodeName>::empty(), level, 1);
            assert(processors@ =~= Seq::<PermuteNodeName>::empty() + level);
        }
    }
    let ghost body = processors@;
    if normalise_at_end {
        processors.push(PermuteNodeName::Normalise);
        assert(processors@.drop_last() =~= body);
    }
    processors
}

/// How many characters of a path come before its first component: a
/// leading `/`, or a leading `.` that is the whole path or is followed by
/// `/`.
pub open spec fn head_len(t: Seq<char>) -> int {
    if t.len() > 0 && t[0] == '/' {
        1
    } else if t.len() > 0 && t[0] == '.' && (t.len() == 1 || t[1] == '/') {
        1
    } else {
        0
    }
}

/// The path after its head.
pub open spec fn path_body(t: Seq<char>) -> Seq<char> {
    t.subrange(head_len(t), t.len() as int)
}

/// The last component of a path: what follows the last `/` of its body.
pub open spec fn back_component(t: Seq<char>) -> Seq<char> {
    let body = path_body(t);
    body.subrange(last_index_of(body, '/') + 1, body.len() as int)
}

/// How many characters the last component takes, with the `/` before it.
pub open spec fn back_size(t: Seq<char>) -> int {
    let body = path_body(t);
    let i = last_index_of(body, '/');
    if i < 0 { body.len() as int } else { body.len() - i }
}

/// A component that paths skip: an empty one or `.`.
pub open spec fn is_skipped(c: Seq<char>) -> bool {
    c.len() == 0 || c == seq!['.']
}

/// The path without its trailing empty and `.` components.
pub open spec fn trim_back(t: Seq<char>) -> Seq<char>
    decreases t.len(),
{
    if t.len() <= head_len(t) {
        t
    } else if is_skipped(back_component(t)) {
        proof { lemma_last_index_of(path_body(t), '/'); }
        trim_back(t.subrange(0, t.len() - back_size(t)))
    } else {
        t
    }
}

/// A path with its file name set to `name`, as `Path::with_file_name`
/// makes it: when the path ends in a file name, that name is replaced
/// (with what stood between the parent and it); else `name` is appended.
pub open spec fn with_file_name(path: Seq<char>, name: Seq<char>) -> Seq<char> {
    let t = trim_back(path);
    if t.len() > head_len(t) && back_component(t) != seq!['.', '.'] {
        join_path(trim_back(t.subrange(0, t.len() - back_size(t))), name)
    } else {
        join_path(path, name)
    }
}

/// The name of output `count` of the first command line tool: the output
/// path's stem, the count, a dot and the output's extension, in place of
/// the output's file name.
pub open spec fn numbered_output(output: Seq<char>, count: nat) -> Seq<char> {
    with_file_name(output, file_stem_of(output) + decimal(count) + seq!['.'] + extension_of(output))
}

fn head_len_of(v: &Vec<char>, end: usize) -> (r: usize)
    requires
        end <= v@.len(),
    ensures
        r as int == head_len(v@.subrange(0, end as int)),
        r <= end,
{
    if end > 0 && v[0] == '/' {
        1
    } else if end > 0 && v[0] == '.' && (end == 1 || v[1] == '/') {
        1
    } else {
        0
    }
}

/// The position of the last `/` among `v[lo..hi]`.
fn last_sep_in(v: &Vec<char>, lo: usize, hi: usize) -> (r: Option<usize>)
    requires
        lo <= hi <= v@.len(),
    ensures
        match r {
            Some(i) => lo <= i < hi && i - lo == last_index_of(v@.subrange(lo as int, hi as int), '/'),
            None => last_index_of(v@.subrange(lo as int, hi as int), '/') == -1,
        },
    decreases hi - lo,
{
    if hi == lo {
        None
    } else if v[hi - 1] == '/' {
        Some(hi - 1)
    } else {
        assert(v@.subrange(lo as int, hi as int).drop_last() =~= v@.subrange(lo as int, hi - 1));
        last_sep_in(v, lo, hi - 1)
    }
}

/// The size and the start of the last component of `v[..end]`.
fn back_of(v: &Vec<char>, end: usize) -> (r: (usize, usize))
    requires
        end <= v@.len(),
    ensures
        r.0 as int == back_size(v@.subrange(0, end as int)),
        r.1 <= end,
        v@.subrange(r.1 as int, end as int) == back_component(v@.subrange(0, end as int)),
        r.0 <= end,
        end > head_len(v@.subrange(0, end as int)) ==> r.0 >= 1,
{
    let ghost t = v@.subrange(0, end as int);
    let h = head_len_of(v, end);
    let ghost body = path_body(t);
    assert(body =~= v@.subrange(h as int, end as int));
    proof { lemma_last_index_of(body, '/'); }
    match last_sep_in(v, h, end) {
        Some(i) => {
            assert(back_component(t) =~= v@.subrange(i + 1, end as int));
            (end - i, i + 1)
        },
        None => {
            assert(back_component(t) =~= v@.subrange(h as int, end as int));
            (end - h, h)
        },
    }
}

/// The length of `trim_back(v[..end])`.
fn trim_back_len(v: &Vec<char>, end: usize) -> (r: usize)
    requires
        end <= v@.len(),
    ensures
        r <= end,
        v@.subrange(0, r as int) == trim_back(v@.subrange(0, end as int)),
    decreases end,
{
    let ghost t = v@.subrange(0, end as int);
    let h = head_len_of(v, end);
    if end <= h {
        return end;
    }
    let (size, start) = back_of(v, end);
    let skipped = start == end || (end - start == 1 && v[start] == '.');
    assert(skipped == is_skipped(back_component(t))) by {
        let c = v@.subrange(start as int, end as int);
        if end - start == 1 && v[start as int] == '.' {
            assert(c =~= seq!['.']);
        }
        if c == seq!['.'] {
            assert(c.len() == 1 && c[0] == v@[start as int]);
        }
    }
    if skipped {
        assert(t.subrange(0, t.len() - back_size(t)) =~= v@.subrange(0, end - size));
        trim_back_len(v, end - size)
    } else {
        end
    }
}

/// The name of output `count` of the first command line tool: the output
/// path's stem, the count, a dot and the output's extension, in place of
/// the output's file name.
#[verifier::spinoff_prover]
pub fn generate_file_name(output: String, permutation_count: usize) -> (r: String)
    ensures
        r@ == numbered_output(output@, permutation_count as nat),
{
    let v = str_chars(output.as_str());
    assert(v@.subrange(0, v@.len() as int) =~= v@);
    let (stem, ext) = stem_and_extension(output.as_str());
    let mut name: Vec<char> = stem;
    let mut count = decimal_chars(permutation_count as u64);
    name.append(&mut count);
    name.push('.');
    let mut e = ext;
    name.append(&mut e);
    let ghost nm = file_stem_of(output@) + decimal(permutation_count as nat) + seq!['.'] + extension_of(output@);
    assert(name@ =~= nm);
    let t_len = trim_back_len(&v, v.len());
    let ghost t = v@.subrange(0, t_len as int);
    let h = head_len_of(&v, t_len);
    let mut dir_len: usize = v.len();
    let mut replaces = false;
    if t_len > h {
        let (size, start) = back_of(&v, t_len);
        let is_parent = t_len - start == 2 && v[start] == '.' && v[start + 1] == '.';
        assert(is_parent == (back_component(t) == seq!['.', '.'])) by {
            let c = v@.subrange(start as int, t_len as int);
            if is_parent {
                assert(c =~= seq!['.', '.']);
            }
            if c == seq!['.', '.'] {
                assert(c.len() == 2);
                assert(c[0] == v@[start as int]);
                assert(c[1] == v@[start + 1]);
                assert(seq!['.', '.'][0] == '.' && seq!['.', '.'][1] == '.');
            }
        }
        if !is_parent {
            assert(t.subrange(0, t.len() - back_size(t)) =~= v@.subrange(0, t_len - size));
            dir_len = trim_back_len(&v, t_len - size);
            replaces = true;
        }
    }
    let ghost dir = v@.subrange(0, dir_len as int);
    assert(dir == if replaces { trim_back(t.subrange(0, t.len() - back_size(t))) } else { output@ });
    let mut r = String::new();
    let mut prefix: Vec<char> = Vec::new();
    let mut i: usize = 0;
    while i < dir_len
        invariant
            i <= dir_len,
            dir_len <= v@.len(),
            prefix@ == v@.subrange(0, i as int),
        decreases dir_len - i,
    {
        prefix.push(v[i]);
        i = i + 1;
        assert(prefix@ =~= v@.subrange(0, i as int));
    }
    push_chars(&mut r, &prefix);
    if dir_len > 0 && v[dir_len - 1] != '/' {
        push_char(&mut r, '/');
    }
    let ghost base = r@;
    push_chars(&mut r, &name);
    assert(r@ =~= join_path(dir, nm)) by {
        if dir_len > 0 && v[dir_len - 1] != '/' {
            assert(base =~= dir + seq!['/']);
        } else {
            assert(base =~= dir);
        }
    }
    r
}

} // verus!
