//! Names of output files and of the numbered run directories.
use vstd::prelude::*;
use crate::process::strings_view;
use crate::text::{
    all_digits, copy_range, decimal, decimal_chars, digit_char, digit_value, digits_value, find_chars,
    find_index, i64_to_string, last_index_before, last_index_of, parse_i32, parse_i32_chars, push_char,
    push_chars, signed_decimal, str_chars,
};

verus! {

/// The last segment of a path, skipping `/` separators and `.` segments;
/// empty when the path has no other segment.
pub open spec fn last_segment(s: Seq<char>) -> Seq<char>
    decreases s.len(),
{
    if s.len() == 0 {
        s
    } else if s.last() == '/' {
        last_segment(s.drop_last())
    } else {
        let seg = s.subrange(last_index_of(s, '/') + 1, s.len() as int);
        if seg == seq!['.'] {
            last_segment(s.drop_last())
        } else {
            seg
        }
    }
}

/// The file name of a path, as `Path::file_name` gives it: its last
/// segment, unless that is `..` or there is none; empty for none.
pub open spec fn file_name_of(path: Seq<char>) -> Seq<char> {
    let seg = last_segment(path);
    if seg == seq!['.', '.'] { seq![] } else { seg }
}

/// The stem of a file name, as `Path::file_stem` gives it (empty for
/// none): the name before its last `.`, or the whole name when it has no
/// `.` or its only `.` leads it.
pub open spec fn file_stem_of(path: Seq<char>) -> Seq<char> {
    let name = file_name_of(path);
    let dot = last_index_of(name, '.');
    if dot <= 0 { name } else { name.subrange(0, dot) }
}

/// The extension of a file name, as `Path::extension` gives it (empty
/// for none): the name after its last `.`, when that `.` does not lead it.
pub open spec fn extension_of(path: Seq<char>) -> Seq<char> {
    let name = file_name_of(path);
    let dot = last_index_of(name, '.');
    if dot <= 0 { seq![] } else { name.subrange(dot + 1, name.len() as int) }
}

/// `dir` joined with `name` as `PathBuf::push` joins a relative name: a
/// separator goes between them unless `dir` is empty or ends with one.
pub open spec fn join_path(dir: Seq<char>, name: Seq<char>) -> Seq<char> {
    if dir.len() == 0 || dir.last() == '/' { dir + name } else { dir + seq!['/'] + name }
}

/// The path of output `count` of `file` in the directory `output`:
/// the file's stem, the count, a dot and the extension (`wav` when
/// writing wav files).
pub open spec fn output_file_path(file: Seq<char>, output: Seq<char>, count: nat, as_wav: bool) -> Seq<char> {
    let ext = if as_wav { seq!['w', 'a', 'v'] } else { extension_of(file) };
    join_path(output, file_stem_of(file) + decimal(count) + seq!['.'] + ext)
}

/// The last segment of `v[..end]`.
fn last_segment_before(v: &Vec<char>, end: usize) -> (r: Vec<char>)
    requires
        end <= v@.len(),
    ensures
        r@ == last_segment(v@.subrange(0, end as int)),
    decreases end,
{
    let ghost p = v@.subrange(0, end as int);
    if end == 0 {
        return Vec::new();
    }
    assert(p.drop_last() =~= v@.subrange(0, end - 1));
    if v[end - 1] == '/' {
        return last_segment_before(v, end - 1);
    }
    let start = match last_index_before(v, end, '/') {
        Some(i) => i + 1,
        None => 0,
    };
    let seg = copy_range(v, start, end);
    assert(seg@ =~= p.subrange(last_index_of(p, '/') + 1, p.len() as int));
    if seg.len() == 1 && seg[0] == '.' {
        assert(seg@ =~= seq!['.']);
        last_segment_before(v, end - 1)
    } else {
        assert(seg@ != seq!['.']);
        seg
    }
}

/// The stem and the extension of the file name of `file` (each empty
/// when there is none).
pub(crate) fn stem_and_extension(file: &str) -> (r: (Vec<char>, Vec<char>))
    ensures
        r.0@ == file_stem_of(file@),
        r.1@ == extension_of(file@),
{
    let chars = str_chars(file);
    let seg = last_segment_before(&chars, chars.len());
    assert(chars@.subrange(0, chars@.len() as int) =~= file@);
    let is_parent = seg.len() == 2 && seg[0] == '.' && seg[1] == '.';
    proof {
        if is_parent {
            assert(seg@ =~= seq!['.', '.']);
        } else {
            assert(seg@ != seq!['.', '.']);
        }
    }
    let name: Vec<char> = if is_parent { Vec::new() } else { seg };
    assert(name@ == file_name_of(file@));
    let dot = last_index_before(&name, name.len(), '.');
    assert(name@.subrange(0, name@.len() as int) =~= name@);
    match dot {
        Some(k) => {
            if k == 0 {
                (copy_range(&name, 0, name.len()), Vec::new())
            } else {
                (copy_range(&name, 0, k), copy_range(&name, k + 1, name.len()))
            }
        },
        None => (copy_range(&name, 0, name.len()), Vec::new()),
    }
}

/// The name of output `permutation_count` of `file`, in the directory
/// `output`. `output` is the output directory as `Path::canonicalize`
/// gives it; resolving it reads the file system and is done by the caller.
pub fn generate_file_name(
    file: String,
    output: String,
    permutation_count: usize,
    output_file_as_wav: bool,
) -> (r: String)
    ensures
        r@ == output_file_path(file@, output@, permutation_count as nat, output_file_as_wav),
{
    let (stem, ext) = stem_and_extension(file.as_str());
    let ext: Vec<char> = if output_file_as_wav { vec!['w', 'a', 'v'] } else { ext };
    let ghost e = if output_file_as_wav { seq!['w', 'a', 'v'] } else { extension_of(file@) };
    assert(ext@ =~= e);
    let mut r = String::from_str(output.as_str());
    let dir = str_chars(output.as_str());
    let needs_separator = dir.len() > 0 && dir[dir.len() - 1] != '/';
    if needs_separator {
        push_char(&mut r, '/');
    }
    let ghost base = r@;
    push_chars(&mut r, &stem);
    let count = decimal_chars(permutation_count as u64);
    push_chars(&mut r, &count);
    push_char(&mut r, '.');
    push_chars(&mut r, &ext);
    proof {
        let n = file_stem_of(file@) + decimal(permutation_count as nat) + seq!['.'] + e;
        assert(r@ =~= base + n);
        if needs_separator {
            assert(base =~= output@ + seq!['/']);
        } else {
            assert(base =~= output@);
        }
    }
    r
}

/// The prefix of the names of run directories.
pub open spec fn run_prefix() -> Seq<char> {
    seq!['p', 'e', 'r', 'm', 'u', 't', 'e', 's']
}

/// The run number that a directory name holds: what follows the first
/// `permutes` in it, read as an `i32`; 0 when there is no `permutes` or
/// what follows is no `i32`.
pub open spec fn run_number(name: Seq<char>) -> int {
    let i = find_index(name, run_prefix());
    if i < 0 {
        0
    } else {
        match parse_i32(name.subrange(i + 8, name.len() as int)) {
            Some(v) => v as int,
            None => 0,
        }
    }
}

/// The largest run number among the names, and at least 0.
pub open spec fn max_run_number(names: Seq<Seq<char>>) -> int
    decreases names.len(),
{
    if names.len() == 0 {
        0
    } else {
        let m = max_run_number(names.drop_last());
        let n = run_number(names.last());
        if n > m { n } else { m }
    }
}

/// The name of the run directory with number `k`.
pub open spec fn run_dir_name(k: int) -> Seq<char> {
    run_prefix() + signed_decimal(k)
}

fn run_prefix_chars() -> (r: Vec<char>)
    ensures
        r@ == run_prefix(),
{
    let r = vec!['p', 'e', 'r', 'm', 'u', 't', 'e', 's'];
    assert(r@ =~= run_prefix());
    r
}

/// The run number that the directory name `dir` holds.
pub fn output_run_number(dir: &str) -> (r: i32)
    ensures
        r as int == run_number(dir@),
{
    let chars = str_chars(dir);
    let len = chars.len();
    let prefix = run_prefix_chars();
    match find_chars(&chars, &prefix) {
        None => 0,
        Some(i) => {
            assert(prefix@.len() == 8);
            let rest = copy_range(&chars, i + 8, len);
            match parse_i32_chars(&rest) {
                Some(v) => v,
                None => 0,
            }
        },
    }
}

/// The largest run number among the names of the directories in the
/// output directory (0 when there is none).
pub fn output_run_max(dir_names: &Vec<String>) -> (r: i32)
    ensures
        r as int == max_run_number(strings_view(dir_names@)),
{
    let mut run_max: i32 = 0;
    let mut i: usize = 0;
    while i < dir_names.len()
        invariant
            i <= dir_names@.len(),
            run_max as int == max_run_number(strings_view(dir_names@.subrange(0, i as int))),
        decreases dir_names@.len() - i,
    {
        let n = output_run_number(dir_names[i].as_str());
        proof {
            let pre = dir_names@.subrange(0, i as int);
            let next = dir_names@.subrange(0, i + 1);
            assert(strings_view(next).drop_last() =~= strings_view(pre));
            assert(strings_view(next).last() == dir_names@[i as int]@);
        }
        if n > run_max {
            run_max = n;
        }
        i = i + 1;
    }
    assert(dir_names@.subrange(0, i as int) =~= dir_names@);
    run_max
}

/// The path of the next run directory, numbered one past `run_max`,
/// inside `output_dir`.
pub fn output_run_dir(output_dir: &str, run_max: i32) -> (r: String)
    requires
        run_max < i32::MAX,
    ensures
        r@ == join_path(output_dir@, run_dir_name(run_max + 1)),
{
    let prefix = run_prefix_chars();
    let number = i64_to_string((run_max + 1) as i64);
    let mut r = String::from_str(output_dir);
    let dir = str_chars(output_dir);
    let needs_separator = dir.len() > 0 && dir[dir.len() - 1] != '/';
    if needs_separator {
        push_char(&mut r, '/');
    }
    let ghost base = r@;
    push_chars(&mut r, &prefix);
    let number_chars = str_chars(number.as_str());
    push_chars(&mut r, &number_chars);
    proof {
        assert(r@ =~= base + run_dir_name(run_max + 1));
        if needs_separator {
            assert(base =~= output_dir@ + seq!['/']);
        } else {
            assert(base =~= output_dir@);
        }
    }
    r
}

proof fn lemma_digit_char(d: nat)
    requires
        d < 10,
    ensures
        digit_value(digit_char(d)) == d,
        '0' <= digit_char(d) <= '9',
{
}

proof fn lemma_decimal_digits(n: nat)
    ensures
        all_digits(decimal(n)),
        digits_value(decimal(n)) == n,
        decimal(n).len() > 0,
    decreases n,
{
    lemma_digit_char(n % 10);
    if n < 10 {
        assert(decimal(n).drop_last() =~= Seq::<char>::empty());
        assert(n % 10 == n);
        assert(decimal(n).last() == digit_char(n));
        assert(digits_value(decimal(n)) == digits_value(Seq::<char>::empty()) * 10 + digit_value(digit_char(n)));
    }
    if n >= 10 {
        lemma_decimal_digits(n / 10);
        let d = decimal(n);
        assert(d.drop_last() =~= decimal(n / 10));
        assert(d.last() == digit_char(n % 10));
        assert(digits_value(d) == digits_value(decimal(n / 10)) * 10 + digit_value(digit_char(n % 10)));
        assert((n / 10) * 10 + n % 10 == n);
        assert forall|i: int| 0 <= i < d.len() implies '0' <= #[trigger] d[i] <= '9' by {
            if i < d.len() - 1 {
                assert(d[i] == decimal(n / 10)[i]);
            }
        }
    }
}

proof fn lemma_run_number_of_run_dir(k: int)
    requires
        1 <= k <= i32::MAX,
    ensures
        run_number(run_dir_name(k)) == k,
{
    let name = run_dir_name(k);
    lemma_decimal_digits(k as nat);
    assert(name.subrange(0, 8) =~= run_prefix());
    assert(find_index(name, run_prefix()) == 0);
    let rest = name.subrange(8, name.len() as int);
    assert(rest =~= decimal(k as nat));
    assert('0' <= rest[0] <= '9');
    assert(parse_i32(rest) == Some(k as i32));
}

proof fn lemma_max_run_number_bounds(names: Seq<Seq<char>>, i: int)
    requires
        0 <= i < names.len(),
    ensures
        run_number(names[i]) <= max_run_number(names),
        0 <= max_run_number(names),
    decreases names.len(),
{
    if i < names.len() - 1 {
        lemma_max_run_number_bounds(names.drop_last(), i);
        assert(names.drop_last()[i] == names[i]);
    } else if names.len() > 1 {
        lemma_max_run_number_bounds(names.drop_last(), 0);
    } else {
        assert(max_run_number(names.drop_last()) == 0);
    }
}

/// A new run directory never takes the number of an existing one: its
/// run number is larger than that of every directory already there.
pub proof fn lemma_new_run_is_fresh(names: Seq<Seq<char>>)
    requires
        max_run_number(names) < i32::MAX,
    ensures
        run_number(run_dir_name(max_run_number(names) + 1)) == max_run_number(names) + 1,
        forall|i: int| 0 <= i < names.len() ==> #[trigger] run_number(names[i]) < run_number(run_dir_name(max_run_number(names) + 1)),
{
    if names.len() > 0 {
        lemma_max_run_number_bounds(names, 0);
    }
    lemma_run_number_of_run_dir(max_run_number(names) + 1);
    assert forall|i: int| 0 <= i < names.len() implies #[trigger] run_number(names[i]) < run_number(run_dir_name(max_run_number(names) + 1)) by {
        lemma_max_run_number_bounds(names, i);
    }
}

/// Each output of an input file has a path of its own: two different
/// output numbers never name the same file.
pub proof fn lemma_output_paths_distinct(file: Seq<char>, output: Seq<char>, i: nat, j: nat, as_wav: bool)
    requires
        i != j,
    ensures
        output_file_path(file, output, i, as_wav) != output_file_path(file, output, j, as_wav),
{
    lemma_decimal_digits(i);
    lemma_decimal_digits(j);
    let ext = if as_wav { seq!['w', 'a', 'v'] } else { extension_of(file) };
    let stem = file_stem_of(file);
    let a = stem + decimal(i) + seq!['.'] + ext;
    let b = stem + decimal(j) + seq!['.'] + ext;
    let p = if output.len() == 0 || output.last() == '/' { output } else { output + seq!['/'] };
    assert(output_file_path(file, output, i, as_wav) =~= p + a);
    assert(output_file_path(file, output, j, as_wav) =~= p + b);
    if output_file_path(file, output, i, as_wav) == output_file_path(file, output, j, as_wav) {
        assert((p + a).subrange(p.len() as int, (p + a).len() as int) =~= a);
        assert((p + b).subrange(p.len() as int, (p + b).len() as int) =~= b);
        assert(a == b);
        assert(decimal(i).len() == decimal(j).len());
        let lo = stem.len() as int;
        let hi = lo + decimal(i).len();
        assert(a.subrange(lo, hi) =~= decimal(i));
        assert(b.subrange(lo, hi) =~= decimal(j));
        assert(decimal(i) == decimal(j));
        assert(false);
    }
}

} // verus!
