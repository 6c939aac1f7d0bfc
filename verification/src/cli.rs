//! The choices of the command line tool: which processors a run may use,
//! how many per level, which files it reads, and the table of the
//! attributes each output's processors chose.
use vstd::prelude::*;
use crate::display_node::{display_name, get_processor_display_name, get_processor_from_display_name, processor_from_display};
use crate::process::{strings_view, Permutation, PermutationView, PermuteNodeName, ProcessorAttribute};
use crate::text::{decimal, push_chars, str_chars, u64_to_string};

verus! {

/// The processors a command line run picks from when none is named.
pub open spec fn cli_default_pool() -> Seq<PermuteNodeName> {
    seq![
        PermuteNodeName::GranularTimeStretch,
        PermuteNodeName::Reverse,
        PermuteNodeName::MetallicDelay,
        PermuteNodeName::RhythmicDelay,
        PermuteNodeName::HalfSpeed,
        PermuteNodeName::DoubleSpeed,
        PermuteNodeName::RandomPitch,
        PermuteNodeName::Wow,
        PermuteNodeName::Flutter,
        PermuteNodeName::Chorus,
        PermuteNodeName::Phaser,
        PermuteNodeName::Flange,
        PermuteNodeName::Filter,
        PermuteNodeName::Lazer,
        PermuteNodeName::LineFilter,
        PermuteNodeName::OscillatingFilter,
        PermuteNodeName::CrossGain,
        PermuteNodeName::CrossFilter,
    ]
}

/// The default pool of a command line run is the first tool's eighteen
/// processors, in its order: it holds Reverse and not Reverb, none of the
/// later processors (Fuzz, Saturate, Tremolo, Blur stretch, Cross distort),
/// none of the chain's fixed steps, and no processor twice.
pub proof fn lemma_cli_default_pool()
    ensures
        cli_default_pool().len() == 18,
        cli_default_pool()[0] == PermuteNodeName::GranularTimeStretch,
        cli_default_pool()[1] == PermuteNodeName::Reverse,
        cli_default_pool()[2] == PermuteNodeName::MetallicDelay,
        cli_default_pool()[3] == PermuteNodeName::RhythmicDelay,
        cli_default_pool()[4] == PermuteNodeName::HalfSpeed,
        cli_default_pool()[5] == PermuteNodeName::DoubleSpeed,
        cli_default_pool()[6] == PermuteNodeName::RandomPitch,
        cli_default_pool()[7] == PermuteNodeName::Wow,
        cli_default_pool()[8] == PermuteNodeName::Flutter,
        cli_default_pool()[9] == PermuteNodeName::Chorus,
        cli_default_pool()[10] == PermuteNodeName::Phaser,
        cli_default_pool()[11] == PermuteNodeName::Flange,
        cli_default_pool()[12] == PermuteNodeName::Filter,
        cli_default_pool()[13] == PermuteNodeName::Lazer,
        cli_default_pool()[14] == PermuteNodeName::LineFilter,
        cli_default_pool()[15] == PermuteNodeName::OscillatingFilter,
        cli_default_pool()[16] == PermuteNodeName::CrossGain,
        cli_default_pool()[17] == PermuteNodeName::CrossFilter,
        cli_default_pool().contains(PermuteNodeName::Reverse),
        !cli_default_pool().contains(PermuteNodeName::Reverb),
        !cli_default_pool().contains(PermuteNodeName::Fuzz),
        !cli_default_pool().contains(PermuteNodeName::Saturate),
        !cli_default_pool().contains(PermuteNodeName::Tremolo),
        !cli_default_pool().contains(PermuteNodeName::BlurStretch),
        !cli_default_pool().contains(PermuteNodeName::CrossDistort),
        !cli_default_pool().contains(PermuteNodeName::Normalise),
        !cli_default_pool().contains(PermuteNodeName::Trim),
        !cli_default_pool().contains(PermuteNodeName::SampleRateConversionHigh),
        !cli_default_pool().contains(PermuteNodeName::SampleRateConversionOriginal),
        forall|i: int, j: int| 0 <= i < j < cli_default_pool().len() ==> cli_default_pool()[i] != cli_default_pool()[j],
{
    let p = cli_default_pool();
    assert(p[1] == PermuteNodeName::Reverse);
    assert forall|n: PermuteNodeName| p.contains(n) implies
        n != PermuteNodeName::Reverb && n != PermuteNodeName::Fuzz && n != PermuteNodeName::Saturate
        && n != PermuteNodeName::Tremolo && n != PermuteNodeName::BlurStretch && n != PermuteNodeName::CrossDistort
        && n != PermuteNodeName::Normalise && n != PermuteNodeName::Trim
        && n != PermuteNodeName::SampleRateConversionHigh && n != PermuteNodeName::SampleRateConversionOriginal by {
        let i = choose|i: int| 0 <= i < p.len() && p[i] == n;
    }
}

/// The processor pool of a command line run: the default pool when no
/// processor is named, else the named processor alone; an unknown name is
/// the error of [`get_processor_from_display_name`].
pub fn cli_processor_pool(processor: &str) -> (r: Result<Vec<PermuteNodeName>, String>)
    ensures
        processor@.len() == 0 ==> (r matches Ok(v) && v@ == cli_default_pool()),
        processor@.len() > 0 ==> match processor_from_display(processor@) {
            Some(p) => (r matches Ok(v) && v@ == seq![p]),
            None => (r matches Err(e) && e@ == processor@ + " not found"@),
        },
{
    if processor.unicode_len() == 0 {
        let v = vec![
            PermuteNodeName::GranularTimeStretch,
            PermuteNodeName::Reverse,
            PermuteNodeName::MetallicDelay,
            PermuteNodeName::RhythmicDelay,
            PermuteNodeName::HalfSpeed,
            PermuteNodeName::DoubleSpeed,
            PermuteNodeName::RandomPitch,
            PermuteNodeName::Wow,
            PermuteNodeName::Flutter,
            PermuteNodeName::Chorus,
            PermuteNodeName::Phaser,
            PermuteNodeName::Flange,
            PermuteNodeName::Filter,
            PermuteNodeName::Lazer,
            PermuteNodeName::LineFilter,
            PermuteNodeName::OscillatingFilter,
            PermuteNodeName::CrossGain,
            PermuteNodeName::CrossFilter,
        ];
        assert(v@ =~= cli_default_pool());
        return Ok(v);
    }
    match get_processor_from_display_name(processor) {
        Ok(p) => {
            let v = vec![p];
            assert(v@ =~= seq![p]);
            Ok(v)
        },
        Err(e) => Err(e),
    }
}

/// The number of processors per level of a command line run: none (a
/// random number) when the option is 0.
pub fn cli_processor_count(processor_count: i32) -> (r: Option<i32>)
    ensures
        r == if processor_count == 0 { None } else { Some(processor_count) },
{
    if processor_count == 0 {
        None
    } else {
        Some(processor_count)
    }
}

/// The files of a command line run: the file to process, then the extra
/// side-chain files.
pub fn cli_files(file: String, files: Vec<String>) -> (r: Vec<String>)
    ensures
        strings_view(r@) == seq![file@] + strings_view(files@),
{
    let ghost f = file@;
    let mut r: Vec<String> = vec![file];
    let mut i: usize = 0;
    while i < files.len()
        invariant
            i <= files@.len(),
            strings_view(r@) == seq![f] + strings_view(files@.subrange(0, i as int)),
        decreases files@.len() - i,
    {
        let ghost prev = r@;
        let s = files[i].clone();
        r.push(s);
        assert(strings_view(r@) =~= strings_view(prev).push(files@[i as int]@));
        assert(strings_view(files@.subrange(0, i + 1)) =~= strings_view(files@.subrange(0, i as int)).push(files@[i as int]@));
        i = i + 1;
    }
    assert(files@.subrange(0, i as int) =~= files@);
    r
}

/// `n` spaces (none when `n` is not positive).
pub open spec fn spaces(n: int) -> Seq<char> {
    Seq::new((if n > 0 { n } else { 0 }) as nat, |i: int| ' ')
}

/// `s` padded with spaces on the right to `w` characters.
pub open spec fn pad_right(s: Seq<char>, w: int) -> Seq<char> {
    s + spaces(w - s.len())
}

/// `s` padded with spaces on the left to `w` characters.
pub open spec fn pad_left(s: Seq<char>, w: int) -> Seq<char> {
    spaces(w - s.len()) + s
}

/// The top border of an attribute table.
pub open spec fn table_top() -> Seq<char> {
    "┌─────┬────────────────────┬───────────────────────────┐"@
}

/// The heading row of an attribute table.
pub open spec fn table_heading() -> Seq<char> {
    "│ Node│ Processor          │ Attributes                │"@
}

/// The line between processors of an attribute table.
pub open spec fn table_separator() -> Seq<char> {
    "├─────┼────────────────────┼───────────────────────────┤"@
}

/// The bottom border of an attribute table.
pub open spec fn table_bottom() -> Seq<char> {
    "└─────┴────────────────────┴───────────────────────────┘"@
}

/// A row of an attribute table: the node column (already three wide), the
/// processor name padded to 18 and the attribute padded to 25.
pub open spec fn table_row(node: Seq<char>, name: Seq<char>, attribute: Seq<char>) -> Seq<char> {
    "│ "@ + node + " │ "@ + pad_right(name, 18) + " │ "@ + pad_right(attribute, 25) + " │"@
}

/// An attribute as the table shows it.
pub open spec fn attribute_text(a: (Seq<char>, Seq<char>)) -> Seq<char> {
    a.0 + ": "@ + a.1
}

/// The rows of processor number `i`: one per attribute, the first naming
/// the node and the processor; one row with no attribute when it has none.
pub open spec fn processor_rows(i: nat, p: (PermuteNodeName, Seq<(Seq<char>, Seq<char>)>)) -> Seq<Seq<char>> {
    if p.1.len() == 0 {
        seq![table_row(pad_left(decimal(i), 3), display_name(p.0), Seq::empty())]
    } else {
        Seq::new(p.1.len(), |k: int|
            if k == 0 {
                table_row(pad_left(decimal(i), 3), display_name(p.0), attribute_text(p.1[k]))
            } else {
                table_row(spaces(3), Seq::empty(), attribute_text(p.1[k]))
            })
    }
}

/// The rows of the first `k` processors of a chain, with a separator
/// after each processor but the last.
pub open spec fn rows_upto(procs: Seq<(PermuteNodeName, Seq<(Seq<char>, Seq<char>)>)>, k: nat) -> Seq<Seq<char>>
    decreases k,
{
    if k == 0 {
        Seq::empty()
    } else {
        rows_upto(procs, (k - 1) as nat) + processor_rows((k - 1) as nat, procs[k - 1])
            + (if k < procs.len() { seq![table_separator()] } else { Seq::empty() })
    }
}

/// The table of one output: its file, then its processors' rows.
pub open spec fn permutation_table(p: PermutationView) -> Seq<Seq<char>> {
    seq!["\nFile: "@ + p.output, table_top(), table_heading(), table_separator()]
        + rows_upto(p.processors, p.processors.len()) + seq![table_bottom()]
}

/// The heading, then the tables of the first `k` outputs.
pub open spec fn tables_upto(perms: Seq<PermutationView>, k: nat) -> Seq<Seq<char>>
    decreases k,
{
    if k == 0 {
        seq!["\nProcessor Attributes:"@]
    } else {
        tables_upto(perms, (k - 1) as nat) + permutation_table(perms[k - 1])
    }
}

/// The views of a sequence of permutations.
pub open spec fn permutations_view(s: Seq<Permutation>) -> Seq<PermutationView> {
    s.map_values(|p: Permutation| p@)
}

fn spaces_chars(n: usize) -> (r: Vec<char>)
    ensures
        r@ == spaces(n as int),
{
    let mut r: Vec<char> = Vec::new();
    let mut i: usize = 0;
    while i < n
        invariant
            i <= n,
            r@ == spaces(i as int),
        decreases n - i,
    {
        r.push(' ');
        i = i + 1;
        assert(r@ =~= spaces(i as int));
    }
    r
}

fn padded_right(s: &str, w: usize) -> (r: String)
    ensures
        r@ == pad_right(s@, w as int),
{
    let len = s.unicode_len();
    let mut r = String::from_str(s);
    let n: usize = if len < w { w - len } else { 0 };
    let pad = spaces_chars(n);
    push_chars(&mut r, &pad);
    assert(spaces(n as int) =~= spaces(w - s@.len()));
    r
}

fn padded_left(s: &str, w: usize) -> (r: String)
    ensures
        r@ == pad_left(s@, w as int),
{
    let len = s.unicode_len();
    let n: usize = if len < w { w - len } else { 0 };
    let pad = spaces_chars(n);
    let mut r = String::new();
    push_chars(&mut r, &pad);
    let chars = str_chars(s);
    push_chars(&mut r, &chars);
    assert(spaces(n as int) =~= spaces(w - s@.len()));
    assert(r@ =~= pad_left(s@, w as int));
    r
}

fn row_line(node: &str, name: &str, attribute: &str) -> (r: String)
    ensures
        r@ == table_row(node@, name@, attribute@),
{
    let mut r = String::from_str("│ ");
    r.append(node);
    r.append(" │ ");
    let n = padded_right(name, 18);
    r.append(n.as_str());
    r.append(" │ ");
    let a = padded_right(attribute, 25);
    r.append(a.as_str());
    r.append(" │");
    r
}

fn processor_lines(i: usize, p: &crate::process::PermutationProcessor, out: &mut Vec<String>)
    ensures
        strings_view(final(out)@) == strings_view(old(out)@) + processor_rows(i as nat, p@),
{
    let ghost start = out@;
    let node = padded_left(u64_to_string(i as u64).as_str(), 3);
    let name = get_processor_display_name(p.name);
    if p.attributes.len() == 0 {
        out.push(row_line(node.as_str(), name.as_str(), ""));
        proof { reveal_strlit(""); }
        assert(strings_view(out@) =~= strings_view(start) + processor_rows(i as nat, p@));
        return;
    }
    let ghost rows = processor_rows(i as nat, p@);
    let mut k: usize = 0;
    while k < p.attributes.len()
        invariant
            k <= p.attributes@.len(),
            p.attributes@.len() > 0,
            node@ == pad_left(decimal(i as nat), 3),
            name@ == display_name(p.name),
            rows == processor_rows(i as nat, p@),
            strings_view(out@) == strings_view(start) + rows.subrange(0, k as int),
        decreases p.attributes@.len() - k,
    {
        let a: &ProcessorAttribute = &p.attributes[k];
        let mut text = a.key.clone();
        text.append(": ");
        text.append(a.value.as_str());
        assert(text@ == attribute_text(p@.1[k as int]));
        let line = if k == 0 {
            row_line(node.as_str(), name.as_str(), text.as_str())
        } else {
            let blank = padded_right("", 3);
            proof { reveal_strlit(""); }
            assert(blank@ =~= spaces(3));
            row_line(blank.as_str(), "", text.as_str())
        };
        let ghost prev = out@;
        out.push(line);
        assert(line@ == rows[k as int]);
        assert(strings_view(out@) =~= strings_view(prev).push(line@));
        assert(rows.subrange(0, k + 1) =~= rows.subrange(0, k as int).push(rows[k as int]));
        k = k + 1;
    }
    assert(rows.subrange(0, k as int) =~= rows);
}

fn permutation_lines(p: &Permutation, out: &mut Vec<String>)
    ensures
        strings_view(final(out)@) == strings_view(old(out)@) + permutation_table(p@),
{
    let ghost start = out@;
    let mut file_line = String::from_str("\nFile: ");
    file_line.append(p.output.as_str());
    out.push(file_line);
    out.push(String::from_str("┌─────┬────────────────────┬───────────────────────────┐"));
    out.push(String::from_str("│ Node│ Processor          │ Attributes                │"));
    out.push(String::from_str("├─────┼────────────────────┼───────────────────────────┤"));
    let ghost head = seq!["\nFile: "@ + p@.output, table_top(), table_heading(), table_separator()];
    assert(strings_view(out@) =~= strings_view(start) + head);
    let ghost procs = p@.processors;
    let mut i: usize = 0;
    while i < p.processors.len()
        invariant
            i <= p.processors@.len(),
            procs == p@.processors,
            procs.len() == p.processors@.len(),
            strings_view(out@) == strings_view(start) + head + rows_upto(procs, i as nat),
        decreases p.processors@.len() - i,
    {
        let ghost before = out@;
        assert(procs[i as int] == p.processors@[i as int]@);
        processor_lines(i, &p.processors[i], out);
        if i + 1 < p.processors.len() {
            let ghost mid = out@;
            out.push(String::from_str("├─────┼────────────────────┼───────────────────────────┤"));
            assert(strings_view(out@) =~= strings_view(mid).push(table_separator()));
        }
        assert(strings_view(out@) =~= strings_view(start) + head + rows_upto(procs, (i + 1) as nat));
        i = i + 1;
    }
    let ghost before = out@;
    out.push(String::from_str("└─────┴────────────────────┴───────────────────────────┘"));
    assert(strings_view(out@) =~= strings_view(before).push(table_bottom()));
    assert(strings_view(out@) =~= strings_view(start) + permutation_table(p@));
}

/// The lines of the attribute report a command line run prints at its
/// end: a heading, then for each output its file and a table of its
/// processors, each with the attributes it chose.
pub fn processor_attribute_lines(perms: &Vec<Permutation>) -> (r: Vec<String>)
    ensures
        strings_view(r@) == tables_upto(permutations_view(perms@), perms@.len()),
{
    let mut out: Vec<String> = Vec::new();
    out.push(String::from_str("\nProcessor Attributes:"));
    let ghost ps = permutations_view(perms@);
    assert(strings_view(out@) =~= tables_upto(ps, 0));
    let mut i: usize = 0;
    while i < perms.len()
        invariant
            i <= perms@.len(),
            ps == permutations_view(perms@),
            strings_view(out@) == tables_upto(ps, i as nat),
        decreases perms@.len() - i,
    {
        assert(ps[i as int] == perms@[i as int]@);
        permutation_lines(&perms[i], &mut out);
        i = i + 1;
    }
    out
}

} // verus!
