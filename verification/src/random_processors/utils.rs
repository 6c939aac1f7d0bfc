//! Text rendering of processor attributes.
use vstd::prelude::*;
use crate::text::{decimal, last_index_of, u64_to_string, copy_range, last_index_before, str_chars, string_from_chars};

verus! {

/// A frequency in whole hertz: the number, a space and `hz`.
pub fn format_hz_usize(value: usize) -> (r: String)
    ensures
        r@ == decimal(value as nat) + " hz"@,
{
    let mut r = u64_to_string(value as u64);
    r.append(" hz");
    r
}

/// The part of a path after its last `/` (the whole path when it has none).
pub open spec fn after_last_slash(path: Seq<char>) -> Seq<char> {
    path.subrange(last_index_of(path, '/') + 1, path.len() as int)
}

/// The file name of a path: what follows its last `/`.
pub fn get_filename(path: &str) -> (r: String)
    ensures
        r@ == after_last_slash(path@),
{
    let chars = str_chars(path);
    let len = chars.len();
    let start = match last_index_before(&chars, len, '/') {
        Some(i) => i + 1,
        None => 0,
    };
    assert(chars@.subrange(0, len as int) =~= chars@);
    let name = copy_range(&chars, start, len);
    string_from_chars(&name)
}

} // verus!
