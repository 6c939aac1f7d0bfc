//! The choice of a side-chain file for the cross processors.
use vstd::prelude::*;
use crate::rng::{gen_range_usize, thread_rng};
use crate::text::str_equal;

verus! {

/// A random file of `available_files` other than `current_file`; `None`
/// when there are fewer than two files or every file is the current one.
pub fn select_sidechain_file(current_file: &str, available_files: &[String]) -> (r: Option<String>)
    ensures
        r is None <==> (available_files@.len() < 2
            || forall|i: int| 0 <= i < available_files@.len() ==> #[trigger] available_files@[i]@ == current_file@),
        r matches Some(f) ==> f@ != current_file@
            && exists|i: int| 0 <= i < available_files@.len() && #[trigger] available_files@[i] == f,
{
    if available_files.len() < 2 {
        return None;
    }
    let mut others: Vec<usize> = Vec::new();
    let mut i: usize = 0;
    while i < available_files.len()
        invariant
            i <= available_files@.len(),
            forall|k: int| 0 <= k < others@.len() ==> #[trigger] others@[k] < available_files@.len()
                && available_files@[others@[k] as int]@ != current_file@,
            forall|j: int| 0 <= j < i && available_files@[j]@ != current_file@ ==> others@.contains(j as usize),
        decreases available_files@.len() - i,
    {
        let ghost before = others@;
        if !str_equal(available_files[i].as_str(), current_file) {
            others.push(i);
            assert(others@[others@.len() - 1] == i);
        }
        proof {
            assert forall|j: int| 0 <= j < i + 1 && available_files@[j]@ != current_file@ implies others@.contains(j as usize) by {
                if j < i {
                    let w = choose|w: int| 0 <= w < before.len() && before[w] == j as usize;
                    assert(others@[w] == before[w]);
                }
            }
        }
        i = i + 1;
    }
    if others.len() == 0 {
        assert forall|j: int| 0 <= j < available_files@.len() implies #[trigger] available_files@[j]@ == current_file@ by {
            if available_files@[j]@ != current_file@ {
                assert(others@.contains(j as usize));
            }
        }
        return None;
    }
    let mut rng = thread_rng();
    let k = gen_range_usize(&mut rng, 0, others.len());
    let idx = others[k];
    let f = available_files[idx].clone();
    assert(available_files@[idx as int] == f);
    assert(!(forall|j: int| 0 <= j < available_files@.len() ==> #[trigger] available_files@[j]@ == current_file@)) by {
        assert(available_files@[idx as int]@ != current_file@);
    }
    Some(f)
}

} // verus!
