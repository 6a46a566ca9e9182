//! The forward search for an equal line.

use vstd::prelude::*;
use crate::event::lines_view;

verus! {

/// Finds the nearest position at or after `from` whose line equals `target`.
///
/// Returns `None` when no such position exists, in particular when `from`
/// lies at or past the end of `lines`.
pub fn find_forward(lines: &Vec<String>, from: usize, target: &String) -> (found: Option<usize>)
    ensures
        match found {
            Some(k) => {
                &&& from <= k < lines.len()
                &&& lines_view(lines@)[k as int] == target@
                &&& forall|t: int| from <= t < k ==> lines_view(lines@)[t] != target@
            },
            None => forall|t: int| from <= t < lines.len() ==> lines_view(lines@)[t] != target@,
        },
{
    let mut k: usize = from;
    while k < lines.len()
        invariant
            from <= k,
            forall|t: int| from <= t < k && t < lines.len() ==> lines_view(lines@)[t] != target@,
        decreases lines.len() - k,
    {
        if lines[k] == *target {
            return Some(k);
        }
        k += 1;
    }
    None
}

} // verus!
