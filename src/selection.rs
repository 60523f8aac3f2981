//! Moving a selection through a list, wrapping at both ends.
use vstd::prelude::*;

verus! {

/// The position before `current` in a list of `len` items, wrapping from
/// the first to the last; `fallback` when nothing is selected.
pub fn wrap_prev(current: Option<usize>, fallback: usize, len: usize) -> (r: usize)
    requires
        len > 0,
    ensures
        current matches Some(i) ==> r == (if i == 0 { (len - 1) as usize } else { (i - 1) as usize }),
        current is None ==> r == fallback,
{
    match current {
        Some(i) => if i == 0 {
            len - 1
        } else {
            i - 1
        },
        None => fallback,
    }
}

/// The position after `current` in a list of `len` items, wrapping from
/// the last (or any position past it) to the first; `fallback` when
/// nothing is selected.
pub fn wrap_next(current: Option<usize>, fallback: usize, len: usize) -> (r: usize)
    requires
        len > 0,
    ensures
        current matches Some(i) ==> r == (if i >= len - 1 { 0 } else { (i + 1) as usize }),
        current is None ==> r == fallback,
{
    match current {
        Some(i) => if i >= len - 1 {
            0
        } else {
            i + 1
        },
        None => fallback,
    }
}

} // verus!
