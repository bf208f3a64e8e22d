//! Lists of keyed entries in which the last entry under a key counts.
use vstd::prelude::*;

use crate::text::same_text;

verus! {

/// The place of the last entry under `key`.
pub fn find_last<T>(entries: &Vec<(String, T)>, key: &str) -> (res: Option<usize>)
    ensures
        match res {
            Some(i) => {
                &&& i < entries@.len()
                &&& entries@[i as int].0@ == key@
                &&& forall|j: int| i < j < entries@.len() ==> (#[trigger] entries@[j]).0@ != key@
            },
            None => forall|j: int| 0 <= j < entries@.len() ==> (#[trigger] entries@[j]).0@ != key@,
        },
{
    let mut i: usize = entries.len();
    while i > 0
        invariant
            i <= entries@.len(),
            forall|j: int| i <= j < entries@.len() ==> (#[trigger] entries@[j]).0@ != key@,
        decreases i,
    {
        i -= 1;
        if same_text(entries[i].0.as_str(), key) {
            return Some(i);
        }
    }
    None
}

} // verus!
