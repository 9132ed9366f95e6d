//! Archive-entry selection: which member of a downloaded archive holds the
//! tool, and where an extracted member is written.
use vstd::prelude::*;
use vstd::string::*;
use crate::strutil::{contains_seq, contains_substr};

verus! {

/// Picks the entry to extract for a tool: the first one whose name holds
/// the tool's name as a substring; entries after the first match are
/// ignored, and a name without a match anywhere yields nothing.
pub fn select_entry(names: &Vec<String>, tool: &str) -> (r: Option<usize>)
    ensures
        r matches Some(i) ==> i < names@.len()
            && contains_seq(names@[i as int]@, tool@)
            && forall|k: int| 0 <= k < i ==> !contains_seq(names@[k]@, tool@),
        r is None ==> forall|k: int| 0 <= k < names@.len() ==> !contains_seq(names@[k]@, tool@),
{
    let mut i: usize = 0;
    while i < names.len()
        invariant
            i <= names@.len(),
            forall|k: int| 0 <= k < i ==> !contains_seq(names@[k]@, tool@),
        decreases names@.len() - i,
    {
        if contains_substr(names[i].as_str(), tool) {
            return Some(i);
        }
        i = i + 1;
    }
    None
}

/// Whether an archive entry names a directory rather than a file.
pub fn entry_is_dir(name: &str) -> (r: bool)
    ensures
        r == (name@.len() > 0 && name@.last() == '/'),
{
    let n = name.unicode_len();
    if n == 0 {
        return false;
    }
    let c = name.get_char(n - 1);
    c == '/'
}

} // verus!
