//! What the walk over the index tree asks of an entry.

use vstd::prelude::*;

verus! {

/// A name that starts with a dot.
pub open spec fn hidden(name: Seq<char>) -> bool {
    name.len() > 0 && name[0] == '.'
}

/// Whether an entry of this file name is hidden. The walk passes over a
/// hidden entry and, where it is a directory, over all that lies below it.
pub fn is_hidden(name: &str) -> (is: bool)
    ensures
        is == hidden(name@),
{
    !name.is_empty() && name.get_char(0) == '.'
}

} // verus!
