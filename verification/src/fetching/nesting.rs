//! How deep the arrays and objects of a record line are nested.
//!
//! The measure is taken before a line is handed on to be read as JSON, so
//! that a line nested without end is passed over instead of being followed
//! down.

use vstd::prelude::*;
use vstd::std_specs::iter::IteratorSpec;

verus! {

/// The deepest nesting that a record line may have and still be read. The
/// records of the index nest four deep.
pub const MAX_NESTING: usize = 128;

/// Where in the text the measure stands.
#[derive(Clone, Copy, Debug, PartialEq, Eq)]
pub enum Reading {
    /// Between strings.
    Outside,
    /// Within a string.
    InString,
    /// Within a string, right after a backslash.
    Escaped,
    /// Behind a `\u` escape, from where on strings are not told from the
    /// rest any more.
    Unsure,
}

/// The measure of a text as far as it has been read.
pub struct Nesting {
    /// The number of arrays and objects that are open.
    pub depth: nat,
    /// The greatest depth met.
    pub deepest: nat,
    /// Where the measure stands.
    pub reading: Reading,
}

/// `[` or `{`.
pub open spec fn is_opener(c: char) -> bool {
    c == '[' || c == '{'
}

/// `]` or `}`.
pub open spec fn is_closer(c: char) -> bool {
    c == ']' || c == '}'
}

/// The measure with one more array or object open.
pub open spec fn opened(n: Nesting, reading: Reading) -> Nesting {
    Nesting {
        depth: n.depth + 1,
        deepest: if n.depth + 1 > n.deepest {
            n.depth + 1
        } else {
            n.deepest
        },
        reading,
    }
}

/// The measure after one more character.
///
/// - Between strings an opener adds to the depth and a closer takes from it,
///   but never the last level: once something is open, the depth stays at
///   one or more. A quote starts a string.
/// - Within a string nothing counts. A quote ends the string, unless a
///   backslash stands before it and takes it for itself.
/// - Behind a `\u` escape every opener adds to the depth, wherever it
///   stands, and nothing takes from it.
pub open spec fn nesting_step(n: Nesting, c: char) -> Nesting {
    match n.reading {
        Reading::Outside => if is_opener(c) {
            opened(n, Reading::Outside)
        } else if is_closer(c) && n.depth > 1 {
            Nesting { depth: (n.depth - 1) as nat, deepest: n.deepest, reading: Reading::Outside }
        } else if c == '"' {
            Nesting { depth: n.depth, deepest: n.deepest, reading: Reading::InString }
        } else {
            n
        },
        Reading::InString => if c == '"' {
            Nesting { depth: n.depth, deepest: n.deepest, reading: Reading::Outside }
        } else if c == '\\' {
            Nesting { depth: n.depth, deepest: n.deepest, reading: Reading::Escaped }
        } else {
            n
        },
        Reading::Escaped => if c == 'u' {
            Nesting { depth: n.depth, deepest: n.deepest, reading: Reading::Unsure }
        } else {
            Nesting { depth: n.depth, deepest: n.deepest, reading: Reading::InString }
        },
        Reading::Unsure => if is_opener(c) {
            opened(n, Reading::Unsure)
        } else {
            n
        },
    }
}

/// The measure of a whole text, read from its start.
pub open spec fn nesting_scan(text: Seq<char>) -> Nesting
    decreases text.len(),
{
    if text.len() == 0 {
        Nesting { depth: 0, deepest: 0, reading: Reading::Outside }
    } else {
        nesting_step(nesting_scan(text.drop_last()), text.last())
    }
}

/// A bound on the depth to which the arrays and objects of `text` are
/// nested: the greatest depth that the measure meets. For a text that is
/// JSON and holds no `\u` escape it is the depth itself.
pub open spec fn nesting_bound(text: Seq<char>) -> nat {
    nesting_scan(text).deepest
}

/// The depth never exceeds the greatest depth met, and the greatest depth
/// met never exceeds the number of characters read.
pub proof fn lemma_nesting_scan_bounds(text: Seq<char>)
    ensures
        nesting_scan(text).depth <= nesting_scan(text).deepest <= text.len(),
    decreases text.len(),
{
    if text.len() > 0 {
        lemma_nesting_scan_bounds(text.drop_last());
    }
}

/// Reading on never lowers the bound: a text is nested at least as deep as
/// each of its beginnings.
pub proof fn lemma_nesting_bound_grows(start: Seq<char>, rest: Seq<char>)
    ensures
        nesting_bound(start) <= nesting_bound(start + rest),
    decreases rest.len(),
{
    if rest.len() == 0 {
        assert(start + rest =~= start);
    } else {
        lemma_nesting_bound_grows(start, rest.drop_last());
        assert((start + rest).drop_last() =~= start + rest.drop_last());
    }
}

/// A text without `[` and `{` is not nested at all.
pub proof fn lemma_flat_text_is_not_nested(text: Seq<char>)
    requires
        forall|i: int| 0 <= i < text.len() ==> !is_opener(#[trigger] text[i]),
    ensures
        nesting_bound(text) == 0,
        nesting_scan(text).depth == 0,
    decreases text.len(),
{
    if text.len() > 0 {
        assert(!is_opener(text[text.len() - 1]));
        assert forall|i: int| 0 <= i < text.drop_last().len() implies !is_opener(
            #[trigger] text.drop_last()[i],
        ) by {
            assert(text.drop_last()[i] == text[i]);
        }
        lemma_flat_text_is_not_nested(text.drop_last());
    }
}

/// Whether `text` is nested deeper than `limit`.
pub fn exceeds_nesting(text: &str, limit: usize) -> (deeper: bool)
    ensures
        deeper == (nesting_bound(text@) > limit),
{
    broadcast use vstd::string::group_string_axioms;

    let mut depth: usize = 0;
    let mut reading = Reading::Outside;
    let ghost mut seen = Seq::<char>::empty();
    let ghost mut deepest = 0nat;
    let mut it = text.chars();
    assert(seen + it.remaining() =~= text@);
    loop
        invariant
            it.obeys_prophetic_iter_laws(),
            it.decrease() is Some,
            seen + it.remaining() == text@,
            nesting_scan(seen) == (Nesting { depth: depth as nat, deepest, reading }),
            depth <= deepest <= limit,
        ensures
            nesting_bound(text@) <= limit,
        decreases it.decrease()->0,
    {
        let ghost before = it.remaining();
        match it.next() {
            Some(c) => {
                proof {
                    assert(seen.push(c).drop_last() =~= seen);
                    assert(seen.push(c) + it.remaining() =~= seen + before);
                }
                let opener = c == '[' || c == '{';
                let closer = c == ']' || c == '}';
                let counts = match reading {
                    Reading::Outside => opener,
                    Reading::Unsure => opener,
                    _ => false,
                };
                if counts {
                    if depth >= limit {
                        proof {
                            lemma_nesting_bound_grows(seen.push(c), it.remaining());
                        }
                        return true;
                    }
                    depth = depth + 1;
                    proof {
                        if depth > deepest {
                            deepest = depth as nat;
                        }
                    }
                } else {
                    match reading {
                        Reading::Outside => {
                            if closer && depth > 1 {
                                depth = depth - 1;
                            } else if c == '"' {
                                reading = Reading::InString;
                            }
                        },
                        Reading::InString => {
                            if c == '"' {
                                reading = Reading::Outside;
                            } else if c == '\\' {
                                reading = Reading::Escaped;
                            }
                        },
                        Reading::Escaped => {
                            if c == 'u' {
                                reading = Reading::Unsure;
                            } else {
                                reading = Reading::InString;
                            }
                        },
                        Reading::Unsure => {},
                    }
                }
                proof {
                    seen = seen.push(c);
                }
            },
            None => {
                assert(seen =~= text@);
                break;
            },
        }
    }
    false
}

} // verus!
