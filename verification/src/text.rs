//! Character-level helpers for string slices: comparison, decimal numerals
//! and splitting on a separator.

use vstd::prelude::*;
use vstd::std_specs::iter::IteratorSpec;

verus! {

/// The characters of `s`, in order, as a vector that can be indexed in
/// constant time.
pub fn chars_of(s: &str) -> (chars: Vec<char>)
    ensures
        chars@ == s@,
{
    broadcast use vstd::string::group_string_axioms;

    let mut chars: Vec<char> = Vec::new();
    let mut it = s.chars();
    loop
        invariant
            it.obeys_prophetic_iter_laws(),
            it.decrease() is Some,
            chars@ + it.remaining() == s@,
        ensures
            chars@ == s@,
        decreases it.decrease()->0,
    {
        match it.next() {
            Some(c) => {
                chars.push(c);
            },
            None => {
                break;
            },
        }
    }
    chars
}

/// Whether two character slices hold the same characters.
pub fn chars_eq(a: &[char], b: &[char]) -> (same: bool)
    ensures
        same == (a@ == b@),
{
    if a.len() != b.len() {
        return false;
    }
    let mut i: usize = 0;
    while i < a.len()
        invariant
            a@.len() == b@.len(),
            i <= a@.len(),
            forall|k: int| 0 <= k < i ==> a@[k] == b@[k],
        decreases a@.len() - i,
    {
        if a[i] != b[i] {
            return false;
        }
        i += 1;
    }
    assert(a@ =~= b@);
    true
}

/// Whether two string slices hold the same text.
pub fn str_eq(a: &str, b: &str) -> (same: bool)
    ensures
        same == (a@ == b@),
{
    let a_chars = chars_of(a);
    let b_chars = chars_of(b);
    chars_eq(a_chars.as_slice(), b_chars.as_slice())
}

/// Whether `text` is one of `texts`.
pub fn contains_text(texts: &Vec<String>, text: &String) -> (found: bool)
    ensures
        found == texts.deep_view().contains(text@),
{
    let mut i: usize = 0;
    while i < texts.len()
        invariant
            i <= texts.len(),
            forall|k: int| 0 <= k < i ==> texts.deep_view()[k] != text@,
        decreases texts.len() - i,
    {
        if texts[i] == *text {
            assert(texts.deep_view()[i as int] == text@);
            return true;
        }
        i += 1;
    }
    false
}

/// Whether `c` occurs in `s`.
pub fn contains_char(s: &[char], c: char) -> (found: bool)
    ensures
        found == s@.contains(c),
{
    let mut i: usize = 0;
    while i < s.len()
        invariant
            i <= s@.len(),
            forall|k: int| 0 <= k < i ==> s@[k] != c,
        decreases s@.len() - i,
    {
        if s[i] == c {
            return true;
        }
        i += 1;
    }
    false
}

/// An ASCII decimal digit, `'0'` to `'9'`.
pub open spec fn is_decimal_digit(c: char) -> bool {
    '0' <= c && c <= '9'
}

/// The value of a decimal digit; zero for any other character.
pub open spec fn digit_value(c: char) -> nat {
    if is_decimal_digit(c) {
        (c as int - '0' as int) as nat
    } else {
        0
    }
}

/// The number that a sequence of decimal digits denotes, most significant
/// digit first. The empty sequence denotes zero.
pub open spec fn decimal_value(digits: Seq<char>) -> nat
    decreases digits.len(),
{
    if digits.len() == 0 {
        0
    } else {
        10 * decimal_value(digits.drop_last()) + digit_value(digits.last())
    }
}

/// Every character of `digits` is a decimal digit.
pub open spec fn all_decimal_digits(digits: Seq<char>) -> bool {
    forall|i: int| 0 <= i < digits.len() ==> is_decimal_digit(#[trigger] digits[i])
}

/// The digits of a numeral: the text itself, without one leading `+` if it
/// has one.
pub open spec fn numeral_digits(s: Seq<char>) -> Seq<char> {
    if s.len() > 0 && s[0] == '+' {
        s.subrange(1, s.len() as int)
    } else {
        s
    }
}

/// The count that `s` denotes as a decimal numeral: an optional `+`, then
/// one or more decimal digits, whose value fits in a `usize`. Anything else,
/// the empty text, a sign alone, a space or a second sign included, denotes
/// no count.
pub open spec fn numeral_value(s: Seq<char>) -> Option<usize> {
    let digits = numeral_digits(s);
    if digits.len() > 0 && all_decimal_digits(digits) && decimal_value(digits) <= usize::MAX {
        Some(decimal_value(digits) as usize)
    } else {
        None
    }
}

/// A prefix of a numeral denotes no more than the whole numeral.
pub proof fn lemma_decimal_value_prefix(digits: Seq<char>, n: int)
    requires
        0 <= n <= digits.len(),
    ensures
        decimal_value(digits.take(n)) <= decimal_value(digits),
    decreases digits.len() - n,
{
    if n == digits.len() {
        assert(digits.take(n) =~= digits);
    } else {
        lemma_decimal_value_prefix(digits.drop_last(), n);
        assert(digits.drop_last().take(n) =~= digits.take(n));
    }
}

/// Reads `s` as a decimal count.
pub fn parse_count(s: &[char]) -> (count: Option<usize>)
    ensures
        count == numeral_value(s@),
{
    let n = s.len();
    let start: usize = if n > 0 && s[0] == '+' { 1 } else { 0 };
    let ghost digits = numeral_digits(s@);
    assert(digits =~= s@.subrange(start as int, n as int));
    if start == n {
        return None;
    }
    let mut value: usize = 0;
    let mut i: usize = start;
    while i < n
        invariant
            start <= i <= n,
            n == s@.len(),
            digits == numeral_digits(s@),
            digits == s@.subrange(start as int, n as int),
            all_decimal_digits(digits.take(i - start)),
            value == decimal_value(digits.take(i - start)),
        decreases n - i,
    {
        let c = s[i];
        let ghost upto = digits.take(i - start + 1);
        assert(upto.drop_last() =~= digits.take(i - start));
        assert(upto.last() == c);
        if !(c >= '0' && c <= '9') {
            assert(!is_decimal_digit(digits[i - start]));
            return None;
        }
        let digit: usize = (c as u32 - '0' as u32) as usize;
        assert(digit == digit_value(c));
        let next = match value.checked_mul(10) {
            Some(scaled) => scaled.checked_add(digit),
            None => None,
        };
        match next {
            Some(v) => {
                value = v;
            },
            None => {
                proof {
                    assert(decimal_value(upto) == 10 * value + digit);
                    lemma_decimal_value_prefix(digits, i - start + 1);
                }
                return None;
            },
        }
        i += 1;
    }
    assert(digits.take(n - start) =~= digits);
    Some(value)
}

/// The pieces of `s` between occurrences of `sep`, in order. A text with
/// `n` separators has `n + 1` pieces; a piece is empty where two separators
/// meet and where the text starts or ends with one.
pub open spec fn split_on(s: Seq<char>, sep: char) -> Seq<Seq<char>>
    decreases s.len(),
{
    if s.len() == 0 {
        seq![Seq::<char>::empty()]
    } else {
        let before = split_on(s.drop_last(), sep);
        if s.last() == sep {
            before.push(Seq::<char>::empty())
        } else {
            before.drop_last().push(before.last().push(s.last()))
        }
    }
}

/// The pieces put together again, with `sep` between neighbours.
pub open spec fn join_with(pieces: Seq<Seq<char>>, sep: char) -> Seq<char>
    decreases pieces.len(),
{
    if pieces.len() == 0 {
        Seq::<char>::empty()
    } else if pieces.len() == 1 {
        pieces[0]
    } else {
        join_with(pieces.drop_last(), sep).push(sep) + pieces.last()
    }
}

/// Splitting always yields at least one piece, and exactly one when the
/// separator does not occur.
pub proof fn lemma_split_len(s: Seq<char>, sep: char)
    ensures
        split_on(s, sep).len() >= 1,
        split_on(s, sep).len() == 1 <==> !s.contains(sep),
        !s.contains(sep) ==> split_on(s, sep) == seq![s],
    decreases s.len(),
{
    if s.len() == 0 {
        assert(s =~= Seq::<char>::empty());
    } else {
        let init = s.drop_last();
        lemma_split_len(init, sep);
        if s.last() == sep {
            assert(s[s.len() - 1] == sep);
        } else {
            if init.contains(sep) {
                let k = choose|k: int| 0 <= k < init.len() && init[k] == sep;
                assert(s[k] == sep);
            } else {
                assert forall|k: int| 0 <= k < s.len() implies s[k] != sep by {
                    if k < init.len() {
                        assert(init[k] == s[k]);
                    }
                }
                assert(split_on(init, sep) == seq![init]);
                assert(seq![init].drop_last().push(init.push(s.last())) =~= seq![s]) by {
                    assert(init.push(s.last()) =~= s);
                }
            }
        }
    }
}

/// No piece of a split holds the separator.
pub proof fn lemma_split_pieces_hold_no_separator(s: Seq<char>, sep: char)
    ensures
        forall|i: int|
            0 <= i < split_on(s, sep).len() ==> !(#[trigger] split_on(s, sep)[i]).contains(sep),
    decreases s.len(),
{
    if s.len() > 0 {
        let init = s.drop_last();
        lemma_split_pieces_hold_no_separator(init, sep);
        lemma_split_len(init, sep);
        let before = split_on(init, sep);
        if s.last() != sep {
            let grown = before.last().push(s.last());
            assert forall|k: int| 0 <= k < grown.len() implies grown[k] != sep by {
                if k < before.last().len() {
                    assert(before.last()[k] == grown[k]);
                    assert(!before[before.len() - 1].contains(sep));
                }
            }
        }
    }
}

/// Joining the pieces of a split with the separator gives the text back.
pub proof fn lemma_split_join(s: Seq<char>, sep: char)
    ensures
        join_with(split_on(s, sep), sep) == s,
    decreases s.len(),
{
    if s.len() == 0 {
        assert(s =~= Seq::<char>::empty());
    } else {
        let init = s.drop_last();
        lemma_split_join(init, sep);
        lemma_split_len(init, sep);
        let before = split_on(init, sep);
        if s.last() == sep {
            let after = before.push(Seq::<char>::empty());
            assert(after.drop_last() =~= before);
            assert(join_with(after, sep) =~= s);
        } else {
            let after = before.drop_last().push(before.last().push(s.last()));
            if before.len() == 1 {
                assert(join_with(after, sep) =~= s);
            } else {
                let head = join_with(before.drop_last(), sep).push(sep);
                assert(after.drop_last() =~= before.drop_last());
                assert(join_with(before, sep) == head + before.last());
                assert(join_with(after, sep) == head + before.last().push(s.last()));
                assert(head + before.last().push(s.last()) =~= (head + before.last()).push(
                    s.last(),
                ));
                assert(init.push(s.last()) =~= s);
            }
        }
    }
}

/// The pieces of two texts with a separator between them are the pieces of
/// the first followed by the pieces of the second.
pub proof fn lemma_split_concat(a: Seq<char>, b: Seq<char>, sep: char)
    ensures
        split_on(a.push(sep) + b, sep) == split_on(a, sep) + split_on(b, sep),
    decreases b.len(),
{
    let first = split_on(a, sep);
    if b.len() == 0 {
        assert(a.push(sep) + b =~= a.push(sep));
        assert(a.push(sep).drop_last() =~= a);
        assert(first.push(Seq::<char>::empty()) =~= first + split_on(b, sep));
    } else {
        let init = b.drop_last();
        let second = split_on(init, sep);
        lemma_split_concat(a, init, sep);
        lemma_split_len(init, sep);
        assert((a.push(sep) + b).drop_last() =~= a.push(sep) + init);
        assert((a.push(sep) + b).last() == b.last());
        if b.last() == sep {
            assert((first + second).push(Seq::<char>::empty()) =~= first + second.push(
                Seq::<char>::empty(),
            ));
        } else {
            assert((first + second).drop_last() =~= first + second.drop_last());
            assert((first + second).last() == second.last());
            assert((first + second.drop_last()).push(second.last().push(b.last())) =~= first
                + second.drop_last().push(second.last().push(b.last())));
        }
    }
}

/// Splits `s` on `sep` into owned pieces.
pub fn split(s: &str, sep: char) -> (pieces: Vec<String>)
    ensures
        pieces.deep_view() == split_on(s@, sep),
{
    let chars = chars_of(s);
    let n = chars.len();
    let mut pieces: Vec<String> = Vec::new();
    let mut start: usize = 0;
    let mut i: usize = 0;
    assert(s@.take(0) =~= Seq::<char>::empty());
    assert(pieces.deep_view().push(s@.subrange(0, 0)) =~= split_on(s@.take(0), sep));
    while i < n
        invariant
            chars@ == s@,
            n == s@.len(),
            start <= i <= n,
            pieces.deep_view().push(s@.subrange(start as int, i as int)) == split_on(
                s@.take(i as int),
                sep,
            ),
        decreases n - i,
    {
        let ghost upto = s@.take(i + 1);
        assert(upto.drop_last() =~= s@.take(i as int));
        assert(upto.last() == chars@[i as int]);
        if chars[i] == sep {
            let piece = String::from_str(s.substring_char(start, i));
            let ghost earlier = pieces.deep_view();
            pieces.push(piece);
            assert(pieces.deep_view() =~= earlier.push(s@.subrange(start as int, i as int)));
            start = i + 1;
            assert(s@.subrange(start as int, i + 1) =~= Seq::<char>::empty());
        } else {
            assert(s@.subrange(start as int, i + 1) =~= s@.subrange(start as int, i as int).push(
                chars@[i as int],
            ));
            assert(pieces.deep_view().push(s@.subrange(start as int, i as int)).drop_last()
                =~= pieces.deep_view());
        }
        i += 1;
    }
    assert(s@.take(n as int) =~= s@);
    let piece = String::from_str(s.substring_char(start, n));
    let ghost earlier = pieces.deep_view();
    pieces.push(piece);
    assert(pieces.deep_view() =~= earlier.push(s@.subrange(start as int, n as int)));
    pieces
}

} // verus!
