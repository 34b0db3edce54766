//! The layout of the index tree: where the index file of a package lies.
//!
//! The rule is the one of the upstream index generator. Package names of the
//! registry are ASCII, and for those the length of a name is its number of
//! characters; for any other text the length counts the bytes of its UTF-8
//! form, while the pieces of the path are cut by characters.

use crate::fetching::constants::{INDEX_MAX_DEPTH, INDEX_MIN_DEPTH};
use crate::fetching::util::{hidden, is_hidden};
use crate::text::{lemma_split_concat, lemma_split_len, split, split_on};
use vstd::prelude::*;
use vstd::utf8::{encode_utf8, is_ascii_chars, is_ascii_chars_encode_utf8};

verus! {

/// The length of a name as the layout counts it: the number of bytes of its
/// UTF-8 form.
pub open spec fn name_length(name: Seq<char>) -> nat {
    encode_utf8(name).len()
}

/// The characters of `s` from position `from` up to position `to`, as far as
/// `s` has them.
pub open spec fn chars_between(s: Seq<char>, from: nat, to: nat) -> Seq<char> {
    let from = if from <= s.len() {
        from
    } else {
        s.len()
    };
    let to = if to <= s.len() {
        to
    } else {
        s.len()
    };
    if from <= to {
        s.subrange(from as int, to as int)
    } else {
        Seq::<char>::empty()
    }
}

/// The place of the index file of the package `name`, relative to the root
/// of the index tree:
///
/// - length 1: `1/<name>`
/// - length 2: `2/<name>`
/// - length 3: `3/<first character>/<name>`
/// - any other length: `<first two characters>/<next two characters>/<name>`
pub open spec fn sharded_path(name: Seq<char>) -> Seq<char> {
    if name_length(name) == 1 {
        "1/"@ + name
    } else if name_length(name) == 2 {
        "2/"@ + name
    } else if name_length(name) == 3 {
        "3/"@ + chars_between(name, 0, 1) + "/"@ + name
    } else {
        chars_between(name, 0, 2) + "/"@ + chars_between(name, 2, 4) + "/"@ + name
    }
}

/// For an ASCII name, the length that the layout counts is the number of
/// its characters, and the pieces of the path are plain prefixes.
pub proof fn lemma_sharded_path_of_ascii(name: Seq<char>)
    requires
        is_ascii_chars(name),
    ensures
        name_length(name) == name.len(),
        name.len() == 1 ==> sharded_path(name) == "1/"@ + name,
        name.len() == 2 ==> sharded_path(name) == "2/"@ + name,
        name.len() == 3 ==> sharded_path(name) == "3/"@ + name.take(1) + "/"@ + name,
        name.len() >= 4 ==> sharded_path(name) == name.take(2) + "/"@ + name.subrange(2, 4)
            + "/"@ + name,
{
    is_ascii_chars_encode_utf8(name);
}

/// The place of the index file of the package `name`, relative to the root
/// of the index tree.
pub fn index_file_of(name: &str) -> (path: String)
    ensures
        path@ == sharded_path(name@),
{
    broadcast use vstd::slice::group_slice_axioms;

    let length = name.as_bytes().len();
    let chars = name.unicode_len();
    if length == 1 {
        String::from_str("1/").concat(name)
    } else if length == 2 {
        String::from_str("2/").concat(name)
    } else if length == 3 {
        let one: usize = if chars < 1 { chars } else { 1 };
        let mut path = String::from_str("3/");
        path.append(name.substring_char(0, one));
        path.append("/");
        path.append(name);
        path
    } else {
        let two: usize = if chars < 2 { chars } else { 2 };
        let four: usize = if chars < 4 { chars } else { 4 };
        let mut path = String::from_str(name.substring_char(0, two));
        path.append("/");
        path.append(name.substring_char(two, four));
        path.append("/");
        path.append(name);
        path
    }
}

/// The depth at which the layout puts the index file of `name`, counted in
/// directory entries below the root of the index tree: 2 for a name of
/// length one or two, 3 for any other.
pub open spec fn layout_depth(name: Seq<char>) -> nat {
    if name_length(name) == 1 || name_length(name) == 2 {
        2
    } else {
        3
    }
}

/// The entries that a path relative to the root of the index tree leads
/// through, the file itself being the last.
pub open spec fn path_entries(path: Seq<char>) -> Seq<Seq<char>> {
    split_on(path, '/')
}

/// The walk over the index tree reads the file at `path`, relative to the
/// root of the tree, if it is a regular file: it lies at a depth from
/// [`INDEX_MIN_DEPTH`] to [`INDEX_MAX_DEPTH`], and neither it nor a
/// directory above it is hidden.
pub open spec fn walk_reads(path: Seq<char>) -> bool {
    &&& INDEX_MIN_DEPTH <= path_entries(path).len() <= INDEX_MAX_DEPTH
    &&& forall|i: int|
        0 <= i < path_entries(path).len() ==> !hidden(#[trigger] path_entries(path)[i])
}

/// A part of a text without a slash has no slash either, and stands alone
/// as one entry of a path.
proof fn lemma_part_is_one_entry(name: Seq<char>, from: nat, to: nat)
    requires
        !name.contains('/'),
    ensures
        path_entries(chars_between(name, from, to)) == seq![chars_between(name, from, to)],
{
    let part = chars_between(name, from, to);
    assert forall|k: int| 0 <= k < part.len() implies part[k] != '/' by {
        let at = if from <= name.len() {
            from
        } else {
            name.len()
        };
        assert(part[k] == name[at + k]);
    }
    lemma_split_len(part, '/');
}

/// The entries of the path that the layout gives to a name without a slash:
/// the shard directories, then the name itself.
pub proof fn lemma_sharded_path_entries(name: Seq<char>)
    requires
        !name.contains('/'),
    ensures
        name_length(name) == 1 ==> path_entries(sharded_path(name)) == seq![seq!['1'], name],
        name_length(name) == 2 ==> path_entries(sharded_path(name)) == seq![seq!['2'], name],
        name_length(name) == 3 ==> path_entries(sharded_path(name)) == seq![
            seq!['3'],
            chars_between(name, 0, 1),
            name,
        ],
        name_length(name) != 1 && name_length(name) != 2 && name_length(name) != 3
            ==> path_entries(sharded_path(name)) == seq![
            chars_between(name, 0, 2),
            chars_between(name, 2, 4),
            name,
        ],
        path_entries(sharded_path(name)).len() == layout_depth(name),
        INDEX_MIN_DEPTH <= layout_depth(name) <= INDEX_MAX_DEPTH,
{
    reveal_strlit("1/");
    reveal_strlit("2/");
    reveal_strlit("3/");
    reveal_strlit("/");
    lemma_split_len(name, '/');
    let slash = "/"@;
    assert(slash =~= seq!['/']);
    if name_length(name) == 1 || name_length(name) == 2 || name_length(name) == 3 {
        let digit = if name_length(name) == 1 {
            '1'
        } else if name_length(name) == 2 {
            '2'
        } else {
            '3'
        };
        let shard = seq![digit];
        assert(!shard.contains('/'));
        lemma_split_len(shard, '/');
        if name_length(name) == 3 {
            let first = chars_between(name, 0, 1);
            lemma_part_is_one_entry(name, 0, 1);
            assert("3/"@ =~= shard.push('/'));
            assert(sharded_path(name) =~= (shard.push('/') + first).push('/') + name);
            lemma_split_concat(shard.push('/') + first, name, '/');
            lemma_split_concat(shard, first, '/');
            assert(seq![shard] + seq![first] + seq![name] =~= seq![shard, first, name]);
        } else {
            assert(sharded_path(name) =~= shard.push('/') + name);
            lemma_split_concat(shard, name, '/');
            assert(seq![shard] + seq![name] =~= seq![shard, name]);
        }
    } else {
        let first = chars_between(name, 0, 2);
        let second = chars_between(name, 2, 4);
        lemma_part_is_one_entry(name, 0, 2);
        lemma_part_is_one_entry(name, 2, 4);
        assert(sharded_path(name) =~= (first.push('/') + second).push('/') + name);
        lemma_split_concat(first.push('/') + second, name, '/');
        lemma_split_concat(first, second, '/');
        assert(seq![first] + seq![second] + seq![name] =~= seq![first, second, name]);
    }
}

/// The walk reads the index file of every package whose name holds neither
/// a slash nor a dot: the file lies at a depth that the walk visits, and
/// nothing on the way to it is hidden.
pub proof fn lemma_walk_reads_index_files(name: Seq<char>)
    requires
        !name.contains('/'),
        !name.contains('.'),
    ensures
        walk_reads(sharded_path(name)),
        path_entries(sharded_path(name)).len() == layout_depth(name),
        path_entries(sharded_path(name)).last() == name,
{
    lemma_sharded_path_entries(name);
    let entries = path_entries(sharded_path(name));
    assert forall|i: int| 0 <= i < entries.len() implies !hidden(#[trigger] entries[i]) by {
        let entry = entries[i];
        if entry.len() > 0 && entry[0] == '.' {
            if entry == name {
                assert(name[0] == '.');
            } else if entry == chars_between(name, 0, 1) || entry == chars_between(name, 0, 2) {
                assert(entry[0] == name[0]);
            } else if entry == chars_between(name, 2, 4) {
                assert(entry[0] == name[2]);
            }
        }
    }
}

/// Whether the walk over the index tree reads the regular file at `path`,
/// relative to the root of the tree.
pub fn is_index_entry(path: &str) -> (read: bool)
    ensures
        read == walk_reads(path@),
{
    let entries = split(path, '/');
    if entries.len() < INDEX_MIN_DEPTH || entries.len() > INDEX_MAX_DEPTH {
        return false;
    }
    let mut i: usize = 0;
    while i < entries.len()
        invariant
            i <= entries.len(),
            entries.deep_view() == path_entries(path@),
            forall|k: int| 0 <= k < i ==> !hidden(#[trigger] path_entries(path@)[k]),
        decreases entries.len() - i,
    {
        if is_hidden(entries[i].as_str()) {
            assert(hidden(path_entries(path@)[i as int]));
            return false;
        }
        i += 1;
    }
    true
}

} // verus!
