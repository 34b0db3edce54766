//! The scan of the index: every record line of every index file is read on
//! its own, and what the lines describe is gathered in one outcome.

use crate::fetching::krates::{line_coordinate, Coordinate, Krate};
use vstd::multiset::Multiset;
use vstd::prelude::*;
use vstd::seq_lib::{lemma_fold_left_permutation, lemma_multiset_commutative};

verus! {

/// The coordinates that the lines of one index file describe, in the order
/// of the lines. A line that describes none leaves no trace here and does
/// not touch the lines around it.
pub open spec fn coordinates_of(lines: Seq<Seq<char>>) -> Seq<Coordinate>
    decreases lines.len(),
{
    if lines.len() == 0 {
        Seq::<Coordinate>::empty()
    } else {
        match line_coordinate(lines.last()) {
            Some(c) => coordinates_of(lines.drop_last()).push(c),
            None => coordinates_of(lines.drop_last()),
        }
    }
}

/// The number of lines that describe no coordinate.
pub open spec fn skipped_in(lines: Seq<Seq<char>>) -> nat
    decreases lines.len(),
{
    if lines.len() == 0 {
        0
    } else if line_coordinate(lines.last()) is None {
        skipped_in(lines.drop_last()) + 1
    } else {
        skipped_in(lines.drop_last())
    }
}

/// Every line describes a coordinate.
pub open spec fn all_lines_valid(lines: Seq<Seq<char>>) -> bool {
    forall|i: int| 0 <= i < lines.len() ==> line_coordinate(#[trigger] lines[i]) is Some
}

/// The coordinates that a run of files yields when the files are taken one
/// after the other.
pub open spec fn scan_all(files: Seq<Seq<Seq<char>>>) -> Seq<Coordinate>
    decreases files.len(),
{
    if files.len() == 0 {
        Seq::<Coordinate>::empty()
    } else {
        scan_all(files.drop_last()) + coordinates_of(files.last())
    }
}

/// The number of lines that a run of files has skipped.
pub open spec fn skipped_all(files: Seq<Seq<Seq<char>>>) -> nat
    decreases files.len(),
{
    if files.len() == 0 {
        0
    } else {
        skipped_all(files.drop_last()) + skipped_in(files.last())
    }
}

/// The number of lines in a run of files.
pub open spec fn total_lines(files: Seq<Seq<Seq<char>>>) -> nat
    decreases files.len(),
{
    if files.len() == 0 {
        0
    } else {
        total_lines(files.drop_last()) + files.last().len()
    }
}

/// Each line is either found or skipped.
pub proof fn lemma_found_and_skipped(lines: Seq<Seq<char>>)
    ensures
        coordinates_of(lines).len() + skipped_in(lines) == lines.len(),
    decreases lines.len(),
{
    if lines.len() > 0 {
        lemma_found_and_skipped(lines.drop_last());
    }
}

/// The scan of two runs of lines, one after the other, is the scan of the
/// first followed by the scan of the second.
pub proof fn lemma_coordinates_of_concat(a: Seq<Seq<char>>, b: Seq<Seq<char>>)
    ensures
        coordinates_of(a + b) == coordinates_of(a) + coordinates_of(b),
        skipped_in(a + b) == skipped_in(a) + skipped_in(b),
    decreases b.len(),
{
    if b.len() == 0 {
        assert(a + b =~= a);
        assert(coordinates_of(a) + coordinates_of(b) =~= coordinates_of(a));
    } else {
        lemma_coordinates_of_concat(a, b.drop_last());
        assert((a + b).drop_last() =~= a + b.drop_last());
        assert((a + b).last() == b.last());
        match line_coordinate(b.last()) {
            Some(c) => {
                assert((coordinates_of(a) + coordinates_of(b.drop_last())).push(c)
                    =~= coordinates_of(a) + coordinates_of(b.drop_last()).push(c));
            },
            None => {},
        }
    }
}

/// A line that describes no coordinate is skipped, and the lines before and
/// after it are read as if it were not there.
pub proof fn lemma_malformed_line_is_skipped(
    before: Seq<Seq<char>>,
    line: Seq<char>,
    after: Seq<Seq<char>>,
)
    requires
        line_coordinate(line) is None,
    ensures
        coordinates_of(before.push(line) + after) == coordinates_of(before) + coordinates_of(
            after,
        ),
        skipped_in(before.push(line) + after) == skipped_in(before) + 1 + skipped_in(after),
{
    lemma_coordinates_of_concat(before.push(line), after);
    assert(before.push(line).drop_last() =~= before);
}

/// Where every line describes a coordinate, a file of `n` lines yields
/// exactly `n` coordinates, line by line the one that the line describes,
/// and skips none: nothing is lost and nothing is made up.
pub proof fn lemma_valid_lines_all_found(lines: Seq<Seq<char>>)
    requires
        all_lines_valid(lines),
    ensures
        coordinates_of(lines).len() == lines.len(),
        skipped_in(lines) == 0,
        forall|i: int|
            0 <= i < lines.len() ==> Some(#[trigger] coordinates_of(lines)[i]) == line_coordinate(
                lines[i],
            ),
    decreases lines.len(),
{
    if lines.len() > 0 {
        assert(line_coordinate(lines[lines.len() - 1]) is Some);
        assert forall|i: int| 0 <= i < lines.drop_last().len() implies line_coordinate(
            #[trigger] lines.drop_last()[i],
        ) is Some by {
            assert(lines.drop_last()[i] == lines[i]);
        }
        lemma_valid_lines_all_found(lines.drop_last());
    }
}

/// Of the lines of a run of files each is either found or skipped.
pub proof fn lemma_scan_all_found_and_skipped(files: Seq<Seq<Seq<char>>>)
    ensures
        scan_all(files).len() + skipped_all(files) == total_lines(files),
    decreases files.len(),
{
    if files.len() > 0 {
        lemma_scan_all_found_and_skipped(files.drop_last());
        lemma_found_and_skipped(files.last());
    }
}

/// Where every line of every file describes a coordinate, the scan yields
/// exactly as many coordinates as there are lines, and skips none.
pub proof fn lemma_scan_all_count(files: Seq<Seq<Seq<char>>>)
    requires
        forall|i: int| 0 <= i < files.len() ==> all_lines_valid(#[trigger] files[i]),
    ensures
        scan_all(files).len() == total_lines(files),
        skipped_all(files) == 0,
    decreases files.len(),
{
    if files.len() > 0 {
        assert(all_lines_valid(files[files.len() - 1]));
        assert forall|i: int| 0 <= i < files.drop_last().len() implies all_lines_valid(
            #[trigger] files.drop_last()[i],
        ) by {
            assert(files.drop_last()[i] == files[i]);
        }
        lemma_scan_all_count(files.drop_last());
        lemma_valid_lines_all_found(files.last());
    }
}

/// The beginning of a run of files has skipped no more lines than the whole
/// run.
pub proof fn lemma_skipped_all_grows(files: Seq<Seq<Seq<char>>>, n: int)
    requires
        0 <= n <= files.len(),
    ensures
        skipped_all(files.take(n)) <= skipped_all(files),
    decreases files.len() - n,
{
    if n == files.len() {
        assert(files.take(n) =~= files);
    } else {
        lemma_skipped_all_grows(files.drop_last(), n);
        assert(files.drop_last().take(n) =~= files.take(n));
    }
}

/// The coordinates of a run of files as a bag, gathered file by file.
pub open spec fn scan_bag(files: Seq<Seq<Seq<char>>>) -> Multiset<Coordinate> {
    files.fold_left(
        Multiset::<Coordinate>::empty(),
        |bag: Multiset<Coordinate>, lines: Seq<Seq<char>>|
            bag.add(coordinates_of(lines).to_multiset()),
    )
}

/// Taken as a bag, the scan of a run of files is the sum of the scans of
/// its files.
pub proof fn lemma_scan_all_bag(files: Seq<Seq<Seq<char>>>)
    ensures
        scan_all(files).to_multiset() == scan_bag(files),
    decreases files.len(),
{
    broadcast use vstd::multiset::group_multiset_axioms;

    if files.len() == 0 {
        assert(scan_all(files).to_multiset() =~= Multiset::<Coordinate>::empty()) by {
            scan_all(files).to_multiset_ensures();
        }
    } else {
        lemma_scan_all_bag(files.drop_last());
        lemma_multiset_commutative(scan_all(files.drop_last()), coordinates_of(files.last()));
    }
}

/// The lines that a run of files has skipped, counted file by file.
pub proof fn lemma_skipped_all_is_a_sum(files: Seq<Seq<Seq<char>>>)
    ensures
        skipped_all(files) == files.fold_left(
            0nat,
            |n: nat, lines: Seq<Seq<char>>| n + skipped_in(lines),
        ),
    decreases files.len(),
{
    if files.len() > 0 {
        lemma_skipped_all_is_a_sum(files.drop_last());
    }
}

/// The order in which the files are scanned does not change what is found:
/// two runs over the same files yield the same coordinates, each as often,
/// though perhaps in another order, and skip as many lines.
pub proof fn lemma_scan_order_is_irrelevant(
    files: Seq<Seq<Seq<char>>>,
    reordered: Seq<Seq<Seq<char>>>,
)
    requires
        files.to_multiset() == reordered.to_multiset(),
    ensures
        scan_all(files).to_multiset() == scan_all(reordered).to_multiset(),
        scan_all(files).len() == scan_all(reordered).len(),
        skipped_all(files) == skipped_all(reordered),
{
    broadcast use vstd::multiset::group_multiset_axioms;

    let count = |n: nat, lines: Seq<Seq<char>>| n + skipped_in(lines);
    lemma_fold_left_permutation(files, reordered, count, 0nat);
    lemma_skipped_all_is_a_sum(files);
    lemma_skipped_all_is_a_sum(reordered);

    let gather = |bag: Multiset<Coordinate>, lines: Seq<Seq<char>>|
        bag.add(coordinates_of(lines).to_multiset());
    assert forall|x: Seq<Seq<char>>, y: Seq<Seq<char>>, bag: Multiset<Coordinate>|
        #[trigger] gather(gather(bag, x), y) == gather(gather(bag, y), x) by {
        assert(bag.add(coordinates_of(x).to_multiset()).add(coordinates_of(y).to_multiset())
            =~= bag.add(coordinates_of(y).to_multiset()).add(coordinates_of(x).to_multiset()));
    }
    lemma_fold_left_permutation(files, reordered, gather, Multiset::<Coordinate>::empty());
    lemma_scan_all_bag(files);
    lemma_scan_all_bag(reordered);
    scan_all(files).to_multiset_ensures();
    scan_all(reordered).to_multiset_ensures();
}

/// What a scan has found: the published versions discovered so far, and the
/// number of lines that were skipped because they described none.
#[derive(Debug)]
pub struct ScanOutcome {
    krates: Vec<Krate>,
    skipped: usize,
}

/// A [`ScanOutcome`] as a mathematical value.
pub struct ScanOutcomeView {
    pub coordinates: Seq<Coordinate>,
    pub skipped: nat,
}

impl View for ScanOutcome {
    type V = ScanOutcomeView;

    closed spec fn view(&self) -> ScanOutcomeView {
        ScanOutcomeView { coordinates: self.krates.deep_view(), skipped: self.skipped as nat }
    }
}

impl ScanOutcome {
    /// The outcome of a scan that has read nothing yet.
    pub fn new() -> (outcome: ScanOutcome)
        ensures
            outcome@.coordinates == Seq::<Coordinate>::empty(),
            outcome@.skipped == 0,
    {
        let outcome = ScanOutcome { krates: Vec::new(), skipped: 0 };
        assert(outcome.krates.deep_view() =~= Seq::<Coordinate>::empty());
        outcome
    }

    /// Scans the lines of one index file. Every line is read on its own: one
    /// that describes no published version is counted as skipped, and the
    /// scan goes on with the next.
    pub fn of_lines(lines: &Vec<String>) -> (outcome: ScanOutcome)
        ensures
            outcome@.coordinates == coordinates_of(lines.deep_view()),
            outcome@.skipped == skipped_in(lines.deep_view()),
    {
        let ghost texts = lines.deep_view();
        let mut krates: Vec<Krate> = Vec::new();
        let mut skipped: usize = 0;
        let mut i: usize = 0;
        assert(texts.take(0) =~= Seq::<Seq<char>>::empty());
        assert(krates.deep_view() =~= Seq::<Coordinate>::empty());
        while i < lines.len()
            invariant
                i <= lines.len(),
                texts == lines.deep_view(),
                krates.deep_view() == coordinates_of(texts.take(i as int)),
                skipped == skipped_in(texts.take(i as int)),
                skipped <= i,
            decreases lines.len() - i,
        {
            assert(texts.take(i + 1).drop_last() =~= texts.take(i as int));
            assert(texts.take(i + 1).last() == lines[i as int]@);
            match Krate::from_line(lines[i].as_str()) {
                Some(krate) => {
                    let ghost found = krates.deep_view();
                    krates.push(krate);
                    assert(krates.deep_view() =~= found.push(krate@));
                },
                None => {
                    skipped += 1;
                },
            }
            i += 1;
        }
        assert(texts.take(lines.len() as int) =~= texts);
        ScanOutcome { krates, skipped }
    }

    /// Takes in what another scan has found, after what this one holds.
    pub fn absorb(&mut self, other: ScanOutcome)
        requires
            old(self)@.skipped + other@.skipped <= usize::MAX,
        ensures
            final(self)@.coordinates == old(self)@.coordinates + other@.coordinates,
            final(self)@.skipped == old(self)@.skipped + other@.skipped,
    {
        let ghost mine = self.krates.deep_view();
        let ghost theirs = other.krates.deep_view();
        let mut other = other;
        self.krates.append(&mut other.krates);
        self.skipped += other.skipped;
        assert(self.krates.deep_view() =~= mine + theirs);
    }

    /// Scans a run of index files, one after the other, as a walk with a
    /// single worker does. Taken in any other order, the same files yield
    /// the same coordinates, each as often, and skip as many lines.
    pub fn of_files(files: &Vec<Vec<String>>) -> (outcome: ScanOutcome)
        requires
            skipped_all(files.deep_view()) <= usize::MAX,
        ensures
            outcome@.coordinates == scan_all(files.deep_view()),
            outcome@.skipped == skipped_all(files.deep_view()),
    {
        let ghost texts = files.deep_view();
        let mut outcome = ScanOutcome::new();
        let mut i: usize = 0;
        assert(texts.take(0) =~= Seq::<Seq<Seq<char>>>::empty());
        while i < files.len()
            invariant
                i <= files.len(),
                texts == files.deep_view(),
                skipped_all(texts) <= usize::MAX,
                outcome@.coordinates == scan_all(texts.take(i as int)),
                outcome@.skipped == skipped_all(texts.take(i as int)),
            decreases files.len() - i,
        {
            assert(texts.take(i + 1).drop_last() =~= texts.take(i as int));
            assert(texts.take(i + 1).last() == files[i as int].deep_view());
            proof {
                lemma_skipped_all_grows(texts, i + 1);
            }
            outcome.absorb(ScanOutcome::of_lines(&files[i]));
            i += 1;
        }
        assert(texts.take(files.len() as int) =~= texts);
        outcome
    }

    /// Counts `lines` more lines as skipped: lines that could not be read
    /// at all, and so were never handed over.
    pub fn skip(&mut self, lines: usize)
        requires
            old(self)@.skipped + lines <= usize::MAX,
        ensures
            final(self)@.coordinates == old(self)@.coordinates,
            final(self)@.skipped == old(self)@.skipped + lines,
    {
        self.skipped += lines;
    }

    /// The number of published versions discovered.
    pub fn discovered(&self) -> (n: usize)
        ensures
            n == self@.coordinates.len(),
    {
        self.krates.len()
    }

    /// The number of lines skipped.
    pub fn skipped(&self) -> (n: usize)
        ensures
            n == self@.skipped,
    {
        self.skipped
    }

    /// The published versions discovered, in the order they were found.
    pub fn krates(&self) -> (krates: &Vec<Krate>)
        ensures
            krates.deep_view() == self@.coordinates,
    {
        &self.krates
    }

    /// Hands the discovered versions over and ends the outcome.
    pub fn into_krates(self) -> (krates: Vec<Krate>)
        ensures
            krates.deep_view() == self@.coordinates,
    {
        self.krates
    }
}

} // verus!
