//! The local index and the check of its readiness: whether the tree that is
//! on disk already serves the configured plan.
//!
//! The check is a test of membership alone. It does not look at how fresh
//! the versions in an index file are, nor at what the file holds.

use crate::fetching::constants::{DEFAULT_INDEX_PATH, DEFAULT_SOURCE_INDEX};
use crate::fetching::layout::{index_file_of, sharded_path};
use crate::fetching::plan::{FetchPlan, FetchPlanView};
use crate::text::contains_text;
use vstd::prelude::*;

verus! {

/// What a run is configured with.
pub struct IndexConfig {
    /// Which packages the run mirrors.
    pub fetch_plan: FetchPlan,
    /// The root of the local index tree.
    pub index_path: String,
    /// The upstream origin that the local index is expected to come from.
    pub source_index: String,
}

/// An [`IndexConfig`] as a mathematical value.
pub struct IndexConfigView {
    pub fetch_plan: FetchPlanView,
    pub index_path: Seq<char>,
    pub source_index: Seq<char>,
}

impl View for IndexConfig {
    type V = IndexConfigView;

    open spec fn view(&self) -> IndexConfigView {
        IndexConfigView {
            fetch_plan: self.fetch_plan@,
            index_path: self.index_path@,
            source_index: self.source_index@,
        }
    }
}

/// The verdict of the readiness check.
#[derive(Debug, PartialEq)]
pub enum ReadinessVerdict {
    /// The local index serves the plan as it is.
    Ready,
    /// There is no local index: all of it has to be brought in.
    NeedsFullClone,
    /// The local index lacks the index files of the packages named.
    Stale(Vec<String>),
    /// The local index comes from another origin than the one expected,
    /// which is the one named.
    OriginMismatch(String),
}

/// A [`ReadinessVerdict`] as a mathematical value.
pub enum ReadinessVerdictView {
    Ready,
    NeedsFullClone,
    Stale(Seq<Seq<char>>),
    OriginMismatch(Seq<char>),
}

impl View for ReadinessVerdict {
    type V = ReadinessVerdictView;

    open spec fn view(&self) -> ReadinessVerdictView {
        match self {
            ReadinessVerdict::Ready => ReadinessVerdictView::Ready,
            ReadinessVerdict::NeedsFullClone => ReadinessVerdictView::NeedsFullClone,
            ReadinessVerdict::Stale(missing) => ReadinessVerdictView::Stale(missing.deep_view()),
            ReadinessVerdict::OriginMismatch(expected) => ReadinessVerdictView::OriginMismatch(
                expected@,
            ),
        }
    }
}

/// The state of the local index, as far as the run is concerned.
#[derive(Clone, Copy, Debug, PartialEq, Eq)]
pub enum IndexState {
    /// The index can be scanned as it is.
    Ready,
    /// The index has to be brought in from its origin before it is scanned.
    OutOfDate,
    /// The index cannot be used, and the run cannot go on.
    Invalid,
}

/// The state that a verdict puts the index in: a ready index is scanned as
/// it is, one that is not there or lacks members is out of date, and one of
/// another origin is invalid, which ends the run before any work is
/// scheduled.
pub open spec fn state_of(verdict: ReadinessVerdictView) -> IndexState {
    match verdict {
        ReadinessVerdictView::Ready => IndexState::Ready,
        ReadinessVerdictView::NeedsFullClone => IndexState::OutOfDate,
        ReadinessVerdictView::Stale(_) => IndexState::OutOfDate,
        ReadinessVerdictView::OriginMismatch(_) => IndexState::Invalid,
    }
}

impl ReadinessVerdict {
    /// The state that this verdict puts the index in.
    pub fn state(&self) -> (state: IndexState)
        ensures
            state == state_of(self@),
    {
        match self {
            ReadinessVerdict::Ready => IndexState::Ready,
            ReadinessVerdict::NeedsFullClone => IndexState::OutOfDate,
            ReadinessVerdict::Stale(_) => IndexState::OutOfDate,
            ReadinessVerdict::OriginMismatch(_) => IndexState::Invalid,
        }
    }
}

/// What was observed of the local index tree.
#[derive(Debug)]
pub struct IndexSnapshot {
    /// The root of the index tree is there.
    pub exists: bool,
    /// The upstream origin that the tree records for itself; none where it
    /// records none or the record cannot be read.
    pub origin: Option<String>,
    /// The regular files found in the tree, each by its path as
    /// [`Index::path_in_index`] writes it.
    pub files: Vec<String>,
}

/// An [`IndexSnapshot`] as a mathematical value.
pub struct IndexSnapshotView {
    pub exists: bool,
    pub origin: Option<Seq<char>>,
    pub files: Seq<Seq<char>>,
}

impl View for IndexSnapshot {
    type V = IndexSnapshotView;

    open spec fn view(&self) -> IndexSnapshotView {
        IndexSnapshotView {
            exists: self.exists,
            origin: self.origin.deep_view(),
            files: self.files.deep_view(),
        }
    }
}

/// The place of the index file of the package `name` in the tree rooted at
/// `index_path`.
pub open spec fn entry_path(index_path: Seq<char>, name: Seq<char>) -> Seq<char> {
    index_path + "/"@ + sharded_path(name)
}

/// The index file of the package `name` is among `files`.
pub open spec fn is_present(index_path: Seq<char>, files: Seq<Seq<char>>, name: Seq<char>) -> bool {
    files.contains(entry_path(index_path, name))
}

/// The names among `required` whose index file is not among `files`, in the
/// order of `required`, each as often as it is required.
pub open spec fn missing_names(
    index_path: Seq<char>,
    files: Seq<Seq<char>>,
    required: Seq<Seq<char>>,
) -> Seq<Seq<char>>
    decreases required.len(),
{
    if required.len() == 0 {
        Seq::<Seq<char>>::empty()
    } else if is_present(index_path, files, required.last()) {
        missing_names(index_path, files, required.drop_last())
    } else {
        missing_names(index_path, files, required.drop_last()).push(required.last())
    }
}

/// The verdict on the origin of a tree that is there: ready where the tree
/// records the expected origin, a mismatch, which names the expected origin,
/// where it records another or none.
pub open spec fn origin_verdict(
    expected: Seq<char>,
    recorded: Option<Seq<char>>,
) -> ReadinessVerdictView {
    if recorded == Some(expected) {
        ReadinessVerdictView::Ready
    } else {
        ReadinessVerdictView::OriginMismatch(expected)
    }
}

/// The verdict on the members of a tree that is there: ready where the index
/// file of every required package is present, else stale, with the names that
/// are missing.
pub open spec fn membership_verdict(
    index_path: Seq<char>,
    files: Seq<Seq<char>>,
    required: Seq<Seq<char>>,
) -> ReadinessVerdictView {
    let missing = missing_names(index_path, files, required);
    if missing.len() == 0 {
        ReadinessVerdictView::Ready
    } else {
        ReadinessVerdictView::Stale(missing)
    }
}

/// The packages that a plan requires to be in the index. A list names them
/// itself. What a curated set or a count stands for is worked out elsewhere
/// and comes in as `resolved`.
pub open spec fn required_names(plan: FetchPlanView, resolved: Seq<Seq<char>>) -> Seq<Seq<char>> {
    match plan {
        FetchPlanView::List(names) => names,
        _ => resolved,
    }
}

/// The verdict of the readiness check:
///
/// 1. where the root of the index is not there, all of it is needed;
/// 2. under the plan for every package, the recorded origin decides;
/// 3. under any other plan, the membership of the required packages decides.
pub open spec fn readiness(
    config: IndexConfigView,
    snapshot: IndexSnapshotView,
    resolved: Seq<Seq<char>>,
) -> ReadinessVerdictView {
    if !snapshot.exists {
        ReadinessVerdictView::NeedsFullClone
    } else if config.fetch_plan is AllCrates {
        origin_verdict(config.source_index, snapshot.origin)
    } else {
        membership_verdict(
            config.index_path,
            snapshot.files,
            required_names(config.fetch_plan, resolved),
        )
    }
}

/// A name is listed as missing exactly when it is required and its index
/// file is absent.
pub proof fn lemma_missing_names(
    index_path: Seq<char>,
    files: Seq<Seq<char>>,
    required: Seq<Seq<char>>,
    name: Seq<char>,
)
    ensures
        missing_names(index_path, files, required).contains(name) <==> required.contains(name)
            && !is_present(index_path, files, name),
    decreases required.len(),
{
    let missing = missing_names(index_path, files, required);
    if required.len() > 0 {
        let init = required.drop_last();
        let earlier = missing_names(index_path, files, init);
        lemma_missing_names(index_path, files, init, name);
        if required.contains(name) {
            let k = choose|k: int| 0 <= k < required.len() && required[k] == name;
            if k < init.len() {
                assert(init[k] == name);
            }
        }
        if init.contains(name) {
            let k = choose|k: int| 0 <= k < init.len() && init[k] == name;
            assert(required[k] == name);
        }
        assert(required[required.len() - 1] == required.last());
        if !is_present(index_path, files, required.last()) {
            assert(missing.drop_last() =~= earlier);
            assert(missing[missing.len() - 1] == required.last());
            if missing.contains(name) {
                let k = choose|k: int| 0 <= k < missing.len() && missing[k] == name;
                if k < earlier.len() {
                    assert(earlier[k] == name);
                }
            }
            if earlier.contains(name) {
                let k = choose|k: int| 0 <= k < earlier.len() && earlier[k] == name;
                assert(missing[k] == name);
            }
        }
    }
}

/// Under the plan for every package, an index that records another origin
/// than the configured one, or none, is never ready.
pub proof fn lemma_origin_mismatch_is_never_ready(
    config: IndexConfigView,
    snapshot: IndexSnapshotView,
    resolved: Seq<Seq<char>>,
)
    requires
        config.fetch_plan is AllCrates,
        snapshot.origin != Some(config.source_index),
    ensures
        !(readiness(config, snapshot, resolved) is Ready),
        snapshot.exists ==> readiness(config, snapshot, resolved)
            == ReadinessVerdictView::OriginMismatch(config.source_index),
        state_of(readiness(config, snapshot, resolved)) != IndexState::Ready,
{
}

/// Under a list that names a package whose index file is absent, the index
/// is never ready; and where the tree is there at all, the verdict is stale
/// and lists that name.
pub proof fn lemma_absent_name_is_stale(
    config: IndexConfigView,
    snapshot: IndexSnapshotView,
    resolved: Seq<Seq<char>>,
    name: Seq<char>,
)
    requires
        config.fetch_plan matches FetchPlanView::List(names) && names.contains(name),
        !is_present(config.index_path, snapshot.files, name),
    ensures
        !(readiness(config, snapshot, resolved) is Ready),
        snapshot.exists ==> (readiness(config, snapshot, resolved)
            matches ReadinessVerdictView::Stale(missing) && missing.contains(name)),
        state_of(readiness(config, snapshot, resolved)) == IndexState::OutOfDate,
{
    lemma_missing_names(
        config.index_path,
        snapshot.files,
        required_names(config.fetch_plan, resolved),
        name,
    );
}

/// The local index of a run.
pub struct Index {
    /// Whether the index has been found ready. A new index has not.
    pub ready: bool,
    /// What the run is configured with.
    pub config: IndexConfig,
}

impl Default for Index {
    /// The index at the default place, expected to come from the default
    /// origin, under the plan for every package.
    fn default() -> (index: Index)
        ensures
            !index.ready,
            index.config@ == (IndexConfigView {
                fetch_plan: FetchPlanView::AllCrates,
                index_path: DEFAULT_INDEX_PATH@,
                source_index: DEFAULT_SOURCE_INDEX@,
            }),
    {
        Index::new(
            IndexConfig {
                fetch_plan: FetchPlan::AllCrates,
                index_path: String::from_str(DEFAULT_INDEX_PATH),
                source_index: String::from_str(DEFAULT_SOURCE_INDEX),
            },
        )
    }
}

impl Index {
    /// The index configured by `c`, not yet found ready.
    pub fn new(c: IndexConfig) -> (index: Index)
        ensures
            !index.ready,
            index.config == c,
    {
        Index { ready: false, config: c }
    }

    /// The packages that the configured plan requires to be in the index,
    /// where `resolved` names those that a curated or counted plan stands
    /// for.
    pub fn required_crates<'a>(&'a self, resolved: &'a Vec<String>) -> (required: &'a Vec<String>)
        ensures
            required.deep_view() == required_names(self.config@.fetch_plan, resolved.deep_view()),
    {
        match &self.config.fetch_plan {
            FetchPlan::List(names) => names,
            _ => resolved,
        }
    }

    /// The place of the index file of the package `krate_name` in this
    /// index.
    pub fn path_in_index(&self, krate_name: &str) -> (path: String)
        ensures
            path@ == entry_path(self.config@.index_path, krate_name@),
    {
        let mut path = self.config.index_path.clone();
        path.append("/");
        path.append(index_file_of(krate_name).as_str());
        path
    }

    /// Whether the index file of the package `krate_name` was found in the
    /// tree.
    pub fn exists_in_index(&self, krate_name: &str, snapshot: &IndexSnapshot) -> (present: bool)
        ensures
            present == is_present(self.config@.index_path, snapshot@.files, krate_name@),
    {
        let path = self.path_in_index(krate_name);
        contains_text(&snapshot.files, &path)
    }

    /// Compares the origin that the tree records with the configured one.
    pub fn check_index_main(&self, snapshot: &IndexSnapshot) -> (verdict: ReadinessVerdict)
        ensures
            verdict@ == origin_verdict(self.config@.source_index, snapshot@.origin),
    {
        let matches = match &snapshot.origin {
            Some(recorded) => *recorded == self.config.source_index,
            None => false,
        };
        if matches {
            ReadinessVerdict::Ready
        } else {
            ReadinessVerdict::OriginMismatch(self.config.source_index.clone())
        }
    }

    /// Tests, for each of `required_crates`, whether its index file was
    /// found in the tree.
    pub fn check_index_lean(
        &self,
        required_crates: &Vec<String>,
        snapshot: &IndexSnapshot,
    ) -> (verdict: ReadinessVerdict)
        ensures
            verdict@ == membership_verdict(
                self.config@.index_path,
                snapshot@.files,
                required_crates.deep_view(),
            ),
    {
        let ghost required = required_crates.deep_view();
        let ghost root = self.config@.index_path;
        let ghost files = snapshot@.files;
        let mut missing: Vec<String> = Vec::new();
        let mut i: usize = 0;
        assert(required.take(0) =~= Seq::<Seq<char>>::empty());
        assert(missing.deep_view() =~= Seq::<Seq<char>>::empty());
        while i < required_crates.len()
            invariant
                i <= required_crates.len(),
                required == required_crates.deep_view(),
                root == self.config@.index_path,
                files == snapshot@.files,
                missing.deep_view() == missing_names(root, files, required.take(i as int)),
            decreases required_crates.len() - i,
        {
            assert(required.take(i + 1).drop_last() =~= required.take(i as int));
            assert(required.take(i + 1).last() == required_crates[i as int]@);
            if !self.exists_in_index(required_crates[i].as_str(), snapshot) {
                let ghost earlier = missing.deep_view();
                missing.push(required_crates[i].clone());
                assert(missing.deep_view() =~= earlier.push(required_crates[i as int]@));
            }
            i += 1;
        }
        assert(required.take(required_crates.len() as int) =~= required);
        if missing.len() == 0 {
            ReadinessVerdict::Ready
        } else {
            ReadinessVerdict::Stale(missing)
        }
    }

    /// The readiness check: whether the tree observed in `snapshot` serves
    /// the configured plan. `resolved` names the packages that a curated or
    /// counted plan stands for; it is not read under the other plans.
    pub fn adheres_to_fetching_policy(
        &self,
        snapshot: &IndexSnapshot,
        resolved: &Vec<String>,
    ) -> (verdict: ReadinessVerdict)
        ensures
            verdict@ == readiness(self.config@, snapshot@, resolved.deep_view()),
    {
        if !snapshot.exists {
            return ReadinessVerdict::NeedsFullClone;
        }
        match &self.config.fetch_plan {
            FetchPlan::AllCrates => self.check_index_main(snapshot),
            _ => self.check_index_lean(self.required_crates(resolved), snapshot),
        }
    }
}

} // verus!
