//! The download schedule: which fetch starts next, how many may be under way
//! at once, and what is left to report when all have ended.
//!
//! The schedule decides and keeps the books; whoever drives it does the
//! fetching. The driver asks [`Scheduler::next_step`] what to do, starts the
//! fetch it is told to start, and reports each fetch that has ended, well or
//! badly, with [`Scheduler::resolve`].

use vstd::prelude::*;

verus! {

/// The number of fetches that may be under way at once when nothing else is
/// configured.
pub const DEFAULT_CONCURRENCY: usize = 5;

/// How far the fetch of one coordinate has come.
#[derive(Clone, Copy, Debug, PartialEq, Eq)]
pub enum FetchState {
    /// Not started yet.
    Pending,
    /// Started, not ended yet.
    InFlight,
    /// Ended well: the archive is in place.
    Fetched,
    /// Ended badly, in the fetch or in the write.
    Failed,
}

/// What the driver is to do next.
#[derive(Clone, Copy, Debug, PartialEq, Eq)]
pub enum Step {
    /// Start the fetch of the coordinate with this index.
    Start(usize),
    /// Start nothing; wait until a fetch under way has ended and report it.
    Wait,
    /// Every coordinate has been fetched or has failed.
    Finished,
}

/// The number of fetches under way among `states`.
pub open spec fn count_in_flight(states: Seq<FetchState>) -> nat
    decreases states.len(),
{
    if states.len() == 0 {
        0
    } else {
        count_in_flight(states.drop_last()) + if states.last() is InFlight {
            1nat
        } else {
            0nat
        }
    }
}

/// A schedule as a mathematical value.
pub struct Schedule {
    /// The most fetches that may be under way at once.
    pub limit: nat,
    /// The number of coordinates whose fetch has been started.
    pub next: nat,
    /// The state of each coordinate, by index.
    pub states: Seq<FetchState>,
}

impl Schedule {
    /// The schedule of `total` coordinates of which none has been started.
    pub open spec fn fresh(total: nat, limit: nat) -> Schedule {
        Schedule { limit, next: 0, states: Seq::new(total, |i: int| FetchState::Pending) }
    }

    /// The number of fetches under way.
    pub open spec fn in_flight(self) -> nat {
        count_in_flight(self.states)
    }

    /// Coordinates are started in the order of their index and once each,
    /// and the window is never overfull.
    pub open spec fn well_formed(self) -> bool {
        &&& self.limit >= 1
        &&& self.next <= self.states.len()
        &&& forall|i: int| 0 <= i < self.next ==> !(#[trigger] self.states[i] is Pending)
        &&& forall|i: int|
            self.next <= i < self.states.len() ==> #[trigger] self.states[i] is Pending
        &&& self.in_flight() <= self.limit
    }

    /// A fetch can be started: one is left to start and the window has room.
    pub open spec fn can_start(self) -> bool {
        self.next < self.states.len() && self.in_flight() < self.limit
    }

    /// The schedule after the next coordinate has been started.
    pub open spec fn started(self) -> Schedule {
        Schedule {
            limit: self.limit,
            next: self.next + 1,
            states: self.states.update(self.next as int, FetchState::InFlight),
        }
    }

    /// The fetch of the coordinate `index` is under way.
    pub open spec fn is_in_flight(self, index: int) -> bool {
        0 <= index < self.states.len() && self.states[index] is InFlight
    }

    /// The schedule after the fetch of `index` has ended.
    pub open spec fn resolved(self, index: int, succeeded: bool) -> Schedule {
        Schedule {
            limit: self.limit,
            next: self.next,
            states: self.states.update(
                index,
                if succeeded {
                    FetchState::Fetched
                } else {
                    FetchState::Failed
                },
            ),
        }
    }

    /// Every coordinate has been fetched or has failed.
    pub open spec fn all_resolved(self) -> bool {
        forall|i: int|
            0 <= i < self.states.len() ==> (#[trigger] self.states[i] is Fetched
                || self.states[i] is Failed)
    }

    /// The number of moves that are left in the run: two for each
    /// coordinate not yet started, its start and its end, and one for each
    /// fetch under way.
    pub open spec fn work_left(self) -> nat {
        (2 * (self.states.len() - self.next) + self.in_flight()) as nat
    }

    /// What the driver is told in this state.
    pub open spec fn step(self) -> Step {
        if self.can_start() {
            Step::Start(self.next as usize)
        } else if self.in_flight() > 0 {
            Step::Wait
        } else {
            Step::Finished
        }
    }
}

/// Changing one state changes the number of fetches under way by what that
/// state adds or takes away.
pub proof fn lemma_count_update(states: Seq<FetchState>, index: int, state: FetchState)
    requires
        0 <= index < states.len(),
    ensures
        count_in_flight(states.update(index, state)) + (if states[index] is InFlight {
            1nat
        } else {
            0nat
        }) == count_in_flight(states) + (if state is InFlight {
            1nat
        } else {
            0nat
        }),
    decreases states.len(),
{
    if index == states.len() - 1 {
        assert(states.update(index, state).drop_last() =~= states.drop_last());
    } else {
        lemma_count_update(states.drop_last(), index, state);
        assert(states.update(index, state).drop_last() =~= states.drop_last().update(
            index,
            state,
        ));
    }
}

/// Where no fetch is counted as under way, none is.
pub proof fn lemma_count_zero(states: Seq<FetchState>)
    requires
        count_in_flight(states) == 0,
    ensures
        forall|i: int| 0 <= i < states.len() ==> !(#[trigger] states[i] is InFlight),
    decreases states.len(),
{
    if states.len() > 0 {
        lemma_count_zero(states.drop_last());
        assert forall|i: int| 0 <= i < states.len() implies !(#[trigger] states[i] is InFlight) by {
            if i < states.len() - 1 {
                assert(states.drop_last()[i] == states[i]);
            }
        }
    }
}

/// Among coordinates that are all pending, no fetch is under way.
pub proof fn lemma_count_pending(states: Seq<FetchState>)
    requires
        forall|i: int| 0 <= i < states.len() ==> #[trigger] states[i] is Pending,
    ensures
        count_in_flight(states) == 0,
    decreases states.len(),
{
    if states.len() > 0 {
        assert(states[states.len() - 1] is Pending);
        assert forall|i: int| 0 <= i < states.drop_last().len() implies #[trigger] states.drop_last()[i]
            is Pending by {
            assert(states.drop_last()[i] == states[i]);
        }
        lemma_count_pending(states.drop_last());
    }
}

/// A fresh schedule is well formed, with nothing under way.
pub proof fn lemma_fresh_is_well_formed(total: nat, limit: nat)
    requires
        limit >= 1,
    ensures
        Schedule::fresh(total, limit).well_formed(),
        Schedule::fresh(total, limit).in_flight() == 0,
{
    lemma_count_pending(Schedule::fresh(total, limit).states);
}

/// Starting a fetch where one can be started keeps the schedule well formed:
/// one more fetch is under way, and still no more than the limit.
pub proof fn lemma_start_keeps_well_formed(s: Schedule)
    requires
        s.well_formed(),
        s.can_start(),
    ensures
        s.started().well_formed(),
        s.started().in_flight() == s.in_flight() + 1,
        s.started().in_flight() <= s.limit,
{
    assert(s.states[s.next as int] is Pending);
    lemma_count_update(s.states, s.next as int, FetchState::InFlight);
}

/// Reporting the end of a fetch that is under way keeps the schedule well
/// formed and makes room for one more.
pub proof fn lemma_resolve_keeps_well_formed(s: Schedule, index: int, succeeded: bool)
    requires
        s.well_formed(),
        s.is_in_flight(index),
    ensures
        s.resolved(index, succeeded).well_formed(),
        s.resolved(index, succeeded).in_flight() + 1 == s.in_flight(),
{
    let state = if succeeded {
        FetchState::Fetched
    } else {
        FetchState::Failed
    };
    lemma_count_update(s.states, index, state);
    assert(index < s.next) by {
        if index >= s.next {
            assert(s.states[index] is Pending);
        }
    }
}

/// Every start and every reported end brings the run one move closer to
/// its end, and the schedule says `Finished` exactly when no move is left:
/// a run of `n` coordinates ends after `n` starts and `n` reports, whatever
/// the order in which the fetches end and however they end.
pub proof fn lemma_run_makes_progress(s: Schedule, index: int, succeeded: bool)
    requires
        s.well_formed(),
    ensures
        s.work_left() <= 2 * s.states.len(),
        s.can_start() ==> s.started().work_left() + 1 == s.work_left(),
        s.is_in_flight(index) ==> s.resolved(index, succeeded).work_left() + 1 == s.work_left(),
        s.step() == Step::Finished <==> s.work_left() == 0,
        s.step() == Step::Wait ==> exists|i: int| s.is_in_flight(i),
{
    lemma_count_at_most_started(s);
    if s.can_start() {
        lemma_start_keeps_well_formed(s);
    }
    if s.is_in_flight(index) {
        lemma_resolve_keeps_well_formed(s, index, succeeded);
    }
    if s.in_flight() > 0 {
        lemma_count_positive(s.states);
        let i = choose|i: int| 0 <= i < s.states.len() && #[trigger] s.states[i] is InFlight;
        assert(s.is_in_flight(i));
    }
}

/// No more fetches are under way than have been started.
pub proof fn lemma_count_at_most_started(s: Schedule)
    requires
        s.well_formed(),
    ensures
        s.in_flight() <= s.next,
{
    lemma_count_split(s.states, s.next as int);
    lemma_count_pending(s.states.skip(s.next as int));
    lemma_count_at_most_len(s.states.take(s.next as int));
}

/// The fetches under way in a run of states are those of its first part
/// and those of the rest.
pub proof fn lemma_count_split(states: Seq<FetchState>, at: int)
    requires
        0 <= at <= states.len(),
    ensures
        count_in_flight(states) == count_in_flight(states.take(at)) + count_in_flight(
            states.skip(at),
        ),
    decreases states.len() - at,
{
    if at == states.len() {
        assert(states.take(at) =~= states);
        assert(states.skip(at) =~= Seq::<FetchState>::empty());
    } else {
        lemma_count_split(states.drop_last(), at);
        assert(states.drop_last().take(at) =~= states.take(at));
        assert(states.drop_last().skip(at) =~= states.skip(at).drop_last());
    }
}

/// No more fetches are under way than there are coordinates.
pub proof fn lemma_count_at_most_len(states: Seq<FetchState>)
    ensures
        count_in_flight(states) <= states.len(),
    decreases states.len(),
{
    if states.len() > 0 {
        lemma_count_at_most_len(states.drop_last());
    }
}

/// Where a fetch is counted as under way, one is.
pub proof fn lemma_count_positive(states: Seq<FetchState>)
    requires
        count_in_flight(states) > 0,
    ensures
        exists|i: int| 0 <= i < states.len() && #[trigger] states[i] is InFlight,
    decreases states.len(),
{
    if states.len() > 0 {
        if states.last() is InFlight {
            assert(states[states.len() - 1] is InFlight);
        } else {
            lemma_count_positive(states.drop_last());
            let i = choose|i: int|
                0 <= i < states.drop_last().len() && #[trigger] states.drop_last()[i] is InFlight;
            assert(states[i] is InFlight);
        }
    }
}

/// The schedule says `Finished` only when every coordinate has been started
/// and its fetch has ended: each has had exactly one attempt.
pub proof fn lemma_finished_means_all_resolved(s: Schedule)
    requires
        s.well_formed(),
        s.step() == Step::Finished,
    ensures
        s.next == s.states.len(),
        s.all_resolved(),
{
    lemma_count_zero(s.states);
    assert forall|i: int| 0 <= i < s.states.len() implies (#[trigger] s.states[i] is Fetched
        || s.states[i] is Failed) by {
        assert(!(s.states[i] is Pending));
        assert(!(s.states[i] is InFlight));
    }
}

/// The indices of the coordinates whose fetch has failed, in rising order.
pub open spec fn failed_indices(states: Seq<FetchState>) -> Seq<usize>
    decreases states.len(),
{
    if states.len() == 0 {
        Seq::<usize>::empty()
    } else if states.last() is Failed {
        failed_indices(states.drop_last()).push((states.len() - 1) as usize)
    } else {
        failed_indices(states.drop_last())
    }
}

/// The list of failed indices names every failed coordinate, names no other,
/// and rises strictly.
pub proof fn lemma_failed_indices(states: Seq<FetchState>)
    requires
        states.len() <= usize::MAX,
    ensures
        forall|k: int|
            0 <= k < failed_indices(states).len() ==> {
                &&& (#[trigger] failed_indices(states)[k]) < states.len()
                &&& states[failed_indices(states)[k] as int] is Failed
            },
        forall|j: int, k: int|
            0 <= j < k < failed_indices(states).len() ==> failed_indices(states)[j]
                < failed_indices(states)[k],
        forall|i: int|
            0 <= i < states.len() && (#[trigger] states[i] is Failed) ==> failed_indices(
                states,
            ).contains(i as usize),
    decreases states.len(),
{
    if states.len() > 0 {
        let init = states.drop_last();
        let last = (states.len() - 1) as usize;
        lemma_failed_indices(init);
        let found = failed_indices(states);
        assert forall|i: int|
            0 <= i < states.len() && (#[trigger] states[i] is Failed) implies found.contains(
            i as usize,
        ) by {
            if i < init.len() {
                assert(init[i] is Failed);
                let k = choose|k: int|
                    0 <= k < failed_indices(init).len() && failed_indices(init)[k] == i as usize;
                assert(found[k] == i as usize);
            } else {
                assert(found[found.len() - 1] == last);
            }
        }
        assert forall|k: int| 0 <= k < found.len() implies {
            &&& (#[trigger] found[k]) < states.len()
            &&& states[found[k] as int] is Failed
        } by {
            if k < failed_indices(init).len() {
                assert(found[k] == failed_indices(init)[k]);
                assert(init[found[k] as int] == states[found[k] as int]);
            }
        }
    }
}

/// A download schedule: the state of each coordinate of a run, and the
/// window that bounds how many fetches are under way at once.
#[derive(Debug)]
pub struct Scheduler {
    limit: usize,
    next: usize,
    in_flight: usize,
    states: Vec<FetchState>,
}

impl View for Scheduler {
    type V = Schedule;

    closed spec fn view(&self) -> Schedule {
        Schedule { limit: self.limit as nat, next: self.next as nat, states: self.states@ }
    }
}

impl Scheduler {
    /// The books are in order: the schedule is well formed and the count of
    /// fetches under way is the true one. Every scheduler that [`Scheduler::new`]
    /// makes is in order, and every operation keeps it so.
    pub closed spec fn inv(&self) -> bool {
        &&& self@.well_formed()
        &&& self.in_flight == self@.in_flight()
    }

    /// A schedule in order is well formed: no more than `limit` fetches are
    /// under way.
    pub proof fn lemma_inv_is_well_formed(&self)
        requires
            self.inv(),
        ensures
            self@.well_formed(),
            self@.in_flight() <= self@.limit,
    {
    }

    /// The schedule of `total` coordinates, none started, with at most
    /// `limit` fetches under way at once. There is none for a limit of zero,
    /// under which no fetch could ever start.
    pub fn new(total: usize, limit: usize) -> (scheduler: Option<Scheduler>)
        ensures
            scheduler is Some <==> limit > 0,
            scheduler matches Some(s) ==> s.inv() && s@ == Schedule::fresh(
                total as nat,
                limit as nat,
            ),
    {
        if limit == 0 {
            return None;
        }
        let mut states: Vec<FetchState> = Vec::new();
        let mut i: usize = 0;
        while i < total
            invariant
                i <= total,
                states@.len() == i,
                forall|k: int| 0 <= k < i ==> states@[k] == FetchState::Pending,
            decreases total - i,
        {
            states.push(FetchState::Pending);
            i += 1;
        }
        proof {
            assert(states@ =~= Schedule::fresh(total as nat, limit as nat).states);
            lemma_fresh_is_well_formed(total as nat, limit as nat);
        }
        Some(Scheduler { limit, next: 0, in_flight: 0, states })
    }

    /// Says what to do next, and takes note of it. While a coordinate is left
    /// to start and fewer than `limit` fetches are under way, the next
    /// coordinate in order is started. Otherwise the driver is told to wait
    /// while any fetch is under way, and that the run has finished when none
    /// is. A failed fetch never ends the run early.
    pub fn next_step(&mut self) -> (step: Step)
        requires
            old(self).inv(),
        ensures
            final(self).inv(),
            step == old(self)@.step(),
            final(self)@ == if old(self)@.can_start() {
                old(self)@.started()
            } else {
                old(self)@
            },
            final(self)@.in_flight() <= final(self)@.limit,
            step == Step::Finished ==> final(self)@.all_resolved(),
    {
        if self.next < self.states.len() && self.in_flight < self.limit {
            let index = self.next;
            proof {
                lemma_start_keeps_well_formed(self@);
            }
            self.states.set(index, FetchState::InFlight);
            self.in_flight = self.in_flight + 1;
            self.next = index + 1;
            Step::Start(index)
        } else if self.in_flight > 0 {
            Step::Wait
        } else {
            proof {
                lemma_finished_means_all_resolved(self@);
            }
            Step::Finished
        }
    }

    /// Takes note that the fetch of `index` has ended, well or badly. The
    /// report is accepted only for a fetch that is under way; any other
    /// leaves the schedule as it was.
    pub fn resolve(&mut self, index: usize, succeeded: bool) -> (accepted: bool)
        requires
            old(self).inv(),
        ensures
            final(self).inv(),
            accepted == old(self)@.is_in_flight(index as int),
            final(self)@ == if accepted {
                old(self)@.resolved(index as int, succeeded)
            } else {
                old(self)@
            },
            accepted ==> final(self)@.in_flight() + 1 == old(self)@.in_flight(),
    {
        if index >= self.states.len() {
            return false;
        }
        match self.states[index] {
            FetchState::InFlight => {
                proof {
                    lemma_resolve_keeps_well_formed(self@, index as int, succeeded);
                }
                let state = if succeeded {
                    FetchState::Fetched
                } else {
                    FetchState::Failed
                };
                self.states.set(index, state);
                self.in_flight = self.in_flight - 1;
                true
            },
            _ => false,
        }
    }

    /// The number of coordinates of the run.
    pub fn total(&self) -> (n: usize)
        ensures
            n == self@.states.len(),
    {
        self.states.len()
    }

    /// The most fetches that may be under way at once.
    pub fn limit(&self) -> (n: usize)
        ensures
            n == self@.limit,
    {
        self.limit
    }

    /// The number of fetches started so far. Coordinates are started in the
    /// order of their index, each once, so this is also the index of the
    /// next to start.
    pub fn attempts(&self) -> (n: usize)
        ensures
            n == self@.next,
    {
        self.next
    }

    /// The number of fetches under way, which never exceeds the limit.
    pub fn in_flight(&self) -> (n: usize)
        requires
            self.inv(),
        ensures
            n == self@.in_flight(),
            n <= self@.limit,
    {
        self.in_flight
    }

    /// The state of the coordinate `index`; none for an index out of range.
    pub fn state(&self, index: usize) -> (state: Option<FetchState>)
        ensures
            state == if index < self@.states.len() {
                Some(self@.states[index as int])
            } else {
                None
            },
    {
        if index < self.states.len() {
            Some(self.states[index])
        } else {
            None
        }
    }

    /// The indices of the coordinates whose fetch has failed, in rising
    /// order.
    pub fn failures(&self) -> (failed: Vec<usize>)
        ensures
            failed@ == failed_indices(self@.states),
    {
        let mut failed: Vec<usize> = Vec::new();
        let mut i: usize = 0;
        assert(self.states@.take(0) =~= Seq::<FetchState>::empty());
        while i < self.states.len()
            invariant
                i <= self.states@.len(),
                failed@ == failed_indices(self.states@.take(i as int)),
            decreases self.states@.len() - i,
        {
            assert(self.states@.take(i + 1).drop_last() =~= self.states@.take(i as int));
            match self.states[i] {
                FetchState::Failed => {
                    failed.push(i);
                },
                _ => {},
            }
            i += 1;
        }
        assert(self.states@.take(i as int) =~= self.states@);
        failed
    }
}

/// The report of a run: what was discovered, what was skipped while the
/// index was read, and which fetches failed.
#[derive(Debug)]
pub struct RunSummary {
    /// The number of published versions discovered, each of which has had
    /// one fetch.
    pub discovered: usize,
    /// The number of record lines skipped because they described no version.
    pub skipped: usize,
    /// The indices of the coordinates whose fetch failed, in rising order.
    pub failed: Vec<usize>,
}

impl RunSummary {
    /// The run went through without a loss: no line was skipped and no fetch
    /// failed.
    pub fn is_clean(&self) -> (clean: bool)
        ensures
            clean == (self.skipped == 0 && self.failed@.len() == 0),
    {
        self.skipped == 0 && self.failed.len() == 0
    }
}

impl Scheduler {
    /// The report of the run as it stands, for a scan that skipped `skipped`
    /// lines.
    pub fn summary(&self, skipped: usize) -> (summary: RunSummary)
        ensures
            summary.discovered == self@.states.len(),
            summary.skipped == skipped,
            summary.failed@ == failed_indices(self@.states),
    {
        RunSummary { discovered: self.total(), skipped, failed: self.failures() }
    }
}

} // verus!
