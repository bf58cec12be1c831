//! Folding of background work: of the futures handed in while one runs, only
//! the one of the newest revision is kept, and a single worker runs them one
//! after the other.
//!
//! The futures themselves stay with the caller; this module decides, for each
//! request and each step of the worker, what is done with them.
use vstd::prelude::*;

verus! {

/// What `FutureFolder::spawn` asks its caller to do with the requested future.
#[derive(Debug, Clone, Copy, PartialEq, Eq, Structural)]
pub enum SpawnAction {
    /// A future of an older revision is pending: make the new future and put
    /// it in place of the pending one.
    Replace,
    /// The pending future is of the same or a newer revision: the new future
    /// is not made.
    Discard,
    /// Nothing is pending and a worker runs: make the future and leave it
    /// pending for that worker.
    Store,
    /// Nothing is pending and no worker runs: make the future, leave it
    /// pending, and start a worker.
    StoreAndStart,
}

/// The folding state: whether a worker runs, and the revision of the pending
/// future, if any.
pub struct FoldingView {
    pub running: bool,
    pub pending: Option<usize>,
}

/// Every pending future has a worker that will run it.
pub open spec fn folding_wf(s: FoldingView) -> bool {
    s.pending is Some ==> s.running
}

/// The state and the action after a request to run a future of `revision`.
pub open spec fn spawn_step(s: FoldingView, revision: usize) -> (FoldingView, SpawnAction) {
    match s.pending {
        Some(prev) => if prev < revision {
            (FoldingView { running: s.running, pending: Some(revision) }, SpawnAction::Replace)
        } else {
            (s, SpawnAction::Discard)
        },
        None => if s.running {
            (FoldingView { running: true, pending: Some(revision) }, SpawnAction::Store)
        } else {
            (FoldingView { running: true, pending: Some(revision) }, SpawnAction::StoreAndStart)
        },
    }
}

/// The state after a step of the worker, and the revision of the future it
/// takes to run; with none pending the worker stops.
pub open spec fn next_step(s: FoldingView) -> (FoldingView, Option<usize>) {
    match s.pending {
        Some(r) => (FoldingView { running: s.running, pending: None }, Some(r)),
        None => (FoldingView { running: false, pending: None }, None),
    }
}

struct FoldingState {
    running: bool,
    task: Option<usize>,
}

impl FoldingState {
    #[verifier::type_invariant]
    spec fn inv(self) -> bool {
        self.task is Some ==> self.running
    }
}

/// Runs futures in the background, folding the requests that come while one
/// runs into the newest.
pub struct FutureFolder {
    state: FoldingState,
}

impl View for FutureFolder {
    type V = FoldingView;

    closed spec fn view(&self) -> FoldingView {
        FoldingView { running: self.state.running, pending: self.state.task }
    }
}

impl Default for FutureFolder {
    fn default() -> (f: Self)
        ensures
            f@ == (FoldingView { running: false, pending: None }),
    {
        FutureFolder { state: FoldingState { running: false, task: None } }
    }
}

impl FutureFolder {
    /// Whether a worker runs.
    pub fn is_running(&self) -> (b: bool)
        ensures
            b == self@.running,
    {
        self.state.running
    }

    /// The revision of the pending future, if any.
    pub fn pending_revision(&self) -> (r: Option<usize>)
        ensures
            r == self@.pending,
    {
        self.state.task
    }

    /// Requests that a future of `revision` be run, and says what to do with
    /// it: a pending future is replaced only by a newer revision, and a worker
    /// is started only when none runs.
    pub fn spawn(&mut self, revision: usize) -> (a: SpawnAction)
        ensures
            (final(self)@, a) == spawn_step(old(self)@, revision),
            folding_wf(final(self)@),
    {
        proof {
            use_type_invariant(&self.state);
        }
        match self.state.task {
            Some(prev) => {
                if prev < revision {
                    self.state = FoldingState { running: self.state.running, task: Some(revision) };
                    SpawnAction::Replace
                } else {
                    SpawnAction::Discard
                }
            },
            None => {
                let was_running = self.state.running;
                self.state = FoldingState { running: true, task: Some(revision) };
                if was_running {
                    SpawnAction::Store
                } else {
                    SpawnAction::StoreAndStart
                }
            },
        }
    }

    /// A step of the worker: takes the pending future to run, or, with none
    /// pending, stops the worker.
    pub fn next_task(&mut self) -> (t: Option<usize>)
        ensures
            (final(self)@, t) == next_step(old(self)@),
            folding_wf(final(self)@),
    {
        proof {
            use_type_invariant(&self.state);
        }
        match self.state.task {
            Some(r) => {
                self.state = FoldingState { running: self.state.running, task: None };
                Some(r)
            },
            None => {
                self.state = FoldingState { running: false, task: None };
                None
            },
        }
    }
}

/// Every state that a folder reaches keeps a worker for its pending future:
/// both steps keep `folding_wf`.
pub proof fn lemma_steps_keep_worker(s: FoldingView, revision: usize)
    requires
        folding_wf(s),
    ensures
        folding_wf(spawn_step(s, revision).0),
        folding_wf(next_step(s).0),
{
}

/// A request never starts a second worker: a worker is started exactly when
/// none runs, and then one runs.
pub proof fn lemma_single_worker(s: FoldingView, revision: usize)
    requires
        folding_wf(s),
    ensures
        (spawn_step(s, revision).1 == SpawnAction::StoreAndStart) <==> !s.running,
        spawn_step(s, revision).0.running,
{
}

/// After a request, the pending future is that of the newest revision asked
/// for: the greater of the one pending and the new one.
pub proof fn lemma_newest_kept(s: FoldingView, revision: usize)
    ensures
        spawn_step(s, revision).0.pending == Some(
            match s.pending {
                Some(p) => if p < revision {
                    revision
                } else {
                    p
                },
                None => revision,
            },
        ),
        (spawn_step(s, revision).1 == SpawnAction::Discard) <==> (s.pending matches Some(p)
            && revision <= p),
{
}

/// Requests fold regardless of their order: two requests in either order
/// leave the same state behind.
pub proof fn lemma_requests_commute(s: FoldingView, r1: usize, r2: usize)
    ensures
        spawn_step(spawn_step(s, r1).0, r2).0 == spawn_step(spawn_step(s, r2).0, r1).0,
{
}

/// A request repeated is discarded and changes nothing.
pub proof fn lemma_request_repeated(s: FoldingView, revision: usize)
    ensures
        spawn_step(spawn_step(s, revision).0, revision).0 == spawn_step(s, revision).0,
        spawn_step(spawn_step(s, revision).0, revision).1 == SpawnAction::Discard,
{
}

/// The worker runs what is pending and then stops: after taking the pending
/// future, its next step finds nothing and leaves no worker running.
pub proof fn lemma_worker_drains(s: FoldingView)
    ensures
        next_step(s).1 == s.pending,
        next_step(next_step(s).0).1 is None,
        !next_step(next_step(s).0).0.running,
        next_step(next_step(s).0).0.pending is None,
{
}

/// Something that happens to a folder: a request to run a future of a
/// revision, or a step of a running worker.
pub enum FoldEvent {
    Request(usize),
    WorkerStep,
}

/// A folder's state together with the number of workers that run for it.
pub struct FoldRun {
    pub state: FoldingView,
    pub workers: nat,
}

/// What an event does to a folder and its workers: a request that starts a
/// worker adds one, a worker step that finds nothing pending ends that
/// worker, and a worker step with no worker running does nothing.
pub open spec fn apply_event(r: FoldRun, e: FoldEvent) -> FoldRun {
    match e {
        FoldEvent::Request(revision) => {
            let (s, a) = spawn_step(r.state, revision);
            FoldRun {
                state: s,
                workers: if a == SpawnAction::StoreAndStart {
                    r.workers + 1
                } else {
                    r.workers
                },
            }
        },
        FoldEvent::WorkerStep => if r.workers == 0 {
            r
        } else {
            let (s, t) = next_step(r.state);
            FoldRun {
                state: s,
                workers: if t is None {
                    (r.workers - 1) as nat
                } else {
                    r.workers
                },
            }
        },
    }
}

/// A new folder: no worker, nothing pending.
pub open spec fn fresh_run() -> FoldRun {
    FoldRun { state: FoldingView { running: false, pending: None }, workers: 0 }
}

/// A new folder after the events `es`, in order.
pub open spec fn run_events(es: Seq<FoldEvent>) -> FoldRun
    decreases es.len(),
{
    if es.len() == 0 {
        fresh_run()
    } else {
        apply_event(run_events(es.drop_last()), es.last())
    }
}

/// Over any sequence of requests and worker steps, at most one worker runs
/// at every moment: one exactly when the folder marks a worker as running,
/// none otherwise; and every pending future has that worker to run it.
pub proof fn lemma_at_most_one_worker(es: Seq<FoldEvent>)
    ensures
        run_events(es).workers == (if run_events(es).state.running {
            1nat
        } else {
            0nat
        }),
        run_events(es).workers <= 1,
        folding_wf(run_events(es).state),
    decreases es.len(),
{
    if es.len() > 0 {
        lemma_at_most_one_worker(es.drop_last());
    }
}

/// A worker step hands out each pending future once: after a step takes it,
/// nothing is pending until a new request comes.
pub proof fn lemma_taken_once(r: FoldRun)
    requires
        r.workers > 0,
        r.state.pending is Some,
    ensures
        apply_event(r, FoldEvent::WorkerStep).state.pending is None,
        next_step(r.state).1 == r.state.pending,
{
}

} // verus!
