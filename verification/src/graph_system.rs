//! A domain-agnostic memoized task-graph executor.
//!
//! A worker is identified by an id and produces a result when run; while
//! running it may request other workers by id through a [`System`] handle.
//! The system caches results by id: a repeated request for a finished id is
//! answered from the cache, free and side-effect-free.  A request for an id
//! still being computed on the same dependency chain is a dependency cycle,
//! a fatal, unsupported condition — no fixed-point iteration is implemented.
//! A call-stack depth bound aborts pathological nesting before the native
//! stack is exhausted, and a step budget aborts runs that never converge.
//!
//! The system runs strictly depth-first and synchronously: a worker that
//! requests another is suspended, the requested worker runs to completion,
//! and the suspended worker resumes with the result.  On a fatal abort the
//! call stack stays inspectable through [`ComputeGraphSys::callstack`].

use vstd::prelude::*;

use crate::assoc::assoc_find;

verus! {

/// Implemented by nodes of the graph system.
///
/// A worker performs its work in resumable steps: each call of [`Worker::work`]
/// either requests another worker's result or completes.  After a request,
/// the next call receives the requested result.
pub trait Worker: Sized {
    /// The unique id of the worker, used by workers to locate other workers.
    type Id: Copy;

    /// The result a worker produces, consumed by other workers.
    type Output;

    /// Decides equality of two worker ids.
    fn id_eq(a: &Self::Id, b: &Self::Id) -> (r: bool)
        ensures
            r == (a == b),
    ;

    /// Copies a result, so the cache can share it with requesters.
    fn output_clone(o: &Self::Output) -> (r: Self::Output)
        ensures
            r == *o,
    ;

    /// Performs one slice of this worker's work.  `resumed` carries the
    /// result of the worker requested by the previous step, if any.
    fn work(&mut self, resumed: Option<&Self::Output>) -> WorkerStep<Self::Id, Self::Output>;
}

/// What one call of [`Worker::work`] decides.
pub enum WorkerStep<I, R> {
    /// Suspend until the worker with this id has a result.
    Request(I),
    /// This worker is done.
    Complete(Computation<R>),
}

/// The outcome of a worker, with the existence of a "bogus" state: a system
/// that enters a cyclic state can make no progress, and a bogus value marks
/// it; re-executing workers to refine bogus values is not supported.
pub enum Computation<R> {
    Bogus,
    Result(R),
}

/// Given an id, produces the worker for it.
pub trait WorkerFactory {
    type Worker: Worker;

    fn make(&mut self, id: <Self::Worker as Worker>::Id) -> Self::Worker;
}

/// The cache state of one worker id.
pub enum WorkStatus<R> {
    Working,
    Completed(R),
}

/// Every way a graph run can abort.  All are fatal; none is retried.
#[derive(Debug, Clone, Copy, PartialEq, Eq, Structural)]
pub enum GraphError {
    /// A worker requested an id still being computed on its own dependency
    /// chain: cyclic workers are not supported.
    CyclicWorkers,
    /// The call-stack depth bound was exceeded.
    DepthExceeded,
    /// The step budget was exhausted.
    StepLimit,
    /// A worker returned a bogus value; refining bogus values is not
    /// supported.
    BogusComputation,
}

/// Why the result table could not be drained.
#[derive(Debug, Clone, Copy, PartialEq, Eq, Structural)]
pub enum ResultsError {
    /// A worker was still marked working: the system was not run to
    /// completion, and draining would silently discard that state.
    WorkInProgress,
}

/// Contract a system provides to workers: given the id of a worker, execute
/// it and produce its result.
pub trait System<W: Worker> {
    fn spawn(&mut self, id: W::Id) -> Result<W::Output, GraphError>;
}

/// A graph system that performs arbitrary computations.
pub struct ComputeGraphSys<W: Worker, F> {
    workers: Vec<(W::Id, WorkStatus<W::Output>)>,
    factory: F,
    callstack: Vec<(W::Id, W)>,
    depth_limit: usize,
    step_limit: u64,
}

pub const DEFAULT_GRAPH_DEPTH_LIMIT: usize = 1000;

pub const DEFAULT_GRAPH_STEP_LIMIT: u64 = 1000000;

/// First status of the table with the given id, if any.
fn status_get<'a, W: Worker>(
    m: &'a Vec<(W::Id, WorkStatus<W::Output>)>,
    id: &W::Id,
) -> (r: Option<&'a WorkStatus<W::Output>>)
    ensures
        match r {
            Some(st) => assoc_find(m@, *id) == Some(*st),
            None => assoc_find(m@, *id) is None,
        },
{
    let n = m.len();
    let mut i: usize = 0;
    proof {
        assert(m@.skip(0) =~= m@);
    }
    while i < n
        invariant
            0 <= i <= n,
            n == m@.len(),
            assoc_find(m@, *id) == assoc_find(m@.skip(i as int), *id),
        decreases n - i,
    {
        proof {
            assert(m@.skip(i as int).drop_first() =~= m@.skip(i + 1));
        }
        if W::id_eq(&m[i].0, id) {
            return Some(&m[i].1);
        }
        i = i + 1;
    }
    None
}

/// Records `st` for `id`, replacing any earlier record.
fn status_set<W: Worker>(
    m: &mut Vec<(W::Id, WorkStatus<W::Output>)>,
    id: W::Id,
    st: WorkStatus<W::Output>,
)
    ensures
        assoc_find(final(m)@, id) == Some(st),
        forall|k: W::Id| k != id ==> assoc_find(final(m)@, k) == assoc_find(old(m)@, k),
{
    let n = m.len();
    let mut i: usize = 0;
    while i < n
        invariant
            0 <= i <= n,
            n == m@.len(),
            *m == *old(m),
            forall|j: int| 0 <= j < i ==> m@[j].0 != id,
        decreases n - i,
    {
        if W::id_eq(&m[i].0, &id) {
            let e = vstd::std_specs::vec::vec_index_mut(m, i);
            e.1 = st;
            proof {
                crate::assoc::lemma_assoc_find_update(
                    old(m)@,
                    i as int,
                    id,
                    final(m)@[i as int].1,
                    id,
                );
                assert forall|k: W::Id| k != id implies assoc_find(final(m)@, k) == assoc_find(
                    old(m)@,
                    k,
                ) by {
                    crate::assoc::lemma_assoc_find_update(
                        old(m)@,
                        i as int,
                        id,
                        final(m)@[i as int].1,
                        k,
                    );
                }
            }
            return ;
        }
        i = i + 1;
    }
    proof {
        crate::assoc::lemma_assoc_absent(m@, id);
    }
    m.push((id, st));
    proof {
        crate::assoc::lemma_assoc_find_push(old(m)@, id, final(m)@[n as int].1, id);
        assert forall|k: W::Id| k != id implies assoc_find(final(m)@, k) == assoc_find(
            old(m)@,
            k,
        ) by {
            crate::assoc::lemma_assoc_find_push(old(m)@, id, final(m)@[n as int].1, k);
        }
    }
}

impl<W, F> ComputeGraphSys<W, F> where W: Worker, F: WorkerFactory<Worker = W> {
    /// The cache contents, as `(id, status)` rows in insertion order.
    pub closed spec fn spec_results(self) -> Seq<(W::Id, WorkStatus<W::Output>)> {
        self.workers@
    }

    /// The cached status of a worker id, if any.
    pub closed spec fn spec_status(self, id: W::Id) -> Option<WorkStatus<W::Output>> {
        assoc_find(self.workers@, id)
    }

    /// The bound on how many workers may be live at once.
    pub closed spec fn spec_depth_limit(self) -> nat {
        self.depth_limit as nat
    }

    /// The call stack of the current or last run, innermost worker last.
    pub closed spec fn spec_callstack(self) -> Seq<(W::Id, W)> {
        self.callstack@
    }

    /// A fresh system around a factory, with the default resource bounds.
    pub fn new(factory: F) -> (r: ComputeGraphSys<W, F>)
        ensures
            forall|id: W::Id| r.spec_status(id) is None,
            r.spec_depth_limit() == DEFAULT_GRAPH_DEPTH_LIMIT,
    {
        ComputeGraphSys {
            workers: Vec::new(),
            factory,
            callstack: Vec::new(),
            depth_limit: DEFAULT_GRAPH_DEPTH_LIMIT,
            step_limit: DEFAULT_GRAPH_STEP_LIMIT,
        }
    }

    /// A fresh system with explicit resource bounds.
    pub fn new_with_limits(factory: F, depth_limit: usize, step_limit: u64) -> (r: ComputeGraphSys<
        W,
        F,
    >)
        ensures
            forall|id: W::Id| r.spec_status(id) is None,
            r.spec_depth_limit() == depth_limit,
    {
        ComputeGraphSys { workers: Vec::new(), factory, callstack: Vec::new(), depth_limit, step_limit }
    }

    /// The call stack of the current or last run, innermost worker last;
    /// after a fatal abort it holds the workers that were live, inspectable
    /// for diagnostics.
    pub fn callstack(&self) -> (r: &Vec<(W::Id, W)>)
        ensures
            r@ == self.spec_callstack(),
    {
        &self.callstack
    }

    /// Converts the id-to-result table into a plain list, consuming the
    /// system; fails loudly if any worker is still marked working.
    pub fn try_into_results(self) -> (r: Result<Vec<(W::Id, W::Output)>, ResultsError>)
        ensures
            r matches Ok(v) ==> v@.len() == self.spec_results().len() && forall|j: int|
                0 <= j < v@.len() ==> ((#[trigger] self.spec_results()[j]).1 matches
                    WorkStatus::Completed(x) && v@[j] == (self.spec_results()[j].0, x)),
            r matches Err(e) ==> e == ResultsError::WorkInProgress && exists|j: int|
                0 <= j < self.spec_results().len() && (#[trigger] self.spec_results()[j]).1 is
                    Working,
            (forall|j: int|
                0 <= j < self.spec_results().len() ==> (#[trigger] self.spec_results()[j]).1 is
                    Completed) ==> r is Ok,
    {
        let mut out: Vec<(W::Id, W::Output)> = Vec::new();
        let mut list = self.workers;
        let ghost orig = list@;
        proof {
            assert(orig == self.spec_results());
            assert(orig.skip(0) =~= orig);
        }
        while list.len() > 0
            invariant
                out@.len() + list@.len() == orig.len(),
                list@ == orig.skip(out@.len() as int),
                orig == self.spec_results(),
                forall|j: int|
                    0 <= j < out@.len() ==> ((#[trigger] orig[j]).1 matches
                        WorkStatus::Completed(x) && out@[j] == (orig[j].0, x)),
            decreases list@.len(),
        {
            let ghost done = out@.len() as int;
            let row = list.remove(0);
            proof {
                assert(row == orig[done]);
                assert(list@ =~= orig.skip(done + 1));
            }
            let e = match row {
                (id, WorkStatus::Completed(x)) => (id, x),
                (_, WorkStatus::Working) => {
                    proof {
                        assert(self.spec_results()[done].1 is Working);
                    }
                    return Err(ResultsError::WorkInProgress);
                },
            };
            out.push(e);
        }
        Ok(out)
    }
}

impl<W, F> System<W> for ComputeGraphSys<W, F> where W: Worker, F: WorkerFactory<Worker = W> {
    /// Executes the worker with the given id and produces its result.
    ///
    /// A finished id is answered from the cache at once, without side
    /// effects; an id still marked working is a dependency cycle and aborts;
    /// a fresh id is computed depth-first, its own requests resolved the
    /// same way, under the depth bound and the step budget.
    fn spawn(&mut self, id: W::Id) -> (r: Result<W::Output, GraphError>)
        ensures
            old(self).spec_status(id) matches Some(WorkStatus::Completed(x)) ==> r
                matches Ok(out) && out == x && *final(self) == *old(self),
            old(self).spec_status(id) matches Some(st) && st is Working ==> r == Err::<
                W::Output,
                GraphError,
            >(GraphError::CyclicWorkers) && *final(self) == *old(self),
            old(self).spec_status(id) is None ==> (r matches Ok(out) ==> final(
                self).spec_status(id) == Some(WorkStatus::Completed(out))),
            old(self).spec_status(id) is None && old(self).spec_depth_limit() < 1 ==> r == Err::<
                W::Output,
                GraphError,
            >(GraphError::DepthExceeded) && *final(self) == *old(self),
    {
        match status_get::<W>(&self.workers, &id) {
            Some(WorkStatus::Completed(x)) => {
                return Ok(W::output_clone(x));
            },
            Some(WorkStatus::Working) => {
                return Err(GraphError::CyclicWorkers);
            },
            None => {},
        }
        if self.depth_limit < 1 {
            return Err(GraphError::DepthExceeded);
        }
        let first_worker = self.factory.make(id);
        status_set::<W>(&mut self.workers, id, WorkStatus::Working);
        self.callstack = Vec::new();
        self.callstack.push((id, first_worker));
        let mut resumed: Option<W::Output> = None;
        let mut fuel: u64 = self.step_limit;
        while self.callstack.len() > 0
            invariant
                self.callstack@.len() >= 1,
                self.callstack@[0].0 == id,
                old(self).spec_status(id) is None,
                self.spec_depth_limit() == old(self).spec_depth_limit(),
                self.spec_depth_limit() >= 1,
            decreases fuel,
        {
            if fuel == 0 {
                return Err(GraphError::StepLimit);
            }
            fuel = fuel - 1;
            let top = self.callstack.len() - 1;
            let resumed_ref = match &resumed {
                Some(x) => Some(x),
                None => None,
            };
            let worker = vstd::std_specs::vec::vec_index_mut(&mut self.callstack, top);
            let step = worker.1.work(resumed_ref);
            resumed = None;
            match step {
                WorkerStep::Request(rid) => {
                    match status_get::<W>(&self.workers, &rid) {
                        Some(WorkStatus::Completed(x)) => {
                            resumed = Some(W::output_clone(x));
                        },
                        Some(WorkStatus::Working) => {
                            return Err(GraphError::CyclicWorkers);
                        },
                        None => {
                            if self.callstack.len() >= self.depth_limit {
                                return Err(GraphError::DepthExceeded);
                            }
                            let new_worker = self.factory.make(rid);
                            status_set::<W>(&mut self.workers, rid, WorkStatus::Working);
                            self.callstack.push((rid, new_worker));
                        },
                    }
                },
                WorkerStep::Complete(Computation::Result(result)) => {
                    let finished = match self.callstack.pop() {
                        Some(f) => f,
                        None => vstd::pervasive::unreached(),
                    };
                    if self.callstack.len() == 0 {
                        let out = W::output_clone(&result);
                        status_set::<W>(&mut self.workers, finished.0, WorkStatus::Completed(result));
                        proof {
                            assert(finished.0 == id);
                        }
                        return Ok(out);
                    }
                    resumed = Some(W::output_clone(&result));
                    status_set::<W>(&mut self.workers, finished.0, WorkStatus::Completed(result));
                },
                WorkerStep::Complete(Computation::Bogus) => {
                    return Err(GraphError::BogusComputation);
                },
            }
        }
        vstd::pervasive::unreached()
    }
}

} // verus!
