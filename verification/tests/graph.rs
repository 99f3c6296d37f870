//! Tests of the generic memoized task-graph executor.

use jssat::graph_system::{
    ComputeGraphSys, Computation, GraphError, ResultsError, System, WorkStatus, Worker,
    WorkerFactory, WorkerStep,
};

/// A worker chain: worker 0 completes with 1; worker `n` requests `n - 1`
/// and completes with its result plus one.
struct ChainWorker {
    id: usize,
}

impl Worker for ChainWorker {
    type Id = usize;
    type Output = u64;

    fn id_eq(a: &usize, b: &usize) -> bool {
        a == b
    }

    fn output_clone(o: &u64) -> u64 {
        *o
    }

    fn work(&mut self, resumed: Option<&u64>) -> WorkerStep<usize, u64> {
        if self.id == 0 {
            return WorkerStep::Complete(Computation::Result(1));
        }
        match resumed {
            None => WorkerStep::Request(self.id - 1),
            Some(v) => WorkerStep::Complete(Computation::Result(v + 1)),
        }
    }
}

struct ChainFactory;

impl WorkerFactory for ChainFactory {
    type Worker = ChainWorker;

    fn make(&mut self, id: usize) -> ChainWorker {
        ChainWorker { id }
    }
}

#[test]
fn resolves_a_dependency_chain() {
    let mut sys = ComputeGraphSys::new(ChainFactory);
    assert_eq!(sys.spawn(3), Ok(4));
}

#[test]
fn repeated_requests_are_answered_from_the_cache() {
    let mut sys = ComputeGraphSys::new(ChainFactory);
    assert_eq!(sys.spawn(3), Ok(4));
    // every id along the chain is now cached
    assert_eq!(sys.spawn(3), Ok(4));
    assert_eq!(sys.spawn(1), Ok(2));
    assert_eq!(sys.spawn(0), Ok(1));
}

#[test]
fn drains_results_after_completion() {
    let mut sys = ComputeGraphSys::new(ChainFactory);
    assert_eq!(sys.spawn(2), Ok(3));
    let results = sys.try_into_results().unwrap();
    assert_eq!(results.len(), 3);
    for (id, value) in results {
        assert_eq!(value, id as u64 + 1);
    }
}

#[test]
fn depth_guard_aborts_deep_worker_chains() {
    let mut sys = ComputeGraphSys::new_with_limits(ChainFactory, 3, 1_000);
    assert_eq!(sys.spawn(10), Err(GraphError::DepthExceeded));
    // the call stack that was live at the abort is inspectable
    assert_eq!(sys.callstack().len(), 3);
    // draining fails loudly: workers are still marked working
    assert_eq!(sys.try_into_results(), Err(ResultsError::WorkInProgress));
}

/// A worker that requests itself: a dependency cycle.
struct SelfishWorker {
    id: usize,
}

impl Worker for SelfishWorker {
    type Id = usize;
    type Output = u64;

    fn id_eq(a: &usize, b: &usize) -> bool {
        a == b
    }

    fn output_clone(o: &u64) -> u64 {
        *o
    }

    fn work(&mut self, _resumed: Option<&u64>) -> WorkerStep<usize, u64> {
        WorkerStep::Request(self.id)
    }
}

struct SelfishFactory;

impl WorkerFactory for SelfishFactory {
    type Worker = SelfishWorker;

    fn make(&mut self, id: usize) -> SelfishWorker {
        SelfishWorker { id }
    }
}

#[test]
fn cyclic_workers_are_fatal() {
    let mut sys = ComputeGraphSys::new(SelfishFactory);
    assert_eq!(sys.spawn(7), Err(GraphError::CyclicWorkers));
}

/// A worker that gives up with a bogus value.
struct BogusWorker;

impl Worker for BogusWorker {
    type Id = usize;
    type Output = u64;

    fn id_eq(a: &usize, b: &usize) -> bool {
        a == b
    }

    fn output_clone(o: &u64) -> u64 {
        *o
    }

    fn work(&mut self, _resumed: Option<&u64>) -> WorkerStep<usize, u64> {
        WorkerStep::Complete(Computation::Bogus)
    }
}

struct BogusFactory;

impl WorkerFactory for BogusFactory {
    type Worker = BogusWorker;

    fn make(&mut self, _id: usize) -> BogusWorker {
        BogusWorker
    }
}

#[test]
fn bogus_computations_are_fatal() {
    let mut sys = ComputeGraphSys::new(BogusFactory);
    assert_eq!(sys.spawn(0), Err(GraphError::BogusComputation));
}

#[test]
fn statuses_are_visible_in_drained_results() {
    let mut sys = ComputeGraphSys::new(ChainFactory);
    assert_eq!(sys.spawn(0), Ok(1));
    let results = sys.try_into_results().unwrap();
    assert_eq!(results, vec![(0, 1)]);
    // the status type itself distinguishes working from completed
    let st: WorkStatus<u64> = WorkStatus::Completed(1);
    assert!(matches!(st, WorkStatus::Completed(1)));
}
