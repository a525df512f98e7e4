use vstd::prelude::*;

verus! {

/// Identity of a dispatched task, unique within the executor that assigned it.
#[derive(Clone, Copy, Debug, PartialEq, Eq, Structural)]
pub struct TaskId {
    pub value: u64,
}

/// What a finished run hands back: a payload, or an explicit empty marker.
pub enum TaskOutput<O> {
    Out(O),
    Empty,
}

/// What a task's run reports when it does not fail.
pub enum ExecStatus<O> {
    Done(TaskOutput<O>),
    Canceled,
}

/// The single terminal status of a dispatched task. `T` is the task itself, handed
/// back unrun when the executor shuts down before starting it.
pub enum TaskStatus<O, E, T> {
    Done(TaskId, TaskOutput<O>),
    Error(E),
    Canceled,
    ForcedAbortion,
    Shutdown(T),
}

/// Faults of the executor itself, kept apart from what tasks report.
#[derive(Clone, Copy, Debug, PartialEq, Eq, Structural)]
pub enum SystemError {
    /// The executor did not accept the task.
    DispatchRejected,
    /// Waiting on the handle failed.
    JoinFailed,
}

/// The typed failure of a search run.
pub enum SearchError {
    /// Every error batch that the producer sent, in arrival order.
    Search(Vec<String>),
    /// A fault of the executor below the run.
    System(SystemError),
}

} // verus!
