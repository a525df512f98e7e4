use vstd::prelude::*;
use crate::task::{ExecStatus, SystemError, TaskId, TaskStatus};

verus! {

/// A task waiting to be started.
struct Queued<T> {
    id: TaskId,
    priority: bool,
    task: T,
}

/// The terminal status of a task whose run returned `result`.
pub open spec fn status_of<O, E, T>(id: TaskId, result: Result<ExecStatus<O>, E>) -> TaskStatus<O, E, T> {
    match result {
        Ok(ExecStatus::Done(out)) => TaskStatus::Done(id, out),
        Ok(ExecStatus::Canceled) => TaskStatus::Canceled,
        Err(e) => TaskStatus::Error(e),
    }
}

/// Where a dispatched task stands.
#[derive(Clone, Copy, Debug, PartialEq, Eq, Structural)]
pub enum Phase {
    Queued,
    Running,
    Resolved,
}

/// The executor's task registry: it accepts tasks, hands them out to run (priority
/// tasks first, each class in dispatch order) and gives each exactly one terminal
/// status.
pub struct Executor<T> {
    shut_down: bool,
    next_id: u64,
    queue: Vec<Queued<T>>,
    running: Vec<TaskId>,
    resolved: Ghost<Set<u64>>,
}

impl<T> Executor<T> {
    /// The waiting tasks in dispatch order, each with its priority flag.
    pub closed spec fn queued(&self) -> Seq<(TaskId, bool)> {
        self.queue@.map_values(|q: Queued<T>| (q.id, q.priority))
    }

    /// The tasks handed out to run and not yet resolved.
    pub closed spec fn running(&self) -> Seq<TaskId> {
        self.running@
    }

    /// The ids of the tasks that have their terminal status.
    pub closed spec fn resolved(&self) -> Set<u64> {
        self.resolved@
    }

    /// The number of tasks ever accepted; their ids are `0` up to it.
    pub closed spec fn dispatched(&self) -> nat {
        self.next_id as nat
    }

    pub closed spec fn is_shut_down(&self) -> bool {
        self.shut_down
    }

    /// Whether the id appears among the waiting tasks.
    pub open spec fn is_queued(&self, id: u64) -> bool {
        exists|j: int| 0 <= j < self.queued().len() && #[trigger] self.queued()[j].0.value == id
    }

    /// Whether the id appears among the running tasks.
    pub open spec fn is_running(&self, id: u64) -> bool {
        exists|j: int| 0 <= j < self.running().len() && #[trigger] self.running()[j].value == id
    }

    pub closed spec fn wf(&self) -> bool {
        &&& forall|j: int| 0 <= j < self.queue@.len() ==> (#[trigger] self.queue@[j]).id.value < self.next_id
        &&& forall|j: int| 0 <= j < self.running@.len() ==> (#[trigger] self.running@[j]).value < self.next_id
        &&& forall|i: int, j: int|
            0 <= i < j < self.queue@.len() ==> #[trigger] self.queue@[i].id != #[trigger] self.queue@[j].id
        &&& forall|i: int, j: int|
            0 <= i < j < self.running@.len() ==> #[trigger] self.running@[i] != #[trigger] self.running@[j]
        &&& forall|i: int, j: int|
            0 <= i < self.queue@.len() && 0 <= j < self.running@.len() ==> #[trigger] self.queue@[i].id
                != #[trigger] self.running@[j]
        &&& forall|j: int| 0 <= j < self.queue@.len() ==> !self.resolved@.contains(
            (#[trigger] self.queue@[j]).id.value,
        )
        &&& forall|j: int| 0 <= j < self.running@.len() ==> !self.resolved@.contains(
            (#[trigger] self.running@[j]).value,
        )
        &&& forall|id: u64| #[trigger]
            self.resolved@.contains(id) ==> id < self.next_id
        &&& forall|id: u64|
            id < self.next_id ==> #[trigger] self.resolved@.contains(id) || self.is_queued(id)
                || self.is_running(id)
        &&& self.shut_down ==> self.queue@.len() == 0 && self.running@.len() == 0
    }

    /// Every dispatched task stands in exactly one phase, and an id that was never
    /// handed out stands in none.
    pub proof fn lemma_one_phase(&self, id: u64)
        requires
            self.wf(),
        ensures
            id < self.dispatched() <==> (self.is_queued(id) || self.is_running(id) || self.resolved().contains(id)),
            !(self.is_queued(id) && self.is_running(id)),
            !(self.is_queued(id) && self.resolved().contains(id)),
            !(self.is_running(id) && self.resolved().contains(id)),
    {
        if self.is_queued(id) {
            let j = choose|j: int| 0 <= j < self.queued().len() && #[trigger] self.queued()[j].0.value == id;
            assert(self.queue@[j].id.value == id);
            if self.is_running(id) {
                let k = choose|k: int| 0 <= k < self.running().len() && #[trigger] self.running()[k].value == id;
                assert(self.queue@[j].id == self.running@[k]);
            }
        }
        if self.is_running(id) {
            let k = choose|k: int| 0 <= k < self.running().len() && #[trigger] self.running()[k].value == id;
            assert(self.running@[k].value == id);
        }
    }

    pub fn new() -> (r: Executor<T>)
        ensures
            r.wf(),
            !r.is_shut_down(),
            r.dispatched() == 0,
            r.queued().len() == 0,
            r.running().len() == 0,
            r.resolved() == Set::<u64>::empty(),
    {
        Executor { shut_down: false, next_id: 0, queue: Vec::new(), running: Vec::new(), resolved: Ghost(Set::empty()) }
    }

    /// Accepts a task. Fails, leaving the executor unchanged, once it has shut down
    /// or has handed out every id.
    pub fn dispatch(&mut self, task: T, priority: bool) -> (r: Result<TaskId, SystemError>)
        requires
            old(self).wf(),
        ensures
            final(self).wf(),
            old(self).is_shut_down() || old(self).dispatched() == u64::MAX ==> r == Err::<TaskId, SystemError>(SystemError::DispatchRejected)
                && *final(self) == *old(self),
            !(old(self).is_shut_down() || old(self).dispatched() == u64::MAX) ==> r is Ok
                && r->Ok_0.value == old(self).dispatched()
                && final(self).dispatched() == old(self).dispatched() + 1
                && final(self).queued() == old(self).queued().push((r->Ok_0, priority))
                && final(self).running() == old(self).running()
                && final(self).resolved() == old(self).resolved()
                && !final(self).is_shut_down(),
    {
        if self.shut_down || self.next_id == u64::MAX {
            return Err(SystemError::DispatchRejected);
        }
        let id = TaskId { value: self.next_id };
        let ghost pre = *self;
        self.queue.push(Queued { id, priority, task });
        self.next_id = self.next_id + 1;
        proof {
            assert(self.queued() =~= pre.queued().push((id, priority)));
            assert forall|x: u64| x < self.next_id implies #[trigger] self.resolved@.contains(x)
                || self.is_queued(x) || self.is_running(x) by {
                if x == id.value {
                    assert(self.queued()[self.queue@.len() - 1].0.value == x);
                } else if pre.is_queued(x) {
                    let j = choose|j: int| 0 <= j < pre.queued().len() && #[trigger] pre.queued()[j].0.value == x;
                    assert(self.queued()[j].0.value == x);
                } else if pre.is_running(x) {
                    let j = choose|j: int| 0 <= j < pre.running().len() && #[trigger] pre.running()[j].value == x;
                    assert(self.running()[j].value == x);
                }
            }
        }
        Ok(id)
    }

    /// Hands out the next task to run: the earliest waiting priority task, or else
    /// the earliest waiting task. A task that runs is never preempted.
    pub fn next(&mut self) -> (r: Option<(TaskId, T)>)
        requires
            old(self).wf(),
        ensures
            final(self).wf(),
            old(self).queued().len() == 0 <==> r is None,
            r is None ==> *final(self) == *old(self),
            r is Some ==> exists|i: int|
                {
                    &&& 0 <= i < old(self).queued().len()
                    &&& old(self).queued()[i].0 == r->Some_0.0
                    &&& (old(self).queued()[i].1 || (i == 0 && forall|j: int|
                        0 <= j < old(self).queued().len() ==> !(#[trigger] old(self).queued()[j]).1))
                    &&& forall|j: int| 0 <= j < i ==> !(#[trigger] old(self).queued()[j]).1
                    &&& final(self).queued() == old(self).queued().remove(i)
                },
            r is Some ==> final(self).running() == old(self).running().push(r->Some_0.0),
            final(self).resolved() == old(self).resolved(),
            final(self).dispatched() == old(self).dispatched(),
            final(self).is_shut_down() == old(self).is_shut_down(),
    {
        if self.queue.len() == 0 {
            return None;
        }
        let mut i: usize = 0;
        while i < self.queue.len() && !self.queue[i].priority
            invariant
                i <= self.queue@.len(),
                forall|j: int| 0 <= j < i ==> !(#[trigger] self.queue@[j]).priority,
            decreases self.queue@.len() - i,
        {
            i = i + 1;
        }
        if i == self.queue.len() {
            i = 0;
        }
        let ghost pre = *self;
        let q = self.queue.remove(i);
        self.running.push(q.id);
        proof {
            assert(self.queued() =~= pre.queued().remove(i as int));
            assert(pre.queued()[i as int].0 == q.id);
            assert forall|j: int| 0 <= j < i implies !(#[trigger] pre.queued()[j]).1 by {
                assert(!pre.queue@[j].priority);
            }
            assert forall|a: int, b: int| 0 <= a < b < self.queue@.len() implies #[trigger] self.queue@[a].id
                != #[trigger] self.queue@[b].id by {
                let a2 = if a < i { a } else { a + 1 };
                let b2 = if b < i { b } else { b + 1 };
                assert(self.queue@[a] == pre.queue@[a2]);
                assert(self.queue@[b] == pre.queue@[b2]);
            }
            assert forall|a: int, b: int| 0 <= a < self.queue@.len() && 0 <= b < self.running@.len() implies #[trigger] self.queue@[a].id
                != #[trigger] self.running@[b] by {
                let a2 = if a < i { a } else { a + 1 };
                assert(self.queue@[a] == pre.queue@[a2]);
                if b < pre.running@.len() {
                    assert(self.running@[b] == pre.running@[b]);
                }
            }
            assert forall|a: int, b: int| 0 <= a < b < self.running@.len() implies #[trigger] self.running@[a]
                != #[trigger] self.running@[b] by {
                if b == pre.running@.len() {
                    assert(self.running@[a] == pre.running@[a]);
                }
            }
            assert forall|j: int| 0 <= j < self.queue@.len() implies (#[trigger] self.queue@[j]).id.value < self.next_id
                && !self.resolved@.contains(self.queue@[j].id.value) by {
                let j2 = if j < i { j } else { j + 1 };
                assert(self.queue@[j] == pre.queue@[j2]);
            }
            assert forall|j: int| 0 <= j < self.running@.len() implies (#[trigger] self.running@[j]).value < self.next_id
                && !self.resolved@.contains(self.running@[j].value) by {
                if j < pre.running@.len() {
                    assert(self.running@[j] == pre.running@[j]);
                }
            }
            assert forall|x: u64| x < self.next_id implies #[trigger] self.resolved@.contains(x)
                || self.is_queued(x) || self.is_running(x) by {
                if x == q.id.value {
                    assert(self.running()[self.running@.len() - 1].value == x);
                } else if pre.is_queued(x) {
                    let j = choose|j: int| 0 <= j < pre.queued().len() && #[trigger] pre.queued()[j].0.value == x;
                    if j < i {
                        assert(self.queued()[j].0.value == x);
                    } else {
                        assert(j != i);
                        assert(self.queued()[j - 1].0.value == x);
                    }
                } else if pre.is_running(x) {
                    let j = choose|j: int| 0 <= j < pre.running().len() && #[trigger] pre.running()[j].value == x;
                    assert(self.running()[j].value == x);
                }
            }
        }
        Some((q.id, q.task))
    }

    /// Moves a running task to the resolved ones; `false`, with nothing changed,
    /// when the task is not running.
    fn resolve_running(&mut self, id: TaskId) -> (r: bool)
        requires
            old(self).wf(),
        ensures
            final(self).wf(),
            r == old(self).is_running(id.value),
            !r ==> *final(self) == *old(self),
            r ==> final(self).resolved() == old(self).resolved().insert(id.value),
            r ==> forall|x: u64| #[trigger] final(self).is_running(x) <==> old(self).is_running(x) && x != id.value,
            r ==> exists|i: int| 0 <= i < old(self).running().len() && old(self).running()[i] == id
                && final(self).running() == old(self).running().remove(i),
            final(self).queued() == old(self).queued(),
            final(self).dispatched() == old(self).dispatched(),
            final(self).is_shut_down() == old(self).is_shut_down(),
    {
        let mut i: usize = 0;
        while i < self.running.len() && self.running[i] != id
            invariant
                i <= self.running@.len(),
                forall|j: int| 0 <= j < i ==> (#[trigger] self.running@[j]) != id,
            decreases self.running@.len() - i,
        {
            i = i + 1;
        }
        if i == self.running.len() {
            proof {
                if self.is_running(id.value) {
                    let j = choose|j: int| 0 <= j < self.running().len() && #[trigger] self.running()[j].value == id.value;
                    assert(self.running@[j] == id);
                }
            }
            return false;
        }
        let ghost pre = *self;
        self.running.remove(i);
        self.resolved = Ghost(self.resolved@.insert(id.value));
        proof {
            assert(pre.running()[i as int].value == id.value);
            assert(self.running() =~= pre.running().remove(i as int));
            assert forall|x: u64| #[trigger] self.is_running(x) <==> pre.is_running(x) && x != id.value by {
                if self.is_running(x) {
                    let j = choose|j: int| 0 <= j < self.running().len() && #[trigger] self.running()[j].value == x;
                    let j2 = if j < i { j } else { j + 1 };
                    assert(self.running@[j] == pre.running@[j2]);
                    assert(pre.running()[j2].value == x);
                    assert(j2 != i);
                }
                if pre.is_running(x) && x != id.value {
                    let j = choose|j: int| 0 <= j < pre.running().len() && #[trigger] pre.running()[j].value == x;
                    assert(j != i);
                    let j2 = if j < i { j } else { j - 1 };
                    assert(self.running()[j2].value == x);
                }
            }
            assert forall|a: int, b: int| 0 <= a < b < self.running@.len() implies #[trigger] self.running@[a]
                != #[trigger] self.running@[b] by {
                let a2 = if a < i { a } else { a + 1 };
                let b2 = if b < i { b } else { b + 1 };
                assert(self.running@[a] == pre.running@[a2]);
                assert(self.running@[b] == pre.running@[b2]);
            }
            assert forall|a: int, b: int| 0 <= a < self.queue@.len() && 0 <= b < self.running@.len() implies #[trigger] self.queue@[a].id
                != #[trigger] self.running@[b] by {
                let b2 = if b < i { b } else { b + 1 };
                assert(self.running@[b] == pre.running@[b2]);
            }
            assert forall|j: int| 0 <= j < self.queue@.len() implies !self.resolved@.contains(
                (#[trigger] self.queue@[j]).id.value) by {
                assert(self.queue@[j].id != pre.running@[i as int]);
            }
            assert forall|j: int| 0 <= j < self.running@.len() implies (#[trigger] self.running@[j]).value < self.next_id
                && !self.resolved@.contains(self.running@[j].value) by {
                let j2 = if j < i { j } else { j + 1 };
                assert(self.running@[j] == pre.running@[j2]);
                assert(j2 != i);
            }
            assert forall|x: u64| x < self.next_id implies #[trigger] self.resolved@.contains(x)
                || self.is_queued(x) || self.is_running(x) by {
                if pre.is_queued(x) {
                    let j = choose|j: int| 0 <= j < pre.queued().len() && #[trigger] pre.queued()[j].0.value == x;
                    assert(self.queued()[j].0.value == x);
                }
            }
        }
        true
    }

    /// Records what a running task's run returned and gives its terminal status.
    /// `None`, with nothing changed, for a task that is not running: a task is
    /// never resolved twice.
    pub fn finish<O, E>(&mut self, id: TaskId, result: Result<ExecStatus<O>, E>) -> (r: Option<TaskStatus<O, E, T>>)
        requires
            old(self).wf(),
        ensures
            final(self).wf(),
            r is Some <==> old(self).is_running(id.value),
            r is None ==> *final(self) == *old(self),
            r is Some ==> r->Some_0 == status_of::<O, E, T>(id, result)
                && !old(self).resolved().contains(id.value)
                && final(self).resolved() == old(self).resolved().insert(id.value)
                && !final(self).is_running(id.value),
            final(self).queued() == old(self).queued(),
            final(self).dispatched() == old(self).dispatched(),
    {
        proof { old(self).lemma_one_phase(id.value); }
        if !self.resolve_running(id) {
            return None;
        }
        match result {
            Ok(ExecStatus::Done(out)) => Some(TaskStatus::Done(id, out)),
            Ok(ExecStatus::Canceled) => Some(TaskStatus::Canceled),
            Err(e) => Some(TaskStatus::Error(e)),
        }
    }

    /// Gives up on a running task that does not cooperate: its terminal status is
    /// `ForcedAbortion`. `None`, with nothing changed, for a task that is not running.
    pub fn abort<O, E>(&mut self, id: TaskId) -> (r: Option<TaskStatus<O, E, T>>)
        requires
            old(self).wf(),
        ensures
            final(self).wf(),
            r is Some <==> old(self).is_running(id.value),
            r is None ==> *final(self) == *old(self),
            r is Some ==> r->Some_0 == TaskStatus::<O, E, T>::ForcedAbortion
                && !old(self).resolved().contains(id.value)
                && final(self).resolved() == old(self).resolved().insert(id.value)
                && !final(self).is_running(id.value),
            final(self).queued() == old(self).queued(),
            final(self).dispatched() == old(self).dispatched(),
    {
        proof { old(self).lemma_one_phase(id.value); }
        if !self.resolve_running(id) {
            return None;
        }
        Some(TaskStatus::ForcedAbortion)
    }

    /// Takes the waiting task at `i` out of the queue and counts it as resolved.
    fn resolve_queued_at(&mut self, i: usize) -> (r: (TaskId, T))
        requires
            old(self).wf(),
            i < old(self).queued().len(),
        ensures
            final(self).wf(),
            r.0 == old(self).queued()[i as int].0,
            !old(self).resolved().contains(r.0.value),
            final(self).queued() == old(self).queued().remove(i as int),
            final(self).resolved() == old(self).resolved().insert(r.0.value),
            final(self).running() == old(self).running(),
            final(self).dispatched() == old(self).dispatched(),
            final(self).is_shut_down() == old(self).is_shut_down(),
    {
        let ghost pre = *self;
        let q = self.queue.remove(i);
        self.resolved = Ghost(self.resolved@.insert(q.id.value));
        proof {
            assert(self.queued() =~= pre.queued().remove(i as int));
            assert(pre.queued()[i as int].0 == q.id);
            assert forall|a: int, b: int| 0 <= a < b < self.queue@.len() implies #[trigger] self.queue@[a].id
                != #[trigger] self.queue@[b].id by {
                let a2 = if a < i { a } else { a + 1 };
                let b2 = if b < i { b } else { b + 1 };
                assert(self.queue@[a] == pre.queue@[a2]);
                assert(self.queue@[b] == pre.queue@[b2]);
            }
            assert forall|a: int, b: int| 0 <= a < self.queue@.len() && 0 <= b < self.running@.len() implies #[trigger] self.queue@[a].id
                != #[trigger] self.running@[b] by {
                let a2 = if a < i { a } else { a + 1 };
                assert(self.queue@[a] == pre.queue@[a2]);
            }
            assert forall|j: int| 0 <= j < self.queue@.len() implies (#[trigger] self.queue@[j]).id.value < self.next_id
                && !self.resolved@.contains(self.queue@[j].id.value) by {
                let j2 = if j < i { j } else { j + 1 };
                assert(self.queue@[j] == pre.queue@[j2]);
                assert(pre.queue@[j2].id != q.id);
            }
            assert forall|j: int| 0 <= j < self.running@.len() implies !self.resolved@.contains(
                (#[trigger] self.running@[j]).value) by {
                assert(pre.queue@[i as int].id != self.running@[j]);
            }
            assert forall|x: u64| x < self.next_id implies #[trigger] self.resolved@.contains(x)
                || self.is_queued(x) || self.is_running(x) by {
                if pre.is_queued(x) && x != q.id.value {
                    let j = choose|j: int| 0 <= j < pre.queued().len() && #[trigger] pre.queued()[j].0.value == x;
                    assert(j != i);
                    let j2 = if j < i { j } else { j - 1 };
                    assert(self.queued()[j2].0.value == x);
                } else if pre.is_running(x) {
                    let j = choose|j: int| 0 <= j < pre.running().len() && #[trigger] pre.running()[j].value == x;
                    assert(self.running()[j].value == x);
                }
            }
        }
        (q.id, q.task)
    }

    /// Withdraws a task that has not started: its terminal status is `Canceled`.
    /// `None`, with nothing changed, for a task that is not waiting.
    pub fn cancel<O, E>(&mut self, id: TaskId) -> (r: Option<TaskStatus<O, E, T>>)
        requires
            old(self).wf(),
        ensures
            final(self).wf(),
            r is Some <==> old(self).is_queued(id.value),
            r is None ==> *final(self) == *old(self),
            r is Some ==> r->Some_0 == TaskStatus::<O, E, T>::Canceled
                && !old(self).resolved().contains(id.value)
                && final(self).resolved() == old(self).resolved().insert(id.value)
                && (exists|i: int| 0 <= i < old(self).queued().len() && old(self).queued()[i].0 == id
                    && final(self).queued() == old(self).queued().remove(i)),
            final(self).running() == old(self).running(),
            final(self).dispatched() == old(self).dispatched(),
    {
        let mut i: usize = 0;
        while i < self.queue.len() && self.queue[i].id != id
            invariant
                i <= self.queue@.len(),
                forall|j: int| 0 <= j < i ==> (#[trigger] self.queue@[j]).id != id,
            decreases self.queue@.len() - i,
        {
            i = i + 1;
        }
        if i == self.queue.len() {
            proof {
                if self.is_queued(id.value) {
                    let j = choose|j: int| 0 <= j < self.queued().len() && #[trigger] self.queued()[j].0.value == id.value;
                    assert(self.queue@[j].id == id);
                }
            }
            return None;
        }
        proof {
            assert(self.queued()[i as int].0.value == id.value);
        }
        let _ = self.resolve_queued_at(i);
        Some(TaskStatus::Canceled)
    }

    /// Stops accepting work and resolves every task still pending: each waiting task
    /// comes back unrun as `Shutdown`, in dispatch order, then each running task is
    /// given up as `ForcedAbortion`, in the order it started. Afterwards every
    /// dispatched task is resolved.
    pub fn shutdown<O, E>(&mut self) -> (r: Vec<(TaskId, TaskStatus<O, E, T>)>)
        requires
            old(self).wf(),
        ensures
            final(self).wf(),
            final(self).is_shut_down(),
            final(self).dispatched() == old(self).dispatched(),
            forall|x: u64| x < final(self).dispatched() ==> #[trigger] final(self).resolved().contains(x),
            forall|x: u64| #[trigger] old(self).resolved().contains(x) ==> final(self).resolved().contains(x),
            r@.len() == old(self).queued().len() + old(self).running().len(),
            forall|j: int| 0 <= j < old(self).queued().len() ==> (#[trigger] r@[j]).0 == old(self).queued()[j].0
                && r@[j].1 is Shutdown,
            forall|j: int| 0 <= j < old(self).running().len() ==> #[trigger] r@[old(self).queued().len() + j]
                == (old(self).running()[j], TaskStatus::<O, E, T>::ForcedAbortion),
    {
        let ghost pre = *self;
        let mut out: Vec<(TaskId, TaskStatus<O, E, T>)> = Vec::new();
        while self.queue.len() > 0
            invariant
                self.wf(),
                self.shut_down == pre.shut_down,
                self.next_id == pre.next_id,
                self.running() == pre.running(),
                out@.len() + self.queued().len() == pre.queued().len(),
                self.queued() == pre.queued().skip(out@.len() as int),
                forall|j: int| 0 <= j < out@.len() ==> (#[trigger] out@[j]).0 == pre.queued()[j].0
                    && out@[j].1 is Shutdown,
                forall|x: u64| #[trigger] pre.resolved().contains(x) ==> self.resolved().contains(x),
            decreases self.queue@.len(),
        {
            let ghost k = out@.len() as int;
            let (id, task) = self.resolve_queued_at(0);
            out.push((id, TaskStatus::Shutdown(task)));
            proof {
                assert(self.queued() =~= pre.queued().skip(k + 1));
                assert(pre.queued()[k] == pre.queued().skip(k)[0]);
            }
        }
        let ghost nq = out@.len() as int;
        while self.running.len() > 0
            invariant
                self.wf(),
                self.shut_down == pre.shut_down,
                self.next_id == pre.next_id,
                self.queued().len() == 0,
                nq == pre.queued().len(),
                nq <= out@.len(),
                out@.len() - nq + self.running().len() == pre.running().len(),
                self.running() == pre.running().skip(out@.len() - nq),
                forall|j: int| 0 <= j < nq ==> (#[trigger] out@[j]).0 == pre.queued()[j].0
                    && out@[j].1 is Shutdown,
                forall|j: int| 0 <= j < out@.len() - nq ==> #[trigger] out@[nq + j] == (pre.running()[j], TaskStatus::<O, E, T>::ForcedAbortion),
                forall|x: u64| #[trigger] pre.resolved().contains(x) ==> self.resolved().contains(x),
            decreases self.running@.len(),
        {
            let ghost k = out@.len() - nq;
            let id = self.running[0];
            proof {
                assert(self.running()[0].value == id.value);
            }
            let ghost mid = *self;
            let _ = self.resolve_running(id);
            proof {
                let i = choose|i: int| 0 <= i < mid.running().len() && mid.running()[i] == id
                    && self.running() == mid.running().remove(i);
                assert(i == 0);
            }
            out.push((id, TaskStatus::ForcedAbortion));
            proof {
                assert(self.running() =~= pre.running().skip(k + 1));
                assert(pre.running()[k] == pre.running().skip(k)[0]);
            }
        }
        self.shut_down = true;
        proof {
            assert forall|x: u64| x < self.next_id implies #[trigger] self.resolved@.contains(x) by {
                if self.is_queued(x) {
                    let j = choose|j: int| 0 <= j < self.queued().len() && #[trigger] self.queued()[j].0.value == x;
                }
                if self.is_running(x) {
                    let j = choose|j: int| 0 <= j < self.running().len() && #[trigger] self.running()[j].value == x;
                }
            }
        }
        out
    }

    /// Where the task with this id stands; `None` for an id never handed out.
    pub fn phase(&self, id: TaskId) -> (r: Option<Phase>)
        requires
            self.wf(),
        ensures
            r == Some(Phase::Queued) <==> self.is_queued(id.value),
            r == Some(Phase::Running) <==> self.is_running(id.value),
            r == Some(Phase::Resolved) <==> self.resolved().contains(id.value),
            r is None <==> id.value >= self.dispatched(),
    {
        proof { self.lemma_one_phase(id.value); }
        let mut i: usize = 0;
        while i < self.queue.len()
            invariant
                self.wf(),
                i <= self.queue@.len(),
                forall|j: int| 0 <= j < i ==> (#[trigger] self.queue@[j]).id != id,
            decreases self.queue@.len() - i,
        {
            if self.queue[i].id == id {
                proof {
                    assert(self.queued()[i as int].0.value == id.value);
                    self.lemma_one_phase(id.value);
                }
                return Some(Phase::Queued);
            }
            i = i + 1;
        }
        let mut k: usize = 0;
        while k < self.running.len()
            invariant
                self.wf(),
                k <= self.running@.len(),
                forall|j: int| 0 <= j < k ==> (#[trigger] self.running@[j]) != id,
            decreases self.running@.len() - k,
        {
            if self.running[k] == id {
                proof {
                    assert(self.running()[k as int].value == id.value);
                    self.lemma_one_phase(id.value);
                }
                return Some(Phase::Running);
            }
            k = k + 1;
        }
        proof {
            if self.is_queued(id.value) {
                let j = choose|j: int| 0 <= j < self.queued().len() && #[trigger] self.queued()[j].0.value == id.value;
                assert(self.queue@[j].id == id);
            }
            if self.is_running(id.value) {
                let j = choose|j: int| 0 <= j < self.running().len() && #[trigger] self.running()[j].value == id.value;
                assert(self.running@[j] == id);
            }
        }
        if id.value < self.next_id {
            Some(Phase::Resolved)
        } else {
            None
        }
    }
}

} // verus!
