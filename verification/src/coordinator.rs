//! Running many file tasks under a bound on how many run at once.
//!
//! The coordinator hands out permits: a task is started only with a permit
//! and gives it back when it ends, in success or in failure. It keeps the
//! outcome of every task, and the whole counts as done well only when every
//! task did well.

use crate::error::{fault, ErrorKind, Fault, TblError};
use vstd::prelude::*;

verus! {

/// Where one task of a batch stands.
#[derive(Debug)]
pub enum TaskState {
    /// Waiting for a permit.
    Pending,
    /// Holding a permit.
    Running,
    /// Ended well.
    Succeeded,
    /// Ended with this error.
    Failed(TblError),
}

/// What a [`TaskState`] stands for.
pub ghost enum TaskModel {
    Pending,
    Running,
    Succeeded,
    Failed(Fault),
}

impl View for TaskState {
    type V = TaskModel;

    open spec fn view(&self) -> TaskModel {
        match self {
            TaskState::Pending => TaskModel::Pending,
            TaskState::Running => TaskModel::Running,
            TaskState::Succeeded => TaskModel::Succeeded,
            TaskState::Failed(e) => TaskModel::Failed(e@),
        }
    }
}

impl Clone for TaskState {
    fn clone(&self) -> (copy: TaskState)
        ensures
            copy@ == self@,
    {
        match self {
            TaskState::Pending => TaskState::Pending,
            TaskState::Running => TaskState::Running,
            TaskState::Succeeded => TaskState::Succeeded,
            TaskState::Failed(e) => TaskState::Failed(e.clone()),
        }
    }
}

/// Hands out at most `limit` permits at a time to the tasks of a batch.
#[derive(Debug)]
pub struct Coordinator {
    limit: usize,
    states: Vec<TaskState>,
    running: usize,
    next: usize,
    closed: bool,
}

/// What a [`Coordinator`] stands for.
pub ghost struct CoordinatorModel {
    /// The bound on the number of tasks that run at once.
    pub limit: nat,
    /// The state of every task, in the order of the batch.
    pub states: Seq<TaskModel>,
    /// The number of tasks that hold a permit.
    pub running: nat,
    /// The first task that has not been started.
    pub next: nat,
    /// Whether the coordinator was shut down.
    pub closed: bool,
}

/// What the states of a list of tasks stand for.
pub open spec fn task_models(states: Seq<TaskState>) -> Seq<TaskModel> {
    Seq::new(states.len(), |i: int| states[i]@)
}

/// Whether the books are in order: the bound is positive, the tasks from
/// `next` on are pending and those before it are not, and `running` counts
/// the tasks that hold a permit, never more than the bound.
pub open spec fn well_formed(c: CoordinatorModel) -> bool {
    &&& c.limit >= 1
    &&& c.next <= c.states.len()
    &&& forall|i: int| c.next <= i < c.states.len() ==> (#[trigger] c.states[i]) is Pending
    &&& forall|i: int| 0 <= i < c.next ==> !((#[trigger] c.states[i]) is Pending)
    &&& c.running == count_running(c.states, c.states.len())
    &&& c.running <= c.limit
}

impl View for Coordinator {
    type V = CoordinatorModel;

    closed spec fn view(&self) -> CoordinatorModel {
        CoordinatorModel {
            limit: self.limit as nat,
            states: task_models(self.states@),
            running: self.running as nat,
            next: self.next as nat,
            closed: self.closed,
        }
    }
}

/// The number of tasks among the first `upto` that are running.
pub open spec fn count_running(states: Seq<TaskModel>, upto: nat) -> nat
    decreases upto,
{
    if upto == 0 || upto > states.len() {
        0
    } else {
        count_running(states, (upto - 1) as nat) + if states[upto - 1] is Running {
            1nat
        } else {
            0nat
        }
    }
}

/// The first task among the first `upto` that failed.
pub open spec fn first_failed(states: Seq<TaskModel>, upto: nat) -> Option<int>
    decreases upto,
{
    if upto == 0 || upto > states.len() {
        None
    } else {
        match first_failed(states, (upto - 1) as nat) {
            Some(i) => Some(i),
            None => if states[upto - 1] is Failed {
                Some(upto - 1)
            } else {
                None
            },
        }
    }
}

/// Whether every task ended well.
pub open spec fn all_succeeded(states: Seq<TaskModel>) -> bool {
    forall|i: int| 0 <= i < states.len() ==> (#[trigger] states[i]) is Succeeded
}

/// Whether every task ended, well or not.
pub open spec fn all_ended(states: Seq<TaskModel>) -> bool {
    forall|i: int|
        0 <= i < states.len() ==> (#[trigger] states[i]) is Succeeded || states[i] is Failed
}

/// Changing the state of one task changes the number of running tasks by
/// what that task adds or takes away.
pub proof fn lemma_count_running_update(
    states: Seq<TaskModel>,
    task: int,
    state: TaskModel,
    upto: nat,
)
    requires
        0 <= task < states.len(),
        upto <= states.len(),
    ensures
        count_running(states.update(task, state), upto) == count_running(states, upto) + (if task
            < upto && state is Running {
            1int
        } else {
            0int
        }) - (if task < upto && states[task] is Running {
            1int
        } else {
            0int
        }),
    decreases upto,
{
    if upto > 0 {
        lemma_count_running_update(states, task, state, (upto - 1) as nat);
    }
}

/// Where no task runs, none of the tasks is running.
pub proof fn lemma_none_running(states: Seq<TaskModel>, upto: nat)
    requires
        upto <= states.len(),
        count_running(states, upto) == 0,
    ensures
        forall|i: int| 0 <= i < upto ==> !((#[trigger] states[i]) is Running),
    decreases upto,
{
    if upto > 0 {
        lemma_none_running(states, (upto - 1) as nat);
    }
}

/// A failed task found among the first is still the first one when more
/// tasks are looked at.
pub proof fn lemma_failed_stays(states: Seq<TaskModel>, upto: nat, later: nat)
    requires
        first_failed(states, upto) is Some,
        upto <= later <= states.len(),
    ensures
        first_failed(states, later) == first_failed(states, upto),
    decreases later,
{
    if later > upto {
        lemma_failed_stays(states, upto, (later - 1) as nat);
    }
}

/// The detail of the fault raised for a bound of zero.
pub open spec fn limit_detail() -> Seq<char> {
    "max concurrent must be at least 1"@
}

/// The detail of the fault raised when a permit is asked of a coordinator
/// that was shut down.
pub open spec fn closed_detail() -> Seq<char> {
    "coordinator is closed"@
}

/// The detail of the fault raised when the outcome is asked for while
/// tasks have not ended.
pub open spec fn unfinished_detail() -> Seq<char> {
    "tasks have not ended"@
}

impl Coordinator {
    /// Whether the books are in order.
    pub open spec fn wf(&self) -> bool {
        well_formed(self@)
    }

    /// Creates a coordinator for `n_tasks` tasks of which at most
    /// `max_concurrent` run at once. A bound of zero, under which nothing
    /// could ever start, is an `ArgumentError`.
    pub fn new(max_concurrent: usize, n_tasks: usize) -> (out: Result<Coordinator, TblError>)
        ensures
            match out {
                Ok(c) => max_concurrent >= 1 && c.wf() && c@ == (CoordinatorModel {
                    limit: max_concurrent as nat,
                    states: Seq::new(n_tasks as nat, |i: int| TaskModel::Pending),
                    running: 0,
                    next: 0,
                    closed: false,
                }),
                Err(e) => max_concurrent == 0 && e@ == fault(ErrorKind::Argument, limit_detail()),
            },
    {
        if max_concurrent == 0 {
            return Err(
                TblError::ArgumentError(String::from_str("max concurrent must be at least 1")),
            );
        }
        let mut states: Vec<TaskState> = Vec::new();
        let mut i: usize = 0;
        while i < n_tasks
            invariant
                0 <= i <= n_tasks,
                states.len() == i,
                forall|k: int| 0 <= k < i ==> (#[trigger] states@[k]) is Pending,
                count_running(task_models(states@), i as nat) == 0,
            decreases n_tasks - i,
        {
            let ghost before = task_models(states@);
            states.push(TaskState::Pending);
            proof {
                lemma_count_running_prefix(before, task_models(states@), i as nat);
            }
            i += 1;
        }
        let c = Coordinator { limit: max_concurrent, states, running: 0, next: 0, closed: false };
        assert(c@.states =~= Seq::new(n_tasks as nat, |i: int| TaskModel::Pending));
        Ok(c)
    }

    /// The bound on the number of tasks that run at once.
    pub fn limit(&self) -> (limit: usize)
        ensures
            limit == self@.limit,
    {
        self.limit
    }

    /// The number of tasks in the batch.
    pub fn n_tasks(&self) -> (n: usize)
        ensures
            n == self@.states.len(),
    {
        self.states.len()
    }

    /// The number of tasks that hold a permit.
    pub fn running(&self) -> (running: usize)
        ensures
            running == self@.running,
    {
        self.running
    }

    /// Whether the coordinator was shut down.
    pub fn is_closed(&self) -> (closed: bool)
        ensures
            closed == self@.closed,
    {
        self.closed
    }

    /// The state of one task; `None` for a task that is not of the batch.
    pub fn state_of(&self, task: usize) -> (state: Option<TaskState>)
        ensures
            match state {
                Some(s) => task < self@.states.len() && s@ == self@.states[task as int],
                None => task >= self@.states.len(),
            },
    {
        if task < self.states.len() {
            Some(self.states[task].clone())
        } else {
            None
        }
    }

    /// Asks for a permit to start the next task.
    ///
    /// Gives the task to start when one is pending and fewer than the bound
    /// are running; gives `None` when the caller has to wait for a release
    /// or nothing is left to start. Once the coordinator is shut down,
    /// asking is a `ConcurrencyError`: a failure of the set-up, not of any
    /// one file.
    pub fn acquire(&mut self) -> (out: Result<Option<usize>, TblError>)
        requires
            old(self).wf(),
        ensures
            final(self).wf(),
            match out {
                Err(e) => old(self)@.closed && e@ == fault(ErrorKind::Concurrency, closed_detail())
                    && final(self)@ == old(self)@,
                Ok(Some(task)) => {
                    &&& !old(self)@.closed
                    &&& old(self)@.running < old(self)@.limit
                    &&& task == old(self)@.next < old(self)@.states.len()
                    &&& final(self)@ == (CoordinatorModel {
                        states: old(self)@.states.update(task as int, TaskModel::Running),
                        running: old(self)@.running + 1,
                        next: old(self)@.next + 1,
                        ..old(self)@
                    })
                },
                Ok(None) => {
                    &&& !old(self)@.closed
                    &&& (old(self)@.running == old(self)@.limit || old(self)@.next == old(
                        self,
                    )@.states.len())
                    &&& final(self)@ == old(self)@
                },
            },
    {
        if self.closed {
            return Err(TblError::ConcurrencyError(String::from_str("coordinator is closed")));
        }
        if self.running < self.limit && self.next < self.states.len() {
            let task = self.next;
            proof {
                lemma_count_running_update(
                    self@.states,
                    task as int,
                    TaskModel::Running,
                    self.states.len() as nat,
                );
            }
            let ghost before = self@.states;
            self.states.set(task, TaskState::Running);
            self.running = self.running + 1;
            self.next = self.next + 1;
            assert(self@.states =~= before.update(task as int, TaskModel::Running));
            Ok(Some(task))
        } else {
            Ok(None)
        }
    }

    /// Gives back the permit of `task`, which ended with `outcome`.
    ///
    /// Returns whether the outcome was taken: a task that holds no permit
    /// has nothing to give back, and the coordinator stays as it is.
    pub fn release(&mut self, task: usize, outcome: Result<(), TblError>) -> (taken: bool)
        requires
            old(self).wf(),
        ensures
            final(self).wf(),
            taken == (task < old(self)@.states.len() && old(self)@.states[task as int] is Running),
            taken ==> final(self)@ == (CoordinatorModel {
                states: old(self)@.states.update(
                    task as int,
                    match outcome {
                        Ok(_) => TaskModel::Succeeded,
                        Err(e) => TaskModel::Failed(e@),
                    },
                ),
                running: (old(self)@.running - 1) as nat,
                ..old(self)@
            }),
            !taken ==> final(self)@ == old(self)@,
    {
        if task >= self.states.len() {
            return false;
        }
        let is_running = match &self.states[task] {
            TaskState::Running => true,
            _ => false,
        };
        if !is_running {
            return false;
        }
        let state = match outcome {
            Ok(_) => TaskState::Succeeded,
            Err(e) => TaskState::Failed(e),
        };
        proof {
            lemma_count_running_update(
                self@.states,
                task as int,
                state@,
                self.states.len() as nat,
            );
        }
        let ghost before = self@.states;
        self.states.set(task, state);
        self.running = self.running - 1;
        assert(self@.states =~= before.update(task as int, state@));
        true
    }

    /// Shuts the coordinator down: no further permit is handed out.
    pub fn close(&mut self)
        requires
            old(self).wf(),
        ensures
            final(self).wf(),
            final(self)@ == (CoordinatorModel { closed: true, ..old(self)@ }),
    {
        self.closed = true;
    }

    /// Whether every task was started and has given its permit back.
    pub fn is_finished(&self) -> (finished: bool)
        requires
            self.wf(),
        ensures
            finished == (self@.next == self@.states.len() && self@.running == 0),
            finished ==> all_ended(self@.states),
    {
        let finished = self.next == self.states.len() && self.running == 0;
        proof {
            if finished {
                lemma_none_running(self@.states, self.states.len() as nat);
            }
        }
        finished
    }

    /// The outcome of the whole batch: well done only when every task
    /// ended well.
    ///
    /// When tasks failed, the error of the first of them in the order of
    /// the batch is returned; the work of the tasks that ended well stands.
    /// Asked while tasks have not ended, the answer is a
    /// `ConcurrencyError`.
    pub fn outcome(&self) -> (out: Result<(), TblError>)
        requires
            self.wf(),
        ensures
            match out {
                Ok(_) => all_succeeded(self@.states),
                Err(e) => if all_ended(self@.states) {
                    first_failed(self@.states, self@.states.len()) matches Some(i)
                        && self@.states[i] == TaskModel::Failed(e@)
                } else {
                    e@ == fault(ErrorKind::Concurrency, unfinished_detail())
                },
            },
    {
        if !self.is_finished() {
            proof {
                if all_ended(self@.states) {
                    if self.next < self.states.len() {
                        assert(self@.states[self.next as int] is Pending);
                    } else {
                        lemma_all_ended_none_running(self@.states, self.states.len() as nat);
                    }
                }
            }
            return Err(TblError::ConcurrencyError(String::from_str("tasks have not ended")));
        }
        let mut i: usize = 0;
        while i < self.states.len()
            invariant
                0 <= i <= self.states.len(),
                all_ended(self@.states),
                first_failed(self@.states, i as nat) is None,
                forall|k: int| 0 <= k < i ==> (#[trigger] self@.states[k]) is Succeeded,
            decreases self.states.len() - i,
        {
            assert(self@.states[i as int] == self.states@[i as int]@);
            match &self.states[i] {
                TaskState::Failed(e) => {
                    proof {
                        lemma_failed_stays(
                            self@.states,
                            (i + 1) as nat,
                            self.states.len() as nat,
                        );
                    }
                    return Err(e.clone());
                },
                _ => {},
            }
            i += 1;
        }
        Ok(())
    }

    /// The tasks that failed, in the order of the batch.
    pub fn failures(&self) -> (failed: Vec<usize>)
        ensures
            forall|k: int|
                0 <= k < failed.len() ==> (#[trigger] failed@[k]) < self@.states.len()
                    && self@.states[failed@[k] as int] is Failed,
            forall|i: int|
                0 <= i < self@.states.len() && (#[trigger] self@.states[i]) is Failed
                    ==> failed@.contains(i as usize),
            forall|j: int, k: int| 0 <= j < k < failed.len() ==> failed@[j] < failed@[k],
    {
        let mut failed: Vec<usize> = Vec::new();
        let mut i: usize = 0;
        while i < self.states.len()
            invariant
                0 <= i <= self.states.len(),
                forall|k: int|
                    0 <= k < failed.len() ==> (#[trigger] failed@[k]) < i
                        && self@.states[failed@[k] as int] is Failed,
                forall|m: int|
                    0 <= m < i && (#[trigger] self@.states[m]) is Failed ==> failed@.contains(
                        m as usize,
                    ),
                forall|j: int, k: int| 0 <= j < k < failed.len() ==> failed@[j] < failed@[k],
            decreases self.states.len() - i,
        {
            assert(self@.states[i as int] == self.states@[i as int]@);
            let is_failed = match &self.states[i] {
                TaskState::Failed(_) => true,
                _ => false,
            };
            if is_failed {
                let ghost before = failed@;
                failed.push(i);
                assert(failed@[before.len() as int] == i);
                assert forall|m: int|
                    0 <= m < i + 1 && (#[trigger] self@.states[m]) is Failed implies failed@.contains(
                    m as usize,
                ) by {
                    if m < i {
                        let at = before.index_of(m as usize);
                        assert(before.contains(m as usize));
                        assert(failed@[at] == m as usize);
                    }
                }
            }
            i += 1;
        }
        failed
    }
}

/// The number of running tasks among the first depends on those tasks
/// only.
pub proof fn lemma_count_running_prefix(a: Seq<TaskModel>, b: Seq<TaskModel>, upto: nat)
    requires
        upto <= a.len(),
        upto <= b.len(),
        forall|i: int| 0 <= i < upto ==> a[i] == b[i],
    ensures
        count_running(a, upto) == count_running(b, upto),
    decreases upto,
{
    if upto > 0 {
        lemma_count_running_prefix(a, b, (upto - 1) as nat);
    }
}

/// Where every task ended, none is running.
pub proof fn lemma_all_ended_none_running(states: Seq<TaskModel>, upto: nat)
    requires
        upto <= states.len(),
        all_ended(states),
    ensures
        count_running(states, upto) == 0,
    decreases upto,
{
    if upto > 0 {
        lemma_all_ended_none_running(states, (upto - 1) as nat);
    }
}

} // verus!
