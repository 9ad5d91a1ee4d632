//! The life of one file task, from opening the inputs to the rename.
//!
//! A task proposes one action at a time and is told how it went. Rows are
//! written to a temporary file only; the destination is touched by a single
//! action, the final rename, which is proposed once every batch of every
//! input has been copied and the temporary file is complete. A task that
//! fails on the way leaves the destination as it was.

use crate::merge::{MergeModel, MergePlan};
use crate::paths::texts;
use vstd::prelude::*;

verus! {

/// Where a task stands.
#[derive(Debug, Clone, Copy, PartialEq, Eq, Structural)]
pub enum Phase {
    /// Nothing is open yet.
    Open,
    /// Batches are copied from the inputs to the temporary file.
    StreamBatches,
    /// All batches are copied; the temporary file is being completed.
    WriteTemp,
    /// The temporary file is complete and awaits its rename.
    Rename,
    /// The output is in place.
    Closed,
    /// The task was given up; the destination was not touched.
    Failed,
}

/// What a task asks to be done next.
#[derive(Debug, Clone, Copy, PartialEq, Eq, Structural)]
pub enum Action {
    /// Open the first input and create the temporary file.
    OpenFiles,
    /// Copy the next batch of this input, reshaped, to the temporary file.
    CopyBatch { input: usize },
    /// Close the writer and flush the temporary file.
    FinishTemp,
    /// Rename the temporary file onto the destination.
    RenameIntoPlace,
    /// Nothing: the task is over.
    Nothing,
}

/// How an action went.
#[derive(Debug, Clone, Copy, PartialEq, Eq, Structural)]
pub enum Event {
    /// The action was carried out.
    Done,
    /// A batch of this many rows was copied.
    Batch { rows: u64 },
    /// The input asked for holds no further batch.
    EndOfInput,
    /// The action failed.
    Failed,
}

/// One file task: a rewrite of one input, or a merge of several.
#[derive(Debug, Clone, Copy, PartialEq, Eq, Structural)]
pub struct FileTask {
    /// The number of inputs, read one after another.
    pub n_inputs: usize,
    pub phase: Phase,
    /// The input that is being read.
    pub current: usize,
    /// The rows copied so far.
    pub rows: u128,
}

/// Whether an action touches the destination path.
pub open spec fn touches_destination(action: Action) -> bool {
    action is RenameIntoPlace
}

/// The task before anything was done.
pub open spec fn fresh(n_inputs: usize) -> FileTask {
    FileTask { n_inputs, phase: Phase::Open, current: 0, rows: 0 }
}

/// The action a task proposes.
pub open spec fn proposed(task: FileTask) -> Action {
    match task.phase {
        Phase::Open => Action::OpenFiles,
        Phase::StreamBatches => Action::CopyBatch { input: task.current },
        Phase::WriteTemp => Action::FinishTemp,
        Phase::Rename => Action::RenameIntoPlace,
        Phase::Closed => Action::Nothing,
        Phase::Failed => Action::Nothing,
    }
}

/// The task with its phase set to failed.
pub open spec fn given_up(task: FileTask) -> FileTask {
    FileTask { phase: Phase::Failed, ..task }
}

/// The task after `event` answered its proposed action.
///
/// An event that does not answer the proposed action, a failure, and a row
/// count past what can be counted all give the task up. A task that is
/// over stays as it is.
pub open spec fn step(task: FileTask, event: Event) -> FileTask {
    match task.phase {
        Phase::Open => match event {
            Event::Done => if task.n_inputs > 0 {
                FileTask { phase: Phase::StreamBatches, ..task }
            } else {
                given_up(task)
            },
            _ => given_up(task),
        },
        Phase::StreamBatches => match event {
            Event::Batch { rows } => if task.rows + rows <= u128::MAX {
                FileTask { rows: (task.rows + rows) as u128, ..task }
            } else {
                given_up(task)
            },
            Event::EndOfInput => if task.current + 1 < task.n_inputs {
                FileTask { current: (task.current + 1) as usize, ..task }
            } else {
                FileTask { phase: Phase::WriteTemp, ..task }
            },
            _ => given_up(task),
        },
        Phase::WriteTemp => match event {
            Event::Done => FileTask { phase: Phase::Rename, ..task },
            _ => given_up(task),
        },
        Phase::Rename => match event {
            Event::Done => FileTask { phase: Phase::Closed, ..task },
            _ => given_up(task),
        },
        Phase::Closed => task,
        Phase::Failed => task,
    }
}

/// The task after every one of `events`, in order.
pub open spec fn run(task: FileTask, events: Seq<Event>) -> FileTask
    decreases events.len(),
{
    if events.len() == 0 {
        task
    } else {
        step(run(task, events.drop_last()), events.last())
    }
}

/// The rows of all batches among `events`.
pub open spec fn rows_copied(events: Seq<Event>) -> nat
    decreases events.len(),
{
    if events.len() == 0 {
        0
    } else {
        rows_copied(events.drop_last()) + match events.last() {
            Event::Batch { rows } => rows as nat,
            _ => 0,
        }
    }
}

/// The number of inputs among `events` that were read to their end.
pub open spec fn inputs_finished(events: Seq<Event>) -> nat
    decreases events.len(),
{
    if events.len() == 0 {
        0
    } else {
        inputs_finished(events.drop_last()) + match events.last() {
            Event::EndOfInput => 1nat,
            _ => 0nat,
        }
    }
}

impl FileTask {
    /// Creates the task for `n_inputs` inputs.
    pub fn new(n_inputs: usize) -> (task: FileTask)
        ensures
            task == fresh(n_inputs),
    {
        FileTask { n_inputs, phase: Phase::Open, current: 0, rows: 0 }
    }

    /// The action to carry out next.
    pub fn next_action(&self) -> (action: Action)
        ensures
            action == proposed(*self),
            touches_destination(action) <==> self.phase == Phase::Rename,
    {
        match self.phase {
            Phase::Open => Action::OpenFiles,
            Phase::StreamBatches => Action::CopyBatch { input: self.current },
            Phase::WriteTemp => Action::FinishTemp,
            Phase::Rename => Action::RenameIntoPlace,
            Phase::Closed => Action::Nothing,
            Phase::Failed => Action::Nothing,
        }
    }

    /// Takes note of how the proposed action went.
    pub fn advance(&mut self, event: Event)
        ensures
            *final(self) == step(*old(self), event),
    {
        let next = match self.phase {
            Phase::Open => match event {
                Event::Done => if self.n_inputs > 0 {
                    Phase::StreamBatches
                } else {
                    Phase::Failed
                },
                _ => Phase::Failed,
            },
            Phase::StreamBatches => match event {
                Event::Batch { rows } => match self.rows.checked_add(rows as u128) {
                    Some(total) => {
                        self.rows = total;
                        Phase::StreamBatches
                    },
                    None => Phase::Failed,
                },
                Event::EndOfInput => if self.current < usize::MAX && self.current + 1
                    < self.n_inputs {
                    self.current = self.current + 1;
                    Phase::StreamBatches
                } else {
                    Phase::WriteTemp
                },
                _ => Phase::Failed,
            },
            Phase::WriteTemp => match event {
                Event::Done => Phase::Rename,
                _ => Phase::Failed,
            },
            Phase::Rename => match event {
                Event::Done => Phase::Closed,
                _ => Phase::Failed,
            },
            Phase::Closed => Phase::Closed,
            Phase::Failed => Phase::Failed,
        };
        self.phase = next;
    }

    /// Whether the output is in place.
    pub fn is_closed(&self) -> (closed: bool)
        ensures
            closed == (self.phase == Phase::Closed),
    {
        match self.phase {
            Phase::Closed => true,
            _ => false,
        }
    }

    /// Whether the task is over, in place or given up.
    pub fn is_over(&self) -> (over: bool)
        ensures
            over == (self.phase == Phase::Closed || self.phase == Phase::Failed),
    {
        match self.phase {
            Phase::Closed => true,
            Phase::Failed => true,
            _ => false,
        }
    }
}

/// What holds of a task however it was run: it reads no input beyond the
/// last, and unless it was given up it has counted the rows of every batch
/// and stands where the inputs read to their end put it.
pub open spec fn on_track(task: FileTask, n_inputs: usize, events: Seq<Event>) -> bool {
    &&& task.n_inputs == n_inputs
    &&& task.phase != Phase::Failed ==> {
        &&& task.rows == rows_copied(events)
        &&& task.phase == Phase::Open ==> events.len() == 0
        &&& task.phase == Phase::StreamBatches ==> task.current == inputs_finished(events)
            && task.current < n_inputs
        &&& (task.phase == Phase::WriteTemp || task.phase == Phase::Rename || task.phase
            == Phase::Closed) ==> inputs_finished(events) == n_inputs
    }
}

/// A step that answers the proposed action keeps the task on track.
pub proof fn lemma_run_stays_on_track(n_inputs: usize, events: Seq<Event>)
    ensures
        run(fresh(n_inputs), events).phase != Phase::Closed ==> on_track(
            run(fresh(n_inputs), events),
            n_inputs,
            events,
        ),
        run(fresh(n_inputs), events).phase == Phase::Closed ==> exists|upto: int|
            0 <= upto <= events.len() && #[trigger] on_track(
                run(fresh(n_inputs), events),
                n_inputs,
                events.take(upto),
            ),
    decreases events.len(),
{
    let task = run(fresh(n_inputs), events);
    if events.len() == 0 {
    } else {
        let earlier = events.drop_last();
        let before = run(fresh(n_inputs), earlier);
        lemma_run_stays_on_track(n_inputs, earlier);
        if before.phase == Phase::Closed {
            let upto = choose|upto: int|
                0 <= upto <= earlier.len() && #[trigger] on_track(
                    before,
                    n_inputs,
                    earlier.take(upto),
                );
            assert(earlier.take(upto) =~= events.take(upto));
            assert(on_track(task, n_inputs, events.take(upto)));
        } else if task.phase == Phase::Closed {
            assert(on_track(before, n_inputs, earlier));
            assert(earlier =~= events.take(earlier.len() as int));
            assert(on_track(task, n_inputs, events.take(earlier.len() as int)));
        } else {
            assert(on_track(before, n_inputs, earlier));
            assert(task == step(before, events.last()));
            assert(rows_copied(events) == rows_copied(earlier) + match events.last() {
                Event::Batch { rows } => rows as nat,
                _ => 0,
            });
            assert(inputs_finished(events) == inputs_finished(earlier) + match events.last() {
                Event::EndOfInput => 1nat,
                _ => 0nat,
            });
            assert(on_track(task, n_inputs, events));
        }
    }
}

/// A task that ends closed has read every input to its end, one after
/// another in the order of the list, and holds the exact sum of the rows
/// of the batches it copied. What it was told after closing counts for
/// nothing.
pub proof fn lemma_closed_task_copied_every_row(n_inputs: usize, events: Seq<Event>)
    requires
        run(fresh(n_inputs), events).phase == Phase::Closed,
    ensures
        exists|upto: int|
            0 <= upto <= events.len() && run(fresh(n_inputs), events).rows == #[trigger] rows_copied(
                events.take(upto),
            ) && inputs_finished(events.take(upto)) == n_inputs,
{
    lemma_run_stays_on_track(n_inputs, events);
    let upto = choose|upto: int|
        0 <= upto <= events.len() && #[trigger] on_track(
            run(fresh(n_inputs), events),
            n_inputs,
            events.take(upto),
        );
    assert(run(fresh(n_inputs), events).rows == rows_copied(events.take(upto)));
}

/// While a task copies batches, the input it reads is the one after all
/// inputs read to their end: rows are written in the order of the inputs.
pub proof fn lemma_inputs_read_in_order(n_inputs: usize, events: Seq<Event>)
    requires
        run(fresh(n_inputs), events).phase == Phase::StreamBatches,
    ensures
        proposed(run(fresh(n_inputs), events)) == (Action::CopyBatch {
            input: inputs_finished(events) as usize,
        }),
        inputs_finished(events) < n_inputs,
{
    lemma_run_stays_on_track(n_inputs, events);
}

/// Whether a merge went through as planned: the output is in place and
/// holds as many rows as the inputs were counted to hold.
pub open spec fn merge_confirmed(plan: MergeModel, task: FileTask) -> bool {
    task.phase == Phase::Closed && task.n_inputs == plan.inputs.len() && task.rows == plan.n_rows
}

/// Checks that a merge went through as planned.
pub fn confirm_merge(plan: &MergePlan, task: &FileTask) -> (confirmed: bool)
    ensures
        confirmed == merge_confirmed(plan@, *task),
{
    task.is_closed() && task.n_inputs == plan.inputs.len() && task.rows == plan.n_rows
}

/// The inputs of a merge that may be deleted: all of them once the merge
/// is confirmed and the caller did not ask to keep them, none otherwise.
pub fn originals_to_delete(plan: &MergePlan, task: &FileTask, keep: bool) -> (paths: Vec<String>)
    ensures
        texts(paths@) == if merge_confirmed(plan@, *task) && !keep {
            plan@.inputs
        } else {
            Seq::<Seq<char>>::empty()
        },
{
    let mut paths: Vec<String> = Vec::new();
    if keep || !confirm_merge(plan, task) {
        assert(texts(paths@) =~= Seq::<Seq<char>>::empty());
        return paths;
    }
    let mut i: usize = 0;
    while i < plan.inputs.len()
        invariant
            0 <= i <= plan.inputs.len(),
            paths.len() == i,
            forall|k: int| 0 <= k < i ==> #[trigger] paths@[k]@ == plan.inputs@[k]@,
        decreases plan.inputs.len() - i,
    {
        paths.push(plan.inputs[i].clone());
        i += 1;
    }
    assert(texts(paths@) =~= plan@.inputs);
    paths
}

} // verus!
