//! The engine as mathematics: a store of tasks with the counters and the
//! record of announced events beside it, the operations as functions from
//! state to state, and the proof that each of them keeps the engine's
//! invariant.

use crate::bus::{Event, EVENT_CAPACITY};
use crate::census::{
    cancelled_in_flight, census_agrees, lemma_statuses_partition, lemma_tally_bounded,
    lemma_tally_empty, lemma_tally_insert, lemma_tally_positive, lemma_time_spent_empty,
    lemma_time_spent_insert, recorded_time, tally, time_spent, with_status,
};
use crate::models::{
    failure_message, validation_error, CounterChange, Counters, TaskStatus, TaskView,
};
use crate::story::{
    events_tell_the_story, lemma_announcement_keeps_story, lemma_silence_tells_the_story,
};
use vstd::prelude::*;
use vstd::set_lib::lemma_len_subset;

verus! {

/// Why a task cannot be cancelled.
#[derive(Debug, Clone, Copy, PartialEq, Eq, Structural)]
pub enum CancelError {
    /// No task has the identifier.
    NotFound,
    /// The task is already Completed, Failed or Cancelled.
    InvalidState,
}

impl CancelError {
    /// The text shown to a client.
    pub open spec fn text(self) -> Seq<char> {
        match self {
            CancelError::NotFound => "Tarefa não encontrada"@,
            CancelError::InvalidState => "Tarefa já foi finalizada"@,
        }
    }

    /// The text shown to a client.
    pub fn message(&self) -> (message: String)
        ensures
            message@ == self.text(),
    {
        match self {
            CancelError::NotFound => "Tarefa não encontrada".to_string(),
            CancelError::InvalidState => "Tarefa já foi finalizada".to_string(),
        }
    }
}

/// The identifier `steps` places after `wanted`, counting round the end of
/// the 128-bit range.
pub open spec fn id_after(wanted: u128, steps: int) -> u128 {
    if wanted + steps <= u128::MAX {
        (wanted + steps) as u128
    } else {
        (wanted + steps - 0x1_0000_0000_0000_0000_0000_0000_0000_0000) as u128
    }
}

/// How many places `id` stands after `wanted`, counting round the end of
/// the 128-bit range.
pub open spec fn steps_from(wanted: u128, id: u128) -> int {
    if id >= wanted {
        id - wanted
    } else {
        id - wanted + 0x1_0000_0000_0000_0000_0000_0000_0000_0000
    }
}

/// What the engine holds: every task under its identifier, the counters,
/// the events it has announced so far, oldest first, and the channel it
/// announces them on, with the number of events that channel was made to
/// keep for an observer that falls behind.
pub struct EngineState {
    pub tasks: Map<u128, TaskView>,
    pub counters: Counters,
    pub announced: Seq<Event>,
    pub channel: nat,
    pub capacity: nat,
}

impl EngineState {
    /// A new engine on the given channel: no task, all counters at zero,
    /// nothing announced.
    pub open spec fn empty(channel: nat) -> EngineState {
        EngineState {
            tasks: Map::empty(),
            counters: Counters::zero(),
            announced: Seq::empty(),
            channel,
            capacity: EVENT_CAPACITY as nat,
        }
    }

    /// The engine's invariant. Every task is stored under its own
    /// identifier, is well formed and has a name and a duration that
    /// creation accepts; the counters agree with a count of the store; the
    /// announced events are in step with the store; and the channel was made
    /// to keep `EVENT_CAPACITY` events.
    pub open spec fn well_formed(self) -> bool {
        &&& self.tasks.dom().finite()
        &&& forall|id: u128| #[trigger]
            self.tasks.contains_key(id) ==> {
                &&& self.tasks[id].id == id
                &&& self.tasks[id].well_formed()
                &&& validation_error(self.tasks[id].name, self.tasks[id].duration_ms) is None
            }
        &&& census_agrees(self.tasks, self.counters)
        &&& events_tell_the_story(self.tasks, self.announced)
        &&& self.capacity == EVENT_CAPACITY
    }

    /// `id` is the first unused identifier from `wanted` on: `wanted`
    /// itself where it is unused, else the nearest one after it.
    pub open spec fn is_next_free(self, wanted: u128, id: u128) -> bool {
        &&& !self.tasks.contains_key(id)
        &&& forall|steps: int|
            0 <= steps < steps_from(wanted, id) ==> self.tasks.contains_key(
                #[trigger] id_after(wanted, steps),
            )
    }

    /// The state after `task` was created: it is stored, counted as one
    /// more task and one more pending, and announced.
    pub open spec fn created(self, task: TaskView) -> EngineState {
        EngineState {
            tasks: self.tasks.insert(task.id, task),
            counters: self.counters.total_incremented().pending_incremented(),
            announced: self.announced.push((task.id, task)),
            ..self
        }
    }

    /// The state after a worker claimed task `id` at time `now`. Only a
    /// Pending task is claimed, and the claim is announced; otherwise
    /// nothing changes.
    pub open spec fn begun(self, id: u128, now: i64) -> EngineState {
        if self.tasks.contains_key(id) && self.tasks[id].status == TaskStatus::Pending {
            EngineState {
                tasks: self.tasks.insert(id, self.tasks[id].begun(now)),
                counters: self.counters.processing_incremented(),
                announced: self.announced.push((id, self.tasks[id].begun(now))),
                ..self
            }
        } else {
            self
        }
    }

    /// The state after the work on task `id` ended at time `now`, with a
    /// failure or without. Only a Processing task is finalised, and its end
    /// is announced: for a task that was cancelled meanwhile, or any other,
    /// nothing changes and nothing is announced.
    pub open spec fn finished(self, id: u128, now: i64, failed: bool) -> EngineState {
        if self.tasks.contains_key(id) && self.tasks[id].status == TaskStatus::Processing {
            if failed {
                EngineState {
                    tasks: self.tasks.insert(id, self.tasks[id].failed(failure_message(), now)),
                    counters: self.counters.failed_incremented(),
                    announced: self.announced.push(
                        (id, self.tasks[id].failed(failure_message(), now)),
                    ),
                    ..self
                }
            } else {
                EngineState {
                    tasks: self.tasks.insert(id, self.tasks[id].completed(now)),
                    counters: self.counters.completed_incremented(
                        self.tasks[id].elapsed_ms(now),
                    ),
                    announced: self.announced.push((id, self.tasks[id].completed(now))),
                    ..self
                }
            }
        } else {
            self
        }
    }

    /// Why task `id` cannot be cancelled, if it cannot.
    pub open spec fn cancel_error(self, id: u128) -> Option<CancelError> {
        if !self.tasks.contains_key(id) {
            Some(CancelError::NotFound)
        } else if self.tasks[id].status.is_terminal() {
            Some(CancelError::InvalidState)
        } else {
            None
        }
    }

    /// The state after task `id` was cancelled at time `now`. A Pending
    /// task leaves the pending count; a Processing task stays in the
    /// processing count; either way the cancellation is announced. Where
    /// the task cannot be cancelled nothing changes and nothing is
    /// announced.
    pub open spec fn cancelled(self, id: u128, now: i64) -> EngineState {
        if self.cancel_error(id) is Some {
            self
        } else if self.tasks[id].status == TaskStatus::Pending {
            EngineState {
                tasks: self.tasks.insert(id, self.tasks[id].cancelled(now)),
                counters: self.counters.cancelled_incremented().pending_decremented(),
                announced: self.announced.push((id, self.tasks[id].cancelled(now))),
                ..self
            }
        } else {
            EngineState {
                tasks: self.tasks.insert(id, self.tasks[id].cancelled(now)),
                counters: self.counters.cancelled_incremented(),
                announced: self.announced.push((id, self.tasks[id].cancelled(now))),
                ..self
            }
        }
    }

    /// What one operation may do: no task leaves the store, each task
    /// changes only as `TaskView::may_become` allows, what was announced
    /// stays announced, and the channel stays the same.
    pub open spec fn may_become(self, next: EngineState) -> bool {
        &&& forall|id: u128| #[trigger]
            self.tasks.contains_key(id) ==> next.tasks.contains_key(id)
                && self.tasks[id].may_become(next.tasks[id])
        &&& self.announced.is_prefix_of(next.announced)
        &&& next.channel == self.channel
        &&& next.capacity == self.capacity
    }
}

/// The tasks cancelled in flight are among the Cancelled ones.
pub proof fn lemma_in_flight_are_cancelled(tasks: Map<u128, TaskView>)
    requires
        tasks.dom().finite(),
    ensures
        tally(tasks, cancelled_in_flight()) <= tally(tasks, with_status(TaskStatus::Cancelled)),
{
    let in_flight = tasks.dom().filter(|id: u128| cancelled_in_flight()(tasks[id]));
    let cancelled = tasks.dom().filter(|id: u128| with_status(TaskStatus::Cancelled)(tasks[id]));
    tasks.dom().lemma_len_filter(|id: u128| with_status(TaskStatus::Cancelled)(tasks[id]));
    assert(in_flight.subset_of(cancelled));
    lemma_len_subset(in_flight, cancelled);
}

/// What writing `task` under `id` does to each of the six counts and to
/// the time spent.
proof fn lemma_counts_after_write(tasks: Map<u128, TaskView>, id: u128, task: TaskView)
    requires
        tasks.dom().finite(),
    ensures
        time_spent(tasks.insert(id, task)) == time_spent(tasks) - (if tasks.contains_key(id) {
            recorded_time(tasks[id]) as int
        } else {
            0int
        }) + recorded_time(task),
        forall|status: TaskStatus| #[trigger]
            tally(tasks.insert(id, task), with_status(status)) == tally(tasks, with_status(status))
                - (if tasks.contains_key(id) && tasks[id].status == status {
                1int
            } else {
                0int
            }) + (if task.status == status {
                1int
            } else {
                0int
            }),
        tally(tasks.insert(id, task), cancelled_in_flight()) == tally(tasks, cancelled_in_flight())
            - (if tasks.contains_key(id) && cancelled_in_flight()(tasks[id]) {
            1int
        } else {
            0int
        }) + (if cancelled_in_flight()(task) {
            1int
        } else {
            0int
        }),
{
    assert forall|status: TaskStatus| #[trigger]
        tally(tasks.insert(id, task), with_status(status)) == tally(tasks, with_status(status))
            - (if tasks.contains_key(id) && tasks[id].status == status {
            1int
        } else {
            0int
        }) + (if task.status == status {
            1int
        } else {
            0int
        }) by {
        lemma_tally_insert(tasks, id, task, with_status(status));
    }
    lemma_tally_insert(tasks, id, task, cancelled_in_flight());
    lemma_time_spent_insert(tasks, id, task);
}

/// In a well-formed state no counter is near its limit: each is at most the
/// number of tasks, and that number fits in 64 bits.
pub proof fn lemma_counters_bounded(state: EngineState)
    requires
        state.well_formed(),
    ensures
        state.counters.pending <= state.tasks.len(),
        state.counters.processing <= state.tasks.len(),
        state.counters.completed <= state.tasks.len(),
        state.counters.failed <= state.tasks.len(),
        state.counters.cancelled <= state.tasks.len(),
        state.tasks.len() <= u64::MAX,
{
    let tasks = state.tasks;
    lemma_tally_bounded(tasks, with_status(TaskStatus::Pending));
    lemma_tally_bounded(tasks, with_status(TaskStatus::Completed));
    lemma_tally_bounded(tasks, with_status(TaskStatus::Failed));
    lemma_tally_bounded(tasks, with_status(TaskStatus::Cancelled));
    lemma_statuses_partition(tasks);
    lemma_in_flight_are_cancelled(tasks);
}

/// A new engine is well formed.
pub proof fn lemma_empty_well_formed(channel: nat)
    ensures
        EngineState::empty(channel).well_formed(),
{
    lemma_silence_tells_the_story();
    lemma_tally_empty(with_status(TaskStatus::Pending));
    lemma_tally_empty(with_status(TaskStatus::Processing));
    lemma_tally_empty(with_status(TaskStatus::Completed));
    lemma_tally_empty(with_status(TaskStatus::Failed));
    lemma_tally_empty(with_status(TaskStatus::Cancelled));
    lemma_tally_empty(cancelled_in_flight());
    lemma_time_spent_empty();
}

/// Creating a valid Pending task under an unused identifier keeps the
/// invariant, and moves the counters by exactly one, with no wrap-around.
pub proof fn lemma_created_well_formed(state: EngineState, task: TaskView)
    requires
        state.well_formed(),
        !state.tasks.contains_key(task.id),
        task.status == TaskStatus::Pending,
        task.well_formed(),
        validation_error(task.name, task.duration_ms) is None,
        state.tasks.len() < u64::MAX,
    ensures
        state.created(task).well_formed(),
        state.may_become(state.created(task)),
        state.created(task).tasks.len() == state.tasks.len() + 1,
        state.counters.changed_by(
            state.created(task).counters,
            CounterChange { total_tasks: 1, pending: 1, ..CounterChange::none() },
        ),
        state.created(task).counters.total_processing_time_ms
            == state.counters.total_processing_time_ms,
{
    lemma_counts_after_write(state.tasks, task.id, task);
    lemma_counters_bounded(state);
    lemma_announcement_keeps_story(state.tasks, state.announced, task.id, task);
}

/// Claiming a task keeps the invariant. Where the task was Pending, one
/// unit moves from the pending to the processing counter.
pub proof fn lemma_begun_well_formed(state: EngineState, id: u128, now: i64)
    requires
        state.well_formed(),
    ensures
        state.begun(id, now).well_formed(),
        state.may_become(state.begun(id, now)),
        state.begun(id, now).tasks.dom() == state.tasks.dom(),
        state.tasks.contains_key(id) && state.tasks[id].status == TaskStatus::Pending
            ==> state.counters.changed_by(
            state.begun(id, now).counters,
            CounterChange { pending: -1, processing: 1, ..CounterChange::none() },
        ),
        !(state.tasks.contains_key(id) && state.tasks[id].status == TaskStatus::Pending)
            ==> state.begun(id, now) == state,
        state.begun(id, now).counters.total_processing_time_ms
            == state.counters.total_processing_time_ms,
{
    if state.tasks.contains_key(id) && state.tasks[id].status == TaskStatus::Pending {
        lemma_counts_after_write(state.tasks, id, state.tasks[id].begun(now));
        lemma_announcement_keeps_story(
            state.tasks,
            state.announced,
            id,
            state.tasks[id].begun(now),
        );
        lemma_counters_bounded(state);
        lemma_tally_positive(state.tasks, id, with_status(TaskStatus::Pending));
        assert(state.begun(id, now).tasks.dom() =~= state.tasks.dom());
        lemma_counters_bounded_after(state, state.begun(id, now).tasks);
    }
}

/// Finalising a task keeps the invariant. Where the task was Processing,
/// one unit moves from the processing counter to the completed or the
/// failed one, and a completion adds its processing time to the sum.
pub proof fn lemma_finished_well_formed(state: EngineState, id: u128, now: i64, failed: bool)
    requires
        state.well_formed(),
    ensures
        state.finished(id, now, failed).well_formed(),
        state.may_become(state.finished(id, now, failed)),
        state.finished(id, now, failed).tasks.dom() == state.tasks.dom(),
        state.tasks.contains_key(id) && state.tasks[id].status == TaskStatus::Processing && failed
            ==> {
            &&& state.counters.changed_by(
                state.finished(id, now, failed).counters,
                CounterChange { processing: -1, failed: 1, ..CounterChange::none() },
            )
            &&& state.finished(id, now, failed).counters.total_processing_time_ms
                == state.counters.total_processing_time_ms
        },
        state.tasks.contains_key(id) && state.tasks[id].status == TaskStatus::Processing && !failed
            ==> {
            &&& state.counters.changed_by(
                state.finished(id, now, failed).counters,
                CounterChange { processing: -1, completed: 1, ..CounterChange::none() },
            )
            &&& state.finished(id, now, failed).counters.total_processing_time_ms
                == state.counters.total_processing_time_ms.wrapping_add(
                state.tasks[id].elapsed_ms(now),
            )
        },
        !(state.tasks.contains_key(id) && state.tasks[id].status == TaskStatus::Processing)
            ==> state.finished(id, now, failed) == state,
{
    if state.tasks.contains_key(id) && state.tasks[id].status == TaskStatus::Processing {
        let task = if failed {
            state.tasks[id].failed(failure_message(), now)
        } else {
            state.tasks[id].completed(now)
        };
        lemma_counts_after_write(state.tasks, id, task);
        lemma_announcement_keeps_story(state.tasks, state.announced, id, task);
        lemma_counters_bounded(state);
        lemma_tally_positive(state.tasks, id, with_status(TaskStatus::Processing));
        assert(state.finished(id, now, failed).tasks.dom() =~= state.tasks.dom());
        lemma_counters_bounded_after(state, state.finished(id, now, failed).tasks);
    }
}

/// Cancelling keeps the invariant. A Pending task moves one unit from the
/// pending to the cancelled counter; a Processing task adds one to the
/// cancelled counter and leaves the processing counter as it is; where the
/// task cannot be cancelled, no counter moves.
pub proof fn lemma_cancelled_well_formed(state: EngineState, id: u128, now: i64)
    requires
        state.well_formed(),
    ensures
        state.cancelled(id, now).well_formed(),
        state.may_become(state.cancelled(id, now)),
        state.cancelled(id, now).tasks.dom() == state.tasks.dom(),
        state.cancel_error(id) is Some ==> state.cancelled(id, now) == state,
        state.cancel_error(id) is None ==> state.cancelled(id, now).tasks[id].status
            == TaskStatus::Cancelled,
        state.tasks.contains_key(id) && state.tasks[id].status == TaskStatus::Pending
            ==> state.counters.changed_by(
            state.cancelled(id, now).counters,
            CounterChange { pending: -1, cancelled: 1, ..CounterChange::none() },
        ),
        state.tasks.contains_key(id) && state.tasks[id].status == TaskStatus::Processing
            ==> state.counters.changed_by(
            state.cancelled(id, now).counters,
            CounterChange { cancelled: 1, ..CounterChange::none() },
        ),
        state.cancelled(id, now).counters.total_processing_time_ms
            == state.counters.total_processing_time_ms,
{
    if state.cancel_error(id) is None {
        lemma_counts_after_write(state.tasks, id, state.tasks[id].cancelled(now));
        lemma_announcement_keeps_story(
            state.tasks,
            state.announced,
            id,
            state.tasks[id].cancelled(now),
        );
        lemma_counters_bounded(state);
        lemma_tally_positive(state.tasks, id, with_status(state.tasks[id].status));
        assert(state.cancelled(id, now).tasks.dom() =~= state.tasks.dom());
        lemma_counters_bounded_after(state, state.cancelled(id, now).tasks);
    }
}

/// A store over the same identifiers as a well-formed state has counts
/// that fit in 64 bits.
proof fn lemma_counters_bounded_after(state: EngineState, tasks: Map<u128, TaskView>)
    requires
        state.well_formed(),
        tasks.dom() == state.tasks.dom(),
    ensures
        tally(tasks, with_status(TaskStatus::Pending)) <= u64::MAX,
        tally(tasks, with_status(TaskStatus::Processing)) + tally(tasks, cancelled_in_flight())
            <= u64::MAX,
        tally(tasks, with_status(TaskStatus::Completed)) <= u64::MAX,
        tally(tasks, with_status(TaskStatus::Failed)) <= u64::MAX,
        tally(tasks, with_status(TaskStatus::Cancelled)) <= u64::MAX,
{
    lemma_tally_bounded(tasks, with_status(TaskStatus::Pending));
    lemma_tally_bounded(tasks, with_status(TaskStatus::Completed));
    lemma_tally_bounded(tasks, with_status(TaskStatus::Failed));
    lemma_tally_bounded(tasks, with_status(TaskStatus::Cancelled));
    lemma_statuses_partition(tasks);
    lemma_in_flight_are_cancelled(tasks);
}

/// The identifiers fewer than `run` places after `wanted`.
pub open spec fn ids_within(wanted: u128, run: int) -> Set<u128> {
    Set::new(|id: u128| steps_from(wanted, id) < run)
}

/// There are exactly `run` identifiers fewer than `run` places after
/// `wanted`.
proof fn lemma_ids_within_len(wanted: u128, run: int)
    requires
        0 <= run <= 0x1_0000_0000_0000_0000_0000_0000_0000_0000,
    ensures
        ids_within(wanted, run).finite(),
        ids_within(wanted, run).len() == run,
    decreases run,
{
    if run == 0 {
        assert(ids_within(wanted, run) =~= Set::<u128>::empty());
    } else {
        lemma_ids_within_len(wanted, run - 1);
        let last = id_after(wanted, run - 1);
        assert(steps_from(wanted, last) == run - 1);
        assert(ids_within(wanted, run) =~= ids_within(wanted, run - 1).insert(last));
    }
}

/// A run of used identifiers is no longer than the store is large: so the
/// search for an unused one ends.
pub proof fn lemma_occupied_run_fits(state: EngineState, wanted: u128, run: int)
    requires
        state.tasks.dom().finite(),
        0 <= run <= 0x1_0000_0000_0000_0000_0000_0000_0000_0000,
        forall|steps: int|
            0 <= steps < run ==> state.tasks.contains_key(#[trigger] id_after(wanted, steps)),
    ensures
        run <= state.tasks.len(),
{
    lemma_ids_within_len(wanted, run);
    assert forall|id: u128| ids_within(wanted, run).contains(id) implies state.tasks.dom().contains(
        id,
    ) by {
        assert(id_after(wanted, steps_from(wanted, id)) == id);
    }
    lemma_len_subset(ids_within(wanted, run), state.tasks.dom());
}

/// Only one identifier is the first unused one from `wanted` on.
pub proof fn lemma_next_free_is_unique(state: EngineState, wanted: u128, first: u128, second: u128)
    requires
        state.is_next_free(wanted, first),
        state.is_next_free(wanted, second),
    ensures
        first == second,
{
    assert(id_after(wanted, steps_from(wanted, first)) == first);
    assert(id_after(wanted, steps_from(wanted, second)) == second);
}

} // verus!
