//! What holds of an engine over its whole life. A life is a sequence of
//! operations applied to a new engine; the laws below are proved for every
//! such sequence, and some of them for every well-formed engine.

use crate::census::{
    cancelled_in_flight, lemma_statuses_partition, tally, time_spent, with_status,
};
use crate::models::{validation_error, TaskPriority, TaskStatus, TaskView};
use crate::state::{
    id_after, lemma_begun_well_formed, lemma_cancelled_well_formed, lemma_created_well_formed,
    lemma_empty_well_formed, lemma_finished_well_formed, lemma_next_free_is_unique,
    lemma_occupied_run_fits, EngineState,
};
use crate::story::{events_tell_the_story, is_first_of_task, is_last_of_task};
use vstd::prelude::*;

verus! {

/// One call of an operation that may change the engine, with the values it
/// was given or obtained.
pub enum Operation {
    /// `create_task_at`
    Create { wanted: u128, now: i64, name: Seq<char>, duration_ms: u64, priority: TaskPriority },
    /// `begin_processing_at`
    Begin { id: u128, now: i64 },
    /// `finish_processing_at`
    Finish { id: u128, now: i64, failed: bool },
    /// `cancel_task_at`
    Cancel { id: u128, now: i64 },
}

impl Operation {
    /// The operation is a creation that is accepted.
    pub open spec fn creates(self) -> bool {
        self matches Operation::Create { name, duration_ms, .. } && validation_error(
            name,
            duration_ms,
        ) is None
    }

    /// The processing time that the operation records, where it completes a
    /// task of `state`.
    pub open spec fn completes(self, state: EngineState) -> Option<u64> {
        match self {
            Operation::Finish { id, now, failed } => if !failed && state.tasks.contains_key(id)
                && state.tasks[id].status == TaskStatus::Processing {
                Some(state.tasks[id].elapsed_ms(now))
            } else {
                None
            },
            _ => None,
        }
    }
}

impl EngineState {
    /// The first unused identifier from `wanted` on.
    pub open spec fn next_free_id(self, wanted: u128) -> u128 {
        choose|id: u128| self.is_next_free(wanted, id)
    }

    /// The state after one operation.
    pub open spec fn after(self, operation: Operation) -> EngineState {
        match operation {
            Operation::Create { wanted, now, name, duration_ms, priority } => if validation_error(
                name,
                duration_ms,
            ) is Some {
                self
            } else {
                self.created(
                    TaskView::pending(self.next_free_id(wanted), now, name, duration_ms, priority),
                )
            },
            Operation::Begin { id, now } => self.begun(id, now),
            Operation::Finish { id, now, failed } => self.finished(id, now, failed),
            Operation::Cancel { id, now } => self.cancelled(id, now),
        }
    }
}

/// The state that a sequence of operations leaves, starting from a new
/// engine on the given channel.
pub open spec fn run(channel: nat, operations: Seq<Operation>) -> EngineState
    decreases operations.len(),
{
    if operations.len() == 0 {
        EngineState::empty(channel)
    } else {
        run(channel, operations.drop_last()).after(operations.last())
    }
}

/// How many of the operations are accepted creations.
pub open spec fn creations(operations: Seq<Operation>) -> nat
    decreases operations.len(),
{
    if operations.len() == 0 {
        0
    } else {
        creations(operations.drop_last()) + if operations.last().creates() {
            1nat
        } else {
            0nat
        }
    }
}

/// The processing times of the tasks that the operations completed, in the
/// order of completion.
pub open spec fn completion_times(channel: nat, operations: Seq<Operation>) -> Seq<u64>
    decreases operations.len(),
{
    if operations.len() == 0 {
        Seq::empty()
    } else {
        let earlier = completion_times(channel, operations.drop_last());
        match operations.last().completes(run(channel, operations.drop_last())) {
            Some(time) => earlier.push(time),
            None => earlier,
        }
    }
}

/// The sum of the given times.
pub open spec fn sum_of(times: Seq<u64>) -> nat
    decreases times.len(),
{
    if times.len() == 0 {
        0
    } else {
        sum_of(times.drop_last()) + times.last() as nat
    }
}

/// The search for an unused identifier from the `steps`-th place on
/// succeeds, where all places before it are taken.
proof fn lemma_next_free_from(state: EngineState, wanted: u128, steps: int)
    requires
        state.tasks.dom().finite(),
        state.tasks.len() <= u64::MAX,
        0 <= steps <= state.tasks.len(),
        forall|earlier: int|
            0 <= earlier < steps ==> state.tasks.contains_key(
                #[trigger] id_after(wanted, earlier),
            ),
    ensures
        exists|id: u128| state.is_next_free(wanted, id),
    decreases state.tasks.len() - steps,
{
    let candidate = id_after(wanted, steps);
    if state.tasks.contains_key(candidate) {
        lemma_occupied_run_fits(state, wanted, steps + 1);
        lemma_next_free_from(state, wanted, steps + 1);
    } else {
        assert(state.is_next_free(wanted, candidate));
    }
}

/// A store that fits in 64 bits has an unused identifier from any place on,
/// and `next_free_id` is the first of them.
pub proof fn lemma_next_free_id(state: EngineState, wanted: u128)
    requires
        state.tasks.dom().finite(),
        state.tasks.len() <= u64::MAX,
    ensures
        state.is_next_free(wanted, state.next_free_id(wanted)),
        forall|id: u128| state.is_next_free(wanted, id) ==> id == state.next_free_id(wanted),
{
    lemma_next_free_from(state, wanted, 0);
    assert forall|id: u128| state.is_next_free(wanted, id) implies id == state.next_free_id(
        wanted,
    ) by {
        lemma_next_free_is_unique(state, wanted, id, state.next_free_id(wanted));
    }
}

/// One operation on a well-formed engine with room for one more task
/// leaves a well-formed engine, in which every task of before is still
/// there and has changed only as the lifecycle allows. Only an accepted
/// creation adds a task, and only a completion moves the count and the sum
/// of the completions.
pub proof fn lemma_after_well_formed(state: EngineState, operation: Operation)
    requires
        state.well_formed(),
        state.tasks.len() < u64::MAX,
    ensures
        state.after(operation).well_formed(),
        state.may_become(state.after(operation)),
        state.after(operation).tasks.len() == state.tasks.len() + if operation.creates() {
            1int
        } else {
            0int
        },
        match operation.completes(state) {
            Some(time) => {
                &&& state.after(operation).counters.completed == state.counters.completed + 1
                &&& state.after(operation).counters.completed_count
                    == state.counters.completed_count + 1
                &&& state.after(operation).counters.total_processing_time_ms
                    == state.counters.total_processing_time_ms.wrapping_add(time)
            },
            None => {
                &&& state.after(operation).counters.completed == state.counters.completed
                &&& state.after(operation).counters.completed_count
                    == state.counters.completed_count
                &&& state.after(operation).counters.total_processing_time_ms
                    == state.counters.total_processing_time_ms
            },
        },
{
    match operation {
        Operation::Create { wanted, now, name, duration_ms, priority } => {
            if validation_error(name, duration_ms) is None {
                lemma_next_free_id(state, wanted);
                lemma_created_well_formed(
                    state,
                    TaskView::pending(state.next_free_id(wanted), now, name, duration_ms, priority),
                );
            }
        },
        Operation::Begin { id, now } => {
            lemma_begun_well_formed(state, id, now);
        },
        Operation::Finish { id, now, failed } => {
            lemma_finished_well_formed(state, id, now, failed);
        },
        Operation::Cancel { id, now } => {
            lemma_cancelled_well_formed(state, id, now);
        },
    }
}

/// Every life of the engine keeps the invariant, and the store holds one
/// task for each accepted creation: none is ever lost or replaced.
pub proof fn lemma_run_well_formed(channel: nat, operations: Seq<Operation>)
    requires
        operations.len() <= u64::MAX,
    ensures
        run(channel, operations).well_formed(),
        run(channel, operations).tasks.len() == creations(operations),
        creations(operations) <= operations.len(),
    decreases operations.len(),
{
    if operations.len() == 0 {
        lemma_empty_well_formed(channel);
    } else {
        lemma_run_well_formed(channel, operations.drop_last());
        lemma_after_well_formed(run(channel, operations.drop_last()), operations.last());
    }
}

/// The total counter equals the number of accepted creations.
pub proof fn lemma_total_counts_creations(channel: nat, operations: Seq<Operation>)
    requires
        operations.len() <= u64::MAX,
    ensures
        run(channel, operations).counters.total_tasks == creations(operations),
{
    lemma_run_well_formed(channel, operations);
}

/// In a well-formed engine the five status counters add up to the total
/// plus the number of tasks that were cancelled in flight: each of those is
/// counted as cancelled and still as processing.
pub proof fn lemma_counters_add_up(state: EngineState)
    requires
        state.well_formed(),
    ensures
        state.counters.status_sum() == state.counters.total_tasks + tally(
            state.tasks,
            cancelled_in_flight(),
        ),
{
    lemma_statuses_partition(state.tasks);
}

/// Where no task was cancelled in flight, the five status counters add up
/// to the total.
pub proof fn lemma_counters_add_up_to_total(state: EngineState)
    requires
        state.well_formed(),
        forall|id: u128| #[trigger]
            state.tasks.contains_key(id) ==> !(state.tasks[id].status == TaskStatus::Cancelled
                && state.tasks[id].started_at is Some),
    ensures
        state.counters.status_sum() == state.counters.total_tasks,
{
    lemma_counters_add_up(state);
    let in_flight = state.tasks.dom().filter(|id: u128| cancelled_in_flight()(state.tasks[id]));
    assert(in_flight =~= Set::<u128>::empty());
}

/// In a well-formed engine the rounded-down mean that a snapshot shows is 0
/// while no task is Completed, and otherwise the time that the Completed tasks of
/// the store took from start to end, added up and divided by their number,
/// rounded down; as long as that sum fits in 64 bits. Failed and Cancelled
/// tasks add nothing to it.
pub proof fn lemma_average_is_mean_of_completed_tasks(state: EngineState)
    requires
        state.well_formed(),
        time_spent(state.tasks) <= u64::MAX,
    ensures
        state.counters.completed_count == tally(
            state.tasks,
            with_status(TaskStatus::Completed),
        ),
        state.counters.total_processing_time_ms == time_spent(state.tasks),
        state.counters.average_processing_time_floor_ms() == (if tally(
            state.tasks,
            with_status(TaskStatus::Completed),
        ) == 0 {
            0
        } else {
            time_spent(state.tasks) / tally(state.tasks, with_status(TaskStatus::Completed))
        }),
{
}

/// The count of completions equals the number of completed tasks, and the
/// running sum equals the sum of their processing times, as long as that
/// sum fits in 64 bits. So the rounded-down mean that a snapshot shows is 0
/// while no task has completed, and otherwise the sum of the processing
/// times of the completed tasks divided by their number, rounded down.
/// Tasks that failed or were cancelled add nothing.
pub proof fn lemma_average_is_mean_of_completions(channel: nat, operations: Seq<Operation>)
    requires
        operations.len() <= u64::MAX,
        sum_of(completion_times(channel, operations)) <= u64::MAX,
    ensures
        run(channel, operations).counters.completed_count == completion_times(
            channel,
            operations,
        ).len(),
        run(channel, operations).counters.completed == completion_times(
            channel,
            operations,
        ).len(),
        run(channel, operations).counters.total_processing_time_ms == sum_of(
            completion_times(channel, operations),
        ),
        run(channel, operations).counters.average_processing_time_floor_ms() == (
        if completion_times(channel, operations).len() == 0 {
            0
        } else {
            sum_of(completion_times(channel, operations)) / completion_times(
                channel,
                operations,
            ).len()
        }),
    decreases operations.len(),
{
    if operations.len() > 0 {
        let earlier = operations.drop_last();
        if operations.last().completes(run(channel, earlier)) is Some {
            assert(completion_times(channel, operations).drop_last() == completion_times(
                channel,
                earlier,
            ));
        }
        lemma_average_is_mean_of_completions(channel, earlier);
        lemma_run_well_formed(channel, earlier);
        lemma_after_well_formed(run(channel, earlier), operations.last());
    }
}

/// Along every life of the engine a task, once created, stays in the
/// store, and what is seen of its status at two moments is joined by edges
/// of the lifecycle. A task seen in a terminal status is seen in that
/// status ever after: no task is in two different terminal statuses.
pub proof fn lemma_run_follows_lifecycle(
    channel: nat,
    operations: Seq<Operation>,
    earlier: int,
    later: int,
    id: u128,
)
    requires
        operations.len() <= u64::MAX,
        0 <= earlier <= later <= operations.len(),
        run(channel, operations.take(earlier)).tasks.contains_key(id),
    ensures
        run(channel, operations.take(later)).tasks.contains_key(id),
        run(channel, operations.take(earlier)).tasks[id].status.can_reach(
            run(channel, operations.take(later)).tasks[id].status,
        ),
        run(channel, operations.take(earlier)).tasks[id].status.is_terminal() ==> run(
            channel,
            operations.take(later),
        ).tasks[id].status == run(channel, operations.take(earlier)).tasks[id].status,
    decreases later - earlier,
{
    if earlier < later {
        lemma_run_follows_lifecycle(channel, operations, earlier, later - 1, id);
        let prefix = operations.take(later);
        assert(prefix.drop_last() == operations.take(later - 1));
        lemma_run_well_formed(channel, operations.take(later - 1));
        lemma_after_well_formed(run(channel, operations.take(later - 1)), prefix.last());
    }
}

/// In every well-formed engine the announced events are in step with the
/// store. Of two events about one task the earlier shows a status that is
/// not terminal and that leads to the different status shown by the later:
/// so after an event that shows a task Completed, Failed or Cancelled there
/// is no further event about that task. The first event about a task shows
/// it Pending, and the last shows the task as it is.
pub proof fn lemma_events_follow_lifecycle(state: EngineState)
    requires
        state.well_formed(),
    ensures
        forall|i: int, j: int|
            0 <= i < j < state.announced.len() && (#[trigger] state.announced[i]).0 == (
            #[trigger] state.announced[j]).0 ==> {
                &&& !state.announced[i].1.status.is_terminal()
                &&& state.announced[i].1.status.can_reach(state.announced[j].1.status)
                &&& state.announced[i].1.status != state.announced[j].1.status
            },
        forall|k: int|
            0 <= k < state.announced.len() ==> state.tasks.contains_key(
                (#[trigger] state.announced[k]).0,
            ),
        forall|id: u128| #[trigger]
            state.tasks.contains_key(id) ==> exists|k: int|
                0 <= k < state.announced.len() && (#[trigger] state.announced[k]).0 == id,
        forall|k: int|
            0 <= k < state.announced.len() && #[trigger] is_first_of_task(state.announced, k)
                ==> state.announced[k].1.status == TaskStatus::Pending,
        forall|k: int|
            0 <= k < state.announced.len() && #[trigger] is_last_of_task(state.announced, k)
                ==> state.announced[k].1 == state.tasks[state.announced[k].0],
{
    reveal(events_tell_the_story);
}

/// Along every life of the engine the announced events are in step with
/// the store, as `lemma_events_follow_lifecycle` says of a well-formed
/// engine.
pub proof fn lemma_events_tell_the_story(channel: nat, operations: Seq<Operation>)
    requires
        operations.len() <= u64::MAX,
    ensures
        events_tell_the_story(run(channel, operations).tasks, run(channel, operations).announced),
{
    lemma_run_well_formed(channel, operations);
}

/// A unit of work settles its task. Where a worker has claimed a task of the
/// store and later ended its work on it, the task is in a terminal status
/// from then on, whatever else happened to the engine in between: Completed
/// or Failed by the worker, or Cancelled by a client.
pub proof fn lemma_worked_task_is_settled(
    channel: nat,
    operations: Seq<Operation>,
    begin: int,
    finish: int,
    later: int,
    id: u128,
)
    requires
        operations.len() <= u64::MAX,
        0 <= begin < finish < later <= operations.len(),
        operations[begin] matches Operation::Begin { id: claimed, .. } && claimed == id,
        operations[finish] matches Operation::Finish { id: ended, .. } && ended == id,
        run(channel, operations.take(begin)).tasks.contains_key(id),
    ensures
        run(channel, operations.take(later)).tasks.contains_key(id),
        run(channel, operations.take(later)).tasks[id].status.is_terminal(),
{
    let claimed = operations.take(begin + 1);
    assert(claimed.drop_last() == operations.take(begin));
    assert(claimed.last() == operations[begin]);
    lemma_run_well_formed(channel, operations.take(begin));
    lemma_after_well_formed(run(channel, operations.take(begin)), operations[begin]);
    assert(run(channel, claimed).tasks[id].status != TaskStatus::Pending);
    lemma_run_follows_lifecycle(channel, operations, begin + 1, finish, id);
    let ended = operations.take(finish + 1);
    assert(ended.drop_last() == operations.take(finish));
    assert(ended.last() == operations[finish]);
    lemma_run_well_formed(channel, operations.take(finish));
    lemma_after_well_formed(run(channel, operations.take(finish)), operations[finish]);
    assert(run(channel, ended).tasks[id].status.is_terminal());
    lemma_run_follows_lifecycle(channel, operations, finish + 1, later, id);
}

} // verus!
