//! Counting the tasks of a store by what they are, and the facts about such
//! counts that the engine's invariant rests on.

use crate::models::{elapsed_between, Counters, TaskStatus, TaskView};
use vstd::prelude::*;
use vstd::set::fold::{is_fun_commutative, lemma_fold_empty, lemma_fold_insert};

verus! {

/// The tasks in the given status.
pub open spec fn with_status(status: TaskStatus) -> spec_fn(TaskView) -> bool {
    |task: TaskView| task.status == status
}

/// The tasks that were cancelled after they had started. Their work was not
/// interrupted, and the processing counter goes on counting them.
pub open spec fn cancelled_in_flight() -> spec_fn(TaskView) -> bool {
    |task: TaskView| task.status == TaskStatus::Cancelled && task.started_at is Some
}

/// How many tasks of the store are of the given kind.
pub open spec fn tally(tasks: Map<u128, TaskView>, counted: spec_fn(TaskView) -> bool) -> nat {
    tasks.dom().filter(|id: u128| counted(tasks[id])).len()
}

/// The processing time that a task has added to the running sum: the time
/// from its start to its end where it is Completed, nothing otherwise.
pub open spec fn recorded_time(task: TaskView) -> nat {
    if task.status == TaskStatus::Completed && task.started_at is Some
        && task.completed_at is Some {
        elapsed_between(task.started_at->0, task.completed_at->0) as nat
    } else {
        0
    }
}

/// The processing times of all Completed tasks of the store, added up.
pub open spec fn time_spent(tasks: Map<u128, TaskView>) -> nat {
    tasks.dom().fold(0nat, |sum: nat, id: u128| sum + recorded_time(tasks[id]))
}

/// The counters say what a count of the store would say. The processing
/// counter also holds the tasks that were cancelled in flight, and the
/// running sum of processing times is kept modulo 2^64.
pub open spec fn census_agrees(tasks: Map<u128, TaskView>, counters: Counters) -> bool {
    &&& counters.total_processing_time_ms == time_spent(tasks) % 0x1_0000_0000_0000_0000
    &&& counters.total_tasks == tasks.len()
    &&& counters.pending == tally(tasks, with_status(TaskStatus::Pending))
    &&& counters.processing == tally(tasks, with_status(TaskStatus::Processing)) + tally(
        tasks,
        cancelled_in_flight(),
    )
    &&& counters.completed == tally(tasks, with_status(TaskStatus::Completed))
    &&& counters.failed == tally(tasks, with_status(TaskStatus::Failed))
    &&& counters.cancelled == tally(tasks, with_status(TaskStatus::Cancelled))
    &&& counters.completed_count == counters.completed
}

/// An empty store holds no task of any kind.
pub proof fn lemma_tally_empty(counted: spec_fn(TaskView) -> bool)
    ensures
        tally(Map::<u128, TaskView>::empty(), counted) == 0,
{
    let tasks = Map::<u128, TaskView>::empty();
    assert(tasks.dom().filter(|id: u128| counted(tasks[id])) =~= Set::<u128>::empty());
}

/// No kind has more tasks than the store.
pub proof fn lemma_tally_bounded(tasks: Map<u128, TaskView>, counted: spec_fn(TaskView) -> bool)
    requires
        tasks.dom().finite(),
    ensures
        tally(tasks, counted) <= tasks.len(),
{
    tasks.dom().lemma_len_filter(|id: u128| counted(tasks[id]));
}

/// A task of the store that is of the kind is counted.
pub proof fn lemma_tally_positive(
    tasks: Map<u128, TaskView>,
    id: u128,
    counted: spec_fn(TaskView) -> bool,
)
    requires
        tasks.dom().finite(),
        tasks.contains_key(id),
        counted(tasks[id]),
    ensures
        tally(tasks, counted) >= 1,
{
    let members = tasks.dom().filter(|id: u128| counted(tasks[id]));
    tasks.dom().lemma_len_filter(|id: u128| counted(tasks[id]));
    assert(members.contains(id));
    if members.len() == 0 {
        assert(members =~= Set::<u128>::empty());
    }
}

/// Writing `task` under `id` takes the entry that stood there out of the
/// count, if it was counted, and brings `task` in, if it is.
pub proof fn lemma_tally_insert(
    tasks: Map<u128, TaskView>,
    id: u128,
    task: TaskView,
    counted: spec_fn(TaskView) -> bool,
)
    requires
        tasks.dom().finite(),
    ensures
        tally(tasks.insert(id, task), counted) == tally(tasks, counted) - (if tasks.contains_key(id)
            && counted(tasks[id]) {
            1int
        } else {
            0int
        }) + (if counted(task) {
            1int
        } else {
            0int
        }),
{
    let after = tasks.insert(id, task);
    let before_members = tasks.dom().filter(|k: u128| counted(tasks[k]));
    let after_members = after.dom().filter(|k: u128| counted(after[k]));
    tasks.dom().lemma_len_filter(|k: u128| counted(tasks[k]));
    let others = before_members.remove(id);
    if counted(task) {
        assert(after_members =~= others.insert(id));
    } else {
        assert(after_members =~= others);
    }
}

/// Every task is in exactly one status, so the five counts add up to the
/// size of the store.
pub proof fn lemma_statuses_partition(tasks: Map<u128, TaskView>)
    requires
        tasks.dom().finite(),
    ensures
        tally(tasks, with_status(TaskStatus::Pending)) + tally(
            tasks,
            with_status(TaskStatus::Processing),
        ) + tally(tasks, with_status(TaskStatus::Completed)) + tally(
            tasks,
            with_status(TaskStatus::Failed),
        ) + tally(tasks, with_status(TaskStatus::Cancelled)) == tasks.len(),
    decreases tasks.len(),
{
    if tasks.len() == 0 {
        assert(tasks =~= Map::<u128, TaskView>::empty());
        lemma_tally_empty(with_status(TaskStatus::Pending));
        lemma_tally_empty(with_status(TaskStatus::Processing));
        lemma_tally_empty(with_status(TaskStatus::Completed));
        lemma_tally_empty(with_status(TaskStatus::Failed));
        lemma_tally_empty(with_status(TaskStatus::Cancelled));
    } else {
        let id = tasks.dom().choose();
        let task = tasks[id];
        let rest = tasks.remove(id);
        assert(rest.insert(id, task) =~= tasks);
        lemma_statuses_partition(rest);
        lemma_tally_insert(rest, id, task, with_status(TaskStatus::Pending));
        lemma_tally_insert(rest, id, task, with_status(TaskStatus::Processing));
        lemma_tally_insert(rest, id, task, with_status(TaskStatus::Completed));
        lemma_tally_insert(rest, id, task, with_status(TaskStatus::Failed));
        lemma_tally_insert(rest, id, task, with_status(TaskStatus::Cancelled));
    }
}

/// Two ways of adding up that agree on every identifier of a set give the
/// same sum over it.
proof fn lemma_sums_agree(
    ids: Set<u128>,
    first: spec_fn(nat, u128) -> nat,
    second: spec_fn(nat, u128) -> nat,
)
    requires
        ids.finite(),
        is_fun_commutative(first),
        is_fun_commutative(second),
        forall|sum: nat, id: u128|
            ids.contains(id) ==> #[trigger] first(sum, id) == second(sum, id),
    ensures
        ids.fold(0nat, first) == ids.fold(0nat, second),
    decreases ids.len(),
{
    if ids.len() == 0 {
        assert(ids =~= Set::<u128>::empty());
        lemma_fold_empty::<u128, nat>(0nat, first);
        lemma_fold_empty::<u128, nat>(0nat, second);
    } else {
        let id = ids.choose();
        let rest = ids.remove(id);
        lemma_sums_agree(rest, first, second);
        lemma_fold_insert(rest, 0nat, first, id);
        lemma_fold_insert(rest, 0nat, second, id);
        assert(rest.insert(id) =~= ids);
    }
}

/// An empty store has spent no time.
pub proof fn lemma_time_spent_empty()
    ensures
        time_spent(Map::<u128, TaskView>::empty()) == 0,
{
    let tasks = Map::<u128, TaskView>::empty();
    assert(tasks.dom() =~= Set::<u128>::empty());
    lemma_fold_empty::<u128, nat>(0nat, |sum: nat, id: u128| sum + recorded_time(tasks[id]));
}

/// Writing `task` under `id` takes the time of the entry that stood there
/// out of the sum and brings the time of `task` in.
pub proof fn lemma_time_spent_insert(tasks: Map<u128, TaskView>, id: u128, task: TaskView)
    requires
        tasks.dom().finite(),
    ensures
        time_spent(tasks.insert(id, task)) == time_spent(tasks) - (if tasks.contains_key(id) {
            recorded_time(tasks[id]) as int
        } else {
            0int
        }) + recorded_time(task),
{
    let after = tasks.insert(id, task);
    let before_sum = |sum: nat, k: u128| sum + recorded_time(tasks[k]);
    let after_sum = |sum: nat, k: u128| sum + recorded_time(after[k]);
    let others = tasks.dom().remove(id);
    assert(is_fun_commutative(before_sum));
    assert(is_fun_commutative(after_sum));
    lemma_sums_agree(others, before_sum, after_sum);
    lemma_fold_insert(others, 0nat, after_sum, id);
    assert(after.dom() =~= others.insert(id));
    if tasks.contains_key(id) {
        lemma_fold_insert(others, 0nat, before_sum, id);
        assert(tasks.dom() =~= others.insert(id));
    } else {
        assert(tasks.dom() =~= others);
    }
}

} // verus!
