//! The ranking of a dispatch tick.
//!
//! A dispatcher works in ticks. In each tick it takes the batch of
//! `TaskProcessor::pending_tasks` and launches one unit of work for every
//! task of it, all at once and whatever their priority. A unit claims its
//! task with `begin_processing`, waits for the task's duration, and ends
//! with `finish_processing`. The tick then waits for all its units, in the
//! order that `join_order` gives, rests for `TICK_PAUSE_MS` and starts
//! over. The priorities decide only that order of waiting.

use crate::models::{Task, TaskPriority};
use vstd::prelude::*;

verus! {

/// How long the dispatcher rests between two ticks, in milliseconds.
pub const TICK_PAUSE_MS: u64 = 100;

/// The priorities of a batch of launched tasks, in launch order.
pub open spec fn priorities_of(batch: Seq<(u128, Task)>) -> Seq<TaskPriority> {
    Seq::new(batch.len(), |i: int| batch[i].1.priority)
}

/// `order` lists every position of `priorities` once, higher priorities
/// first and, among equal priorities, earlier positions first.
pub open spec fn is_join_order(priorities: Seq<TaskPriority>, order: Seq<usize>) -> bool {
    &&& order.len() == priorities.len()
    &&& forall|k: int| 0 <= k < order.len() ==> 0 <= #[trigger] order[k] < priorities.len()
    &&& forall|a: int, b: int|
        0 <= a < b < order.len() ==> comes_before(
            priorities,
            #[trigger] order[a],
            #[trigger] order[b],
        )
}

/// The task launched at position `first` is waited for before the one at
/// position `second`: it has the higher priority, or the same priority and
/// the earlier position.
pub open spec fn comes_before(priorities: Seq<TaskPriority>, first: usize, second: usize) -> bool {
    ||| priorities[first as int].rank() > priorities[second as int].rank()
    ||| priorities[first as int] == priorities[second as int] && first < second
}

/// How many of the first `upto` priorities equal `wanted`.
pub open spec fn count_of(priorities: Seq<TaskPriority>, wanted: TaskPriority, upto: int) -> int
    decreases upto,
{
    if upto <= 0 {
        0
    } else {
        count_of(priorities, wanted, upto - 1) + if priorities[upto - 1] == wanted {
            1int
        } else {
            0int
        }
    }
}

/// Every priority is High, Medium or Low, so the three counts cover all
/// positions.
proof fn lemma_counts_cover(priorities: Seq<TaskPriority>, upto: int)
    requires
        0 <= upto <= priorities.len(),
    ensures
        count_of(priorities, TaskPriority::High, upto) + count_of(
            priorities,
            TaskPriority::Medium,
            upto,
        ) + count_of(priorities, TaskPriority::Low, upto) == upto,
    decreases upto,
{
    if upto > 0 {
        lemma_counts_cover(priorities, upto - 1);
    }
}

/// A count is never negative, and never above the number of positions
/// looked at.
proof fn lemma_count_bounds(priorities: Seq<TaskPriority>, wanted: TaskPriority, upto: int)
    requires
        0 <= upto,
    ensures
        0 <= count_of(priorities, wanted, upto) <= upto,
    decreases upto,
{
    if upto > 0 {
        lemma_count_bounds(priorities, wanted, upto - 1);
    }
}

/// Appends to `order` the positions of the batch whose task has the
/// priority `wanted`, in rising order.
fn push_positions_of(batch: &Vec<(u128, Task)>, wanted: TaskPriority, order: &mut Vec<usize>)
    requires
        old(order)@.len() <= batch@.len(),
    ensures
        final(order)@.len() == old(order)@.len() + count_of(
            priorities_of(batch@),
            wanted,
            batch@.len() as int,
        ),
        forall|k: int| 0 <= k < old(order)@.len() ==> final(order)@[k] == old(order)@[k],
        forall|k: int|
            old(order)@.len() <= k < final(order)@.len() ==> {
                &&& 0 <= #[trigger] final(order)@[k] < batch@.len()
                &&& batch@[final(order)@[k] as int].1.priority == wanted
            },
        forall|a: int, b: int|
            old(order)@.len() <= a < b < final(order)@.len() ==> #[trigger] final(order)@[a]
                < #[trigger] final(order)@[b],
{
    let ghost priorities = priorities_of(batch@);
    let mut position: usize = 0;
    while position < batch.len()
        invariant
            0 <= position <= batch@.len(),
            priorities == priorities_of(batch@),
            order@.len() == old(order)@.len() + count_of(priorities, wanted, position as int),
            forall|k: int| 0 <= k < old(order)@.len() ==> order@[k] == old(order)@[k],
            forall|k: int|
                old(order)@.len() <= k < order@.len() ==> {
                    &&& 0 <= #[trigger] order@[k] < position
                    &&& batch@[order@[k] as int].1.priority == wanted
                },
            forall|a: int, b: int|
                old(order)@.len() <= a < b < order@.len() ==> #[trigger] order@[a]
                    < #[trigger] order@[b],
        decreases batch@.len() - position,
    {
        proof {
            lemma_count_bounds(priorities, wanted, position as int);
        }
        if batch[position].1.priority == wanted {
            order.push(position);
        }
        position = position + 1;
    }
}

/// The order in which a tick waits for the work it launched, as positions
/// in `batch`: all High tasks first, then the Medium ones, then the Low
/// ones, each group in launch order.
pub fn join_order(batch: &Vec<(u128, Task)>) -> (order: Vec<usize>)
    ensures
        is_join_order(priorities_of(batch@), order@),
{
    let mut order: Vec<usize> = Vec::new();
    let ghost priorities = priorities_of(batch@);
    proof {
        lemma_counts_cover(priorities, batch@.len() as int);
        lemma_count_bounds(priorities, TaskPriority::High, batch@.len() as int);
        lemma_count_bounds(priorities, TaskPriority::Medium, batch@.len() as int);
        lemma_count_bounds(priorities, TaskPriority::Low, batch@.len() as int);
    }
    push_positions_of(batch, TaskPriority::High, &mut order);
    let ghost high_end = order@.len();
    push_positions_of(batch, TaskPriority::Medium, &mut order);
    let ghost medium_end = order@.len();
    push_positions_of(batch, TaskPriority::Low, &mut order);
    proof {
        assert forall|a: int, b: int| 0 <= a < b < order@.len() implies comes_before(
            priorities,
            #[trigger] order@[a],
            #[trigger] order@[b],
        ) by {
            let first = batch@[order@[a] as int].1.priority;
            let second = batch@[order@[b] as int].1.priority;
            assert(first == if a < high_end {
                TaskPriority::High
            } else if a < medium_end {
                TaskPriority::Medium
            } else {
                TaskPriority::Low
            });
            assert(second == if b < high_end {
                TaskPriority::High
            } else if b < medium_end {
                TaskPriority::Medium
            } else {
                TaskPriority::Low
            });
        }
    }
    order
}

} // verus!
