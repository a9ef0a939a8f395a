//! What the announced events tell of the store: the engine announces every
//! task when it is created and whenever its status changes, so the events
//! about one task retrace its way through the lifecycle.

use crate::bus::Event;
use crate::models::{TaskStatus, TaskView};
use vstd::prelude::*;

verus! {

/// No event before the `k`-th is about the same task.
pub open spec fn is_first_of_task(events: Seq<Event>, k: int) -> bool {
    forall|earlier: int| 0 <= earlier < k ==> (#[trigger] events[earlier]).0 != events[k].0
}

/// No event after the `k`-th is about the same task.
pub open spec fn is_last_of_task(events: Seq<Event>, k: int) -> bool {
    forall|later: int| k < later < events.len() ==> (#[trigger] events[later]).0 != events[k].0
}

/// The events are in step with the store. Every event is about a task of
/// the store, in a status from which the task's present status is reached;
/// of two events about one task the later shows a different status that the
/// earlier one leads to; every task of the store was announced; the first
/// event about a task shows it Pending; and the last event about a task
/// shows the task as it is.
#[verifier::opaque]
pub open spec fn events_tell_the_story(tasks: Map<u128, TaskView>, events: Seq<Event>) -> bool {
    &&& forall|k: int|
        0 <= k < events.len() ==> {
            &&& tasks.contains_key((#[trigger] events[k]).0)
            &&& events[k].1.status.can_reach(tasks[events[k].0].status)
        }
    &&& forall|i: int, j: int|
        0 <= i < j < events.len() && (#[trigger] events[i]).0 == (#[trigger] events[j]).0 ==> {
            &&& events[i].1.status.can_reach(events[j].1.status)
            &&& events[i].1.status != events[j].1.status
        }
    &&& forall|id: u128| #[trigger]
        tasks.contains_key(id) ==> exists|k: int|
            0 <= k < events.len() && (#[trigger] events[k]).0 == id
    &&& forall|k: int|
        0 <= k < events.len() && #[trigger] is_first_of_task(events, k) ==> events[k].1.status
            == TaskStatus::Pending
    &&& forall|k: int|
        0 <= k < events.len() && #[trigger] is_last_of_task(events, k) ==> events[k].1
            == tasks[events[k].0]
}

/// With no task and no event, the events are in step with the store.
pub proof fn lemma_silence_tells_the_story()
    ensures
        events_tell_the_story(Map::<u128, TaskView>::empty(), Seq::<Event>::empty()),
{
    reveal(events_tell_the_story);
}

/// Storing a task and announcing it keeps the events in step with the
/// store, where the task is a new Pending one or has moved along one edge
/// of the lifecycle.
pub proof fn lemma_announcement_keeps_story(
    tasks: Map<u128, TaskView>,
    before: Seq<Event>,
    id: u128,
    task: TaskView,
)
    requires
        events_tell_the_story(tasks, before),
        tasks.contains_key(id) ==> tasks[id].status.can_step_to(task.status),
        !tasks.contains_key(id) ==> task.status == TaskStatus::Pending,
    ensures
        events_tell_the_story(tasks.insert(id, task), before.push((id, task))),
{
    reveal(events_tell_the_story);
    let stored = tasks.insert(id, task);
    let events = before.push((id, task));
    let last = before.len() as int;
    assert forall|k: int| 0 <= k < events.len() implies {
        &&& stored.contains_key((#[trigger] events[k]).0)
        &&& events[k].1.status.can_reach(stored[events[k].0].status)
    } by {
        if k < last {
            assert(events[k] == before[k]);
        }
    }
    assert forall|i: int, j: int|
        0 <= i < j < events.len() && (#[trigger] events[i]).0 == (#[trigger] events[j]).0 implies {
        &&& events[i].1.status.can_reach(events[j].1.status)
        &&& events[i].1.status != events[j].1.status
    } by {
        assert(events[i] == before[i]);
        if j < last {
            assert(events[j] == before[j]);
        }
    }
    assert forall|other: u128| #[trigger] stored.contains_key(other) implies exists|k: int|
        0 <= k < events.len() && (#[trigger] events[k]).0 == other by {
        if other == id {
            assert(events[last].0 == id);
        } else {
            let k = choose|k: int| 0 <= k < before.len() && (#[trigger] before[k]).0 == other;
            assert(events[k] == before[k]);
        }
    }
    assert forall|k: int|
        0 <= k < events.len() && #[trigger] is_first_of_task(events, k) implies events[k].1.status
        == TaskStatus::Pending by {
        if k < last {
            assert(events[k] == before[k]);
            assert forall|earlier: int| 0 <= earlier < k implies (#[trigger] before[earlier]).0
                != before[k].0 by {
                assert(events[earlier] == before[earlier]);
            }
            assert(is_first_of_task(before, k));
        } else if tasks.contains_key(id) {
            let earlier = choose|e: int| 0 <= e < before.len() && (#[trigger] before[e]).0 == id;
            assert(events[earlier] == before[earlier]);
        }
    }
    assert forall|k: int|
        0 <= k < events.len() && #[trigger] is_last_of_task(events, k) implies events[k].1
        == stored[events[k].0] by {
        if k < last {
            assert(events[k] == before[k]);
            assert(events[last].0 == id);
            assert forall|later: int| k < later < before.len() implies (#[trigger] before[later]).0
                != before[k].0 by {
                assert(events[later] == before[later]);
            }
            assert(is_last_of_task(before, k));
        }
    }
}

/// Of two events about one task the earlier never shows a terminal status:
/// after the event that shows a task Completed, Failed or Cancelled there is
/// no further event about it.
pub proof fn lemma_terminal_event_is_last(
    tasks: Map<u128, TaskView>,
    events: Seq<Event>,
    i: int,
    j: int,
)
    requires
        events_tell_the_story(tasks, events),
        0 <= i < j < events.len(),
        events[i].0 == events[j].0,
    ensures
        !events[i].1.status.is_terminal(),
        events[i].1.status.can_reach(events[j].1.status),
        events[i].1.status != events[j].1.status,
{
    reveal(events_tell_the_story);
}

} // verus!
