//! The engine itself: it owns every task, keeps the counters in step with
//! each transition and announces each change on the event channel.
//!
//! Every operation that reads the clock or draws an identifier or a chance
//! comes in two forms. The form whose name ends in `_at` takes those values
//! as arguments and says exactly what it does with them; the other form
//! obtains them and calls the first.

use crate::bus::NotificationBus;
use crate::census::{tally, with_status};
use crate::history::{lemma_next_free_id, Operation};
use crate::models::{
    check_task_input, failure_message, validation_error, Stats, Task, TaskPriority, TaskStats,
    TaskStatus, TaskView, ValidationError,
};
use crate::runtime::{now_millis, random_ratio, random_task_id, receiver_channel};
use crate::state::{
    id_after, lemma_begun_well_formed, lemma_cancelled_well_formed, lemma_created_well_formed,
    lemma_empty_well_formed, lemma_finished_well_formed, lemma_occupied_run_fits, steps_from,
    CancelError, EngineState,
};
use std::collections::HashMap;
use vstd::prelude::*;
use vstd::std_specs::hash::spec_hash_map_len;
use vstd::std_specs::iter::IteratorSpec;

verus! {

/// A simulated failure strikes one finished task in `FAILURE_ODDS`.
pub const FAILURE_ODDS: u32 = 20;

/// The views of the tasks of a store.
spec fn task_views(tasks: Map<u128, Task>) -> Map<u128, TaskView> {
    tasks.map_values(|task: Task| task@)
}

/// The task engine.
pub struct TaskProcessor {
    tasks: HashMap<u128, Task>,
    stats: Stats,
    bus: NotificationBus,
}

impl View for TaskProcessor {
    type V = EngineState;

    closed spec fn view(&self) -> EngineState {
        EngineState {
            tasks: task_views(self.tasks@),
            counters: self.stats@,
            announced: self.bus@.announced,
            channel: self.bus@.channel,
            capacity: self.bus@.capacity,
        }
    }
}

/// Writing a task into a store writes its view into the store's view.
proof fn lemma_views_after_write(tasks: Map<u128, Task>, id: u128, task: Task)
    ensures
        task_views(tasks.insert(id, task)) == task_views(tasks).insert(id, task@),
        task_views(tasks).dom() == tasks.dom(),
{
    assert(task_views(tasks.insert(id, task)) =~= task_views(tasks).insert(id, task@));
    assert(task_views(tasks).dom() =~= tasks.dom());
}

impl TaskProcessor {
    /// The store and its view hold the same identifiers.
    proof fn lemma_same_ids(&self)
        ensures
            self@.tasks.dom() == self.tasks@.dom(),
            self@.tasks.dom().finite(),
            self@.tasks.len() <= usize::MAX,
            forall|id: u128| #[trigger]
                self.tasks@.contains_key(id) ==> self@.tasks[id] == self.tasks@[id]@,
    {
        assert(task_views(self.tasks@).dom() =~= self.tasks@.dom());
        assert(spec_hash_map_len(&self.tasks) == self.tasks@.len());
    }

    /// An engine without tasks, with all counters at zero and an event
    /// channel of its own, made to keep `EVENT_CAPACITY` events, that nobody
    /// observes yet.
    pub fn new() -> (processor: TaskProcessor)
        ensures
            processor@ == EngineState::empty(processor@.channel),
            processor@.well_formed(),
    {
        let processor = TaskProcessor {
            tasks: HashMap::new(),
            stats: Stats::new(),
            bus: NotificationBus::new(),
        };
        proof {
            assert(task_views(processor.tasks@) =~= Map::<u128, TaskView>::empty());
            lemma_empty_well_formed(processor.bus@.channel);
        }
        processor
    }

    /// The first identifier from `wanted` on that no task has: `wanted`
    /// itself unless it is taken.
    fn unused_id(&self, wanted: u128) -> (id: u128)
        ensures
            self@.is_next_free(wanted, id),
            !self@.tasks.contains_key(wanted) ==> id == wanted,
    {
        let mut candidate: u128 = wanted;
        let ghost mut steps: int = 0;
        proof {
            self.lemma_same_ids();
        }
        while self.tasks.contains_key(&candidate)
            invariant
                0 <= steps <= self@.tasks.len(),
                self@.tasks.len() <= usize::MAX,
                self@.tasks.dom() == self.tasks@.dom(),
                self@.tasks.dom().finite(),
                candidate == id_after(wanted, steps),
                forall|earlier: int|
                    0 <= earlier < steps ==> self@.tasks.contains_key(
                        #[trigger] id_after(wanted, earlier),
                    ),
            decreases self@.tasks.len() - steps,
        {
            proof {
                lemma_occupied_run_fits(self@, wanted, steps + 1);
            }
            candidate = candidate.wrapping_add(1);
            proof {
                steps = steps + 1;
            }
        }
        proof {
            assert(steps_from(wanted, candidate) == steps);
            assert(id_after(wanted, 0) == wanted);
        }
        candidate
    }

    /// Creates a task with a random identifier, now. A request with an
    /// empty name or a zero duration is turned down and changes nothing;
    /// every other request succeeds, and the new task is Pending, stored
    /// under an identifier that no other task has, counted as one more task
    /// and one more pending, and announced.
    pub fn create_task(
        &mut self,
        name: String,
        duration_ms: u64,
        priority: TaskPriority,
    ) -> (outcome: Result<Task, ValidationError>)
        requires
            old(self)@.well_formed(),
        ensures
            final(self)@.well_formed(),
            old(self)@.may_become(final(self)@),
            exists|wanted: u128, now: i64|
                final(self)@ == #[trigger] old(self)@.after(
                    Operation::Create { wanted, now, name: name@, duration_ms, priority },
                ),
            match outcome {
                Ok(task) => {
                    &&& validation_error(name@, duration_ms) is None
                    &&& !old(self)@.tasks.contains_key(task.id)
                    &&& task@ == TaskView::pending(
                        task.id,
                        task.created_at,
                        name@,
                        duration_ms,
                        priority,
                    )
                    &&& final(self)@ == old(self)@.created(task@)
                    &&& final(self)@.announced == old(self)@.announced.push((task.id, task@))
                    &&& final(self)@.tasks.len() == old(self)@.tasks.len() + 1
                    &&& final(self)@.counters.total_tasks == old(self)@.counters.total_tasks + 1
                    &&& final(self)@.counters.pending == old(self)@.counters.pending + 1
                },
                Err(error) => {
                    &&& validation_error(name@, duration_ms) == Some(error)
                    &&& final(self)@ == old(self)@
                },
            },
    {
        let wanted = random_task_id();
        let now = now_millis();
        self.create_task_at(wanted, now, name, duration_ms, priority)
    }

    /// Creates a task at time `now` under the identifier `wanted`, or under
    /// the first unused identifier after it where `wanted` is taken. A
    /// request with an empty name or a zero duration is turned down and
    /// changes nothing.
    pub fn create_task_at(
        &mut self,
        wanted: u128,
        now: i64,
        name: String,
        duration_ms: u64,
        priority: TaskPriority,
    ) -> (outcome: Result<Task, ValidationError>)
        requires
            old(self)@.well_formed(),
        ensures
            final(self)@.well_formed(),
            old(self)@.may_become(final(self)@),
            final(self)@ == old(self)@.after(
                Operation::Create { wanted, now, name: name@, duration_ms, priority },
            ),
            match outcome {
                Ok(task) => {
                    &&& validation_error(name@, duration_ms) is None
                    &&& old(self)@.is_next_free(wanted, task.id)
                    &&& !old(self)@.tasks.contains_key(wanted) ==> task.id == wanted
                    &&& task@ == TaskView::pending(task.id, now, name@, duration_ms, priority)
                    &&& final(self)@ == old(self)@.created(task@)
                    &&& final(self)@.announced == old(self)@.announced.push((task.id, task@))
                    &&& final(self)@.tasks.len() == old(self)@.tasks.len() + 1
                    &&& final(self)@.counters.total_tasks == old(self)@.counters.total_tasks + 1
                    &&& final(self)@.counters.pending == old(self)@.counters.pending + 1
                },
                Err(error) => {
                    &&& validation_error(name@, duration_ms) == Some(error)
                    &&& final(self)@ == old(self)@
                },
            },
    {
        match check_task_input(&name, duration_ms) {
            Err(error) => {
                return Err(error);
            },
            Ok(_) => {},
        }
        let id = self.unused_id(wanted);
        proof {
            self.lemma_same_ids();
            lemma_next_free_id(self@, wanted);
        }
        let task = Task::new_at(id, now, name, duration_ms, priority);
        let stored = task.clone();
        let announced = task.clone();
        self.tasks.insert(id, stored);
        self.stats.increment_total();
        self.stats.increment_pending();
        proof {
            old(self).lemma_same_ids();
            lemma_views_after_write(old(self).tasks@, id, stored);
            assert(spec_hash_map_len(&self.tasks) == self.tasks@.len());
            lemma_created_well_formed(old(self)@, task@);
        }
        self.bus.publish(id, announced);
        Ok(task)
    }

    /// A snapshot of task `id`, or nothing where no task has that
    /// identifier.
    pub fn get_task(&self, id: u128) -> (found: Option<Task>)
        ensures
            match found {
                Some(task) => self@.tasks.contains_key(id) && task@ == self@.tasks[id],
                None => !self@.tasks.contains_key(id),
            },
    {
        match self.tasks.get(&id) {
            Some(task) => Some(task.clone()),
            None => None,
        }
    }

    /// Snapshots of all tasks, each once, in no particular order.
    pub fn list_tasks(&self) -> (listed: Vec<Task>)
        requires
            self@.well_formed(),
        ensures
            listed@.len() == self@.tasks.len(),
            forall|i: int|
                0 <= i < listed@.len() ==> self@.tasks.contains_key(#[trigger] listed@[i].id)
                    && listed@[i]@ == self@.tasks[listed@[i].id],
            forall|i: int, j: int|
                0 <= i < j < listed@.len() ==> listed@[i].id != listed@[j].id,
    {
        let mut listed: Vec<Task> = Vec::new();
        let keys = self.tasks.keys();
        let ghost ids: Seq<u128> = keys.remaining().unref();
        proof {
            self.lemma_same_ids();
            ids.unique_seq_to_set();
        }
        for key in walk: keys
            invariant
                self@.well_formed(),
                self@.tasks.dom() == self.tasks@.dom(),
                walk.seq().unref() == ids,
                ids.no_duplicates(),
                ids.to_set() == self.tasks@.dom(),
                listed@.len() == walk.index(),
                forall|i: int|
                    0 <= i < listed@.len() ==> (#[trigger] listed@[i]).id == ids[i] && listed@[i]@
                        == self@.tasks[ids[i]],
        {
            assert(ids[walk.index()] == *key);
            assert(ids.to_set().contains(ids[walk.index()]));
            match self.tasks.get(key) {
                Some(task) => {
                    listed.push(task.clone());
                },
                None => {},
            }
        }
        proof {
            assert forall|i: int| 0 <= i < listed@.len() implies self@.tasks.contains_key(
                #[trigger] listed@[i].id,
            ) && listed@[i]@ == self@.tasks[listed@[i].id] by {
                assert(ids.to_set().contains(ids[i]));
            }
        }
        listed
    }

    /// Cancels task `id` now; see `cancel_task_at`. A refusal is given as
    /// the text for the client.
    pub fn cancel_task(&mut self, id: u128) -> (outcome: Result<(), String>)
        requires
            old(self)@.well_formed(),
        ensures
            final(self)@.well_formed(),
            old(self)@.may_become(final(self)@),
            exists|now: i64|
                final(self)@ == #[trigger] old(self)@.after(Operation::Cancel { id, now }),
            match outcome {
                Ok(_) => {
                    &&& old(self)@.cancel_error(id) is None
                    &&& final(self)@.tasks[id].status == TaskStatus::Cancelled
                    &&& final(self)@.announced == old(self)@.announced.push(
                        (id, final(self)@.tasks[id]),
                    )
                },
                Err(message) => {
                    &&& old(self)@.cancel_error(id) matches Some(error)
                    &&& message@ == error.text()
                    &&& final(self)@ == old(self)@
                },
            },
            old(self)@.tasks.contains_key(id) && old(self)@.tasks[id].status == TaskStatus::Pending
                ==> {
                &&& final(self)@.counters.pending == old(self)@.counters.pending - 1
                &&& final(self)@.counters.cancelled == old(self)@.counters.cancelled + 1
                &&& final(self)@.counters.processing == old(self)@.counters.processing
            },
            old(self)@.tasks.contains_key(id) && old(self)@.tasks[id].status
                == TaskStatus::Processing ==> {
                &&& final(self)@.counters.cancelled == old(self)@.counters.cancelled + 1
                &&& final(self)@.counters.processing == old(self)@.counters.processing
                &&& final(self)@.counters.pending == old(self)@.counters.pending
            },
    {
        let now = now_millis();
        match self.cancel_task_at(id, now) {
            Ok(_) => Ok(()),
            Err(error) => Err(error.message()),
        }
    }

    /// Cancels task `id` at time `now` and returns the snapshot that was
    /// announced. An unknown identifier gives `NotFound`, a finished task
    /// `InvalidState`, and neither changes anything. A Pending task becomes
    /// Cancelled, and one unit moves from the pending to the cancelled
    /// counter. A Processing task becomes Cancelled and is counted as
    /// cancelled, but the processing counter keeps it: its work goes on,
    /// and `finish_processing_at` will find it cancelled and leave it so.
    pub fn cancel_task_at(&mut self, id: u128, now: i64) -> (outcome: Result<Task, CancelError>)
        requires
            old(self)@.well_formed(),
        ensures
            final(self)@.well_formed(),
            old(self)@.may_become(final(self)@),
            final(self)@ == old(self)@.cancelled(id, now),
            final(self)@ == old(self)@.after(Operation::Cancel { id, now }),
            final(self)@.tasks.dom() == old(self)@.tasks.dom(),
            match outcome {
                Ok(task) => {
                    &&& old(self)@.cancel_error(id) is None
                    &&& task@ == old(self)@.tasks[id].cancelled(now)
                    &&& task@ == final(self)@.tasks[id]
                    &&& task.status == TaskStatus::Cancelled
                    &&& final(self)@.announced == old(self)@.announced.push((id, task@))
                },
                Err(error) => {
                    &&& old(self)@.cancel_error(id) == Some(error)
                    &&& final(self)@ == old(self)@
                },
            },
            old(self)@.tasks.contains_key(id) && old(self)@.tasks[id].status == TaskStatus::Pending
                ==> {
                &&& final(self)@.counters.pending == old(self)@.counters.pending - 1
                &&& final(self)@.counters.cancelled == old(self)@.counters.cancelled + 1
                &&& final(self)@.counters.processing == old(self)@.counters.processing
            },
            old(self)@.tasks.contains_key(id) && old(self)@.tasks[id].status
                == TaskStatus::Processing ==> {
                &&& final(self)@.counters.cancelled == old(self)@.counters.cancelled + 1
                &&& final(self)@.counters.processing == old(self)@.counters.processing
                &&& final(self)@.counters.pending == old(self)@.counters.pending
            },
    {
        proof {
            self.lemma_same_ids();
            lemma_cancelled_well_formed(old(self)@, id, now);
        }
        let mut task = match self.tasks.get(&id) {
            Some(stored) => stored.clone(),
            None => {
                return Err(CancelError::NotFound);
            },
        };
        match task.status {
            TaskStatus::Pending => {
                task.mark_as_cancelled_at(now);
                self.tasks.insert(id, task.clone());
                self.stats.increment_cancelled();
                self.stats.decrement_pending();
            },
            TaskStatus::Processing => {
                task.mark_as_cancelled_at(now);
                self.tasks.insert(id, task.clone());
                self.stats.increment_cancelled();
            },
            _ => {
                return Err(CancelError::InvalidState);
            },
        }
        proof {
            lemma_views_after_write(old(self).tasks@, id, task);
        }
        self.bus.publish(id, task.clone());
        Ok(task)
    }

    /// A snapshot of the counters.
    pub fn get_stats(&self) -> (snapshot: TaskStats)
        ensures
            snapshot == TaskStats::of(self@.counters),
            self@.well_formed() ==> snapshot.total_tasks == self@.tasks.len(),
    {
        self.stats.get_stats()
    }

    /// A new observer of the engine's own event channel. It sees the events
    /// announced from now on, none of the earlier ones.
    pub fn subscribe(&self) -> (receiver: tokio::sync::broadcast::Receiver<(u128, Task)>)
        ensures
            receiver_channel(receiver) == self@.channel,
    {
        self.bus.subscribe()
    }

    /// Snapshots of the tasks that are Pending, each once with its
    /// identifier, in no particular order: what a dispatch tick launches.
    pub fn pending_tasks(&self) -> (batch: Vec<(u128, Task)>)
        requires
            self@.well_formed(),
        ensures
            forall|i: int|
                0 <= i < batch@.len() ==> {
                    &&& self@.tasks.contains_key(#[trigger] batch@[i].0)
                    &&& batch@[i].1@ == self@.tasks[batch@[i].0]
                    &&& batch@[i].1.id == batch@[i].0
                    &&& batch@[i].1.status == TaskStatus::Pending
                },
            forall|i: int, j: int| 0 <= i < j < batch@.len() ==> batch@[i].0 != batch@[j].0,
            forall|id: u128|
                self@.tasks.contains_key(id) && self@.tasks[id].status == TaskStatus::Pending
                    ==> exists|i: int| 0 <= i < batch@.len() && #[trigger] batch@[i].0 == id,
            batch@.len() == tally(self@.tasks, with_status(TaskStatus::Pending)),
            batch@.len() == self@.counters.pending,
    {
        let mut batch: Vec<(u128, Task)> = Vec::new();
        let keys = self.tasks.keys();
        let ghost ids: Seq<u128> = keys.remaining().unref();
        let ghost mut picked: Seq<int> = Seq::empty();
        proof {
            self.lemma_same_ids();
        }
        for key in walk: keys
            invariant
                self@.tasks.dom() == self.tasks@.dom(),
                forall|id: u128| #[trigger]
                    self.tasks@.contains_key(id) ==> self@.tasks[id] == self.tasks@[id]@,
                walk.seq().unref() == ids,
                ids.no_duplicates(),
                ids.to_set() == self.tasks@.dom(),
                picked.len() == batch@.len(),
                forall|i: int| 0 <= i < picked.len() ==> 0 <= #[trigger] picked[i] < walk.index(),
                forall|i: int, j: int|
                    0 <= i < j < picked.len() ==> #[trigger] picked[i] < #[trigger] picked[j],
                forall|i: int|
                    0 <= i < batch@.len() ==> {
                        &&& (#[trigger] batch@[i]).0 == ids[picked[i]]
                        &&& batch@[i].1@ == self@.tasks[ids[picked[i]]]
                        &&& batch@[i].1.status == TaskStatus::Pending
                    },
                forall|seen: int|
                    0 <= seen < walk.index() && self@.tasks[#[trigger] ids[seen]].status
                        == TaskStatus::Pending ==> picked.contains(seen),
        {
            let ghost position = walk.index();
            let ghost earlier = picked;
            assert(ids[position] == *key);
            assert(ids.to_set().contains(ids[position]));
            match self.tasks.get(key) {
                Some(task) => {
                    if task.status == TaskStatus::Pending {
                        batch.push((*key, task.clone()));
                        proof {
                            picked = picked.push(position);
                            assert(picked[earlier.len() as int] == position);
                        }
                    }
                },
                None => {},
            }
            proof {
                assert forall|seen: int|
                    0 <= seen < position + 1 && self@.tasks[#[trigger] ids[seen]].status
                        == TaskStatus::Pending implies picked.contains(seen) by {
                    if seen < position {
                        let i = choose|i: int| 0 <= i < earlier.len() && earlier[i] == seen;
                        assert(picked[i] == seen);
                    }
                }
            }
        }
        proof {
            assert forall|i: int| 0 <= i < batch@.len() implies self@.tasks.contains_key(
                #[trigger] batch@[i].0,
            ) by {
                assert(ids.to_set().contains(ids[picked[i]]));
            }
            assert forall|i: int, j: int| 0 <= i < j < batch@.len() implies batch@[i].0
                != batch@[j].0 by {
                assert(picked[i] < picked[j]);
            }
            assert forall|id: u128|
                self@.tasks.contains_key(id) && self@.tasks[id].status
                    == TaskStatus::Pending implies exists|i: int|
                0 <= i < batch@.len() && #[trigger] batch@[i].0 == id by {
                assert(ids.to_set().contains(id));
                let seen = choose|seen: int| 0 <= seen < ids.len() && ids[seen] == id;
                assert(self@.tasks[ids[seen]].status == TaskStatus::Pending);
                let i = choose|i: int| 0 <= i < picked.len() && picked[i] == seen;
                assert(batch@[i].0 == id);
            }
            let launched = Seq::new(batch@.len(), |i: int| batch@[i].0);
            let pending = self@.tasks.dom().filter(
                |id: u128| with_status(TaskStatus::Pending)(self@.tasks[id]),
            );
            assert forall|id: u128| pending.contains(id) implies launched.to_set().contains(id) by {
                let i = choose|i: int| 0 <= i < batch@.len() && #[trigger] batch@[i].0 == id;
                assert(launched[i] == id);
            }
            assert(launched.to_set() =~= pending);
            launched.unique_seq_to_set();
        }
        batch
    }

    /// A worker claims task `id` now; see `begin_processing_at`.
    pub fn begin_processing(&mut self, id: u128) -> (claimed: Option<Task>)
        requires
            old(self)@.well_formed(),
        ensures
            final(self)@.well_formed(),
            old(self)@.may_become(final(self)@),
            exists|now: i64|
                final(self)@ == #[trigger] old(self)@.after(Operation::Begin { id, now }),
            claimed is Some <==> old(self)@.tasks.contains_key(id) && old(self)@.tasks[id].status
                == TaskStatus::Pending,
            claimed matches Some(task) ==> {
                &&& task@ == final(self)@.tasks[id]
                &&& task.status == TaskStatus::Processing
                &&& final(self)@.announced == old(self)@.announced.push((id, task@))
                &&& final(self)@.counters.pending == old(self)@.counters.pending - 1
                &&& final(self)@.counters.processing == old(self)@.counters.processing + 1
                &&& final(self)@.counters.completed == old(self)@.counters.completed
                &&& final(self)@.counters.failed == old(self)@.counters.failed
                &&& final(self)@.counters.cancelled == old(self)@.counters.cancelled
                &&& final(self)@.counters.total_tasks == old(self)@.counters.total_tasks
            },
            claimed is None ==> final(self)@ == old(self)@,
    {
        let now = now_millis();
        self.begin_processing_at(id, now)
    }

    /// A worker claims task `id` at time `now`. A Pending task becomes
    /// Processing, one unit moves from the pending to the processing
    /// counter, and the snapshot that was announced is returned. For any
    /// other task, and for an unknown identifier, nothing happens.
    pub fn begin_processing_at(&mut self, id: u128, now: i64) -> (claimed: Option<Task>)
        requires
            old(self)@.well_formed(),
        ensures
            final(self)@.well_formed(),
            old(self)@.may_become(final(self)@),
            final(self)@ == old(self)@.begun(id, now),
            final(self)@ == old(self)@.after(Operation::Begin { id, now }),
            final(self)@.tasks.dom() == old(self)@.tasks.dom(),
            claimed is Some <==> old(self)@.tasks.contains_key(id) && old(self)@.tasks[id].status
                == TaskStatus::Pending,
            claimed matches Some(task) ==> {
                &&& task@ == old(self)@.tasks[id].begun(now)
                &&& task@ == final(self)@.tasks[id]
                &&& task.status == TaskStatus::Processing
                &&& final(self)@.announced == old(self)@.announced.push((id, task@))
                &&& final(self)@.counters.pending == old(self)@.counters.pending - 1
                &&& final(self)@.counters.processing == old(self)@.counters.processing + 1
            },
            claimed is None ==> final(self)@ == old(self)@,
    {
        proof {
            self.lemma_same_ids();
            lemma_begun_well_formed(old(self)@, id, now);
        }
        let mut task = match self.tasks.get(&id) {
            Some(stored) => stored.clone(),
            None => {
                return None;
            },
        };
        if task.status != TaskStatus::Pending {
            return None;
        }
        task.mark_as_processing_at(now);
        self.tasks.insert(id, task.clone());
        self.stats.increment_processing();
        proof {
            lemma_views_after_write(old(self).tasks@, id, task);
        }
        self.bus.publish(id, task.clone());
        Some(task)
    }

    /// The work on task `id` ends now, and chance decides whether it
    /// failed: one time in `FAILURE_ODDS` it did. See
    /// `finish_processing_at`.
    pub fn finish_processing(&mut self, id: u128) -> (finished: Option<Task>)
        requires
            old(self)@.well_formed(),
        ensures
            final(self)@.well_formed(),
            old(self)@.may_become(final(self)@),
            exists|now: i64, failed: bool|
                final(self)@ == #[trigger] old(self)@.after(
                    Operation::Finish { id, now, failed },
                ),
            finished is Some <==> old(self)@.tasks.contains_key(id) && old(self)@.tasks[id].status
                == TaskStatus::Processing,
            finished matches Some(task) ==> {
                &&& task@ == final(self)@.tasks[id]
                &&& task.status == TaskStatus::Completed || task.status == TaskStatus::Failed
                &&& final(self)@.announced == old(self)@.announced.push((id, task@))
                &&& final(self)@.counters.processing == old(self)@.counters.processing - 1
                &&& final(self)@.counters.pending == old(self)@.counters.pending
                &&& final(self)@.counters.cancelled == old(self)@.counters.cancelled
                &&& final(self)@.counters.total_tasks == old(self)@.counters.total_tasks
                &&& task.status == TaskStatus::Failed ==> {
                    &&& final(self)@.counters.failed == old(self)@.counters.failed + 1
                    &&& final(self)@.counters.completed == old(self)@.counters.completed
                    &&& final(self)@.counters.completed_count
                        == old(self)@.counters.completed_count
                    &&& final(self)@.counters.total_processing_time_ms
                        == old(self)@.counters.total_processing_time_ms
                }
                &&& task.status == TaskStatus::Completed ==> {
                    &&& final(self)@.counters.completed == old(self)@.counters.completed + 1
                    &&& final(self)@.counters.failed == old(self)@.counters.failed
                    &&& final(self)@.counters.completed_count
                        == old(self)@.counters.completed_count + 1
                    &&& task.completed_at matches Some(ended)
                    &&& final(self)@.counters.total_processing_time_ms
                        == old(self)@.counters.total_processing_time_ms.wrapping_add(
                        old(self)@.tasks[id].elapsed_ms(ended),
                    )
                }
            },
            finished is None ==> final(self)@ == old(self)@,
    {
        let now = now_millis();
        let failed = random_ratio(1, FAILURE_ODDS);
        self.finish_processing_at(id, now, failed)
    }

    /// The work on task `id` ends at time `now`, with a failure or without.
    /// A Processing task becomes Failed, with the fixed failure message, or
    /// Completed, with its processing time added to the sum; one unit moves
    /// from the processing counter to the failed or the completed one; and
    /// the snapshot that was announced is returned. A task that was
    /// cancelled meanwhile stays Cancelled: no counter moves and nothing is
    /// announced. The same holds for any other task and for an unknown
    /// identifier.
    pub fn finish_processing_at(&mut self, id: u128, now: i64, failed: bool) -> (finished: Option<
        Task,
    >)
        requires
            old(self)@.well_formed(),
        ensures
            final(self)@.well_formed(),
            old(self)@.may_become(final(self)@),
            final(self)@ == old(self)@.finished(id, now, failed),
            final(self)@ == old(self)@.after(Operation::Finish { id, now, failed }),
            final(self)@.tasks.dom() == old(self)@.tasks.dom(),
            finished is Some <==> old(self)@.tasks.contains_key(id) && old(self)@.tasks[id].status
                == TaskStatus::Processing,
            finished matches Some(task) ==> {
                &&& task@ == final(self)@.tasks[id]
                &&& task@ == (if failed {
                    old(self)@.tasks[id].failed(failure_message(), now)
                } else {
                    old(self)@.tasks[id].completed(now)
                })
                &&& final(self)@.announced == old(self)@.announced.push((id, task@))
                &&& final(self)@.counters.processing == old(self)@.counters.processing - 1
                &&& failed ==> final(self)@.counters.failed == old(self)@.counters.failed + 1
                &&& !failed ==> {
                    &&& final(self)@.counters.completed == old(self)@.counters.completed + 1
                    &&& final(self)@.counters.completed_count
                        == old(self)@.counters.completed_count + 1
                    &&& final(self)@.counters.total_processing_time_ms
                        == old(self)@.counters.total_processing_time_ms.wrapping_add(
                        old(self)@.tasks[id].elapsed_ms(now),
                    )
                }
            },
            finished is None ==> final(self)@ == old(self)@,
    {
        proof {
            self.lemma_same_ids();
            lemma_finished_well_formed(old(self)@, id, now, failed);
        }
        let mut task = match self.tasks.get(&id) {
            Some(stored) => stored.clone(),
            None => {
                return None;
            },
        };
        if task.status != TaskStatus::Processing {
            return None;
        }
        let processing_time = task.processing_time_at(now);
        if failed {
            task.mark_as_failed_at("Erro aleatório durante processamento".to_string(), now);
            self.tasks.insert(id, task.clone());
            self.stats.increment_failed();
        } else {
            task.mark_as_completed_at(now);
            self.tasks.insert(id, task.clone());
            self.stats.increment_completed(processing_time);
        }
        proof {
            lemma_views_after_write(old(self).tasks@, id, task);
        }
        self.bus.publish(id, task.clone());
        Some(task)
    }
}

impl Default for TaskProcessor {
    fn default() -> (processor: TaskProcessor)
        ensures
            processor@ == EngineState::empty(processor@.channel),
            processor@.well_formed(),
    {
        TaskProcessor::new()
    }
}

} // verus!
