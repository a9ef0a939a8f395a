//! The task record with its lifecycle, the request that creates one, and the
//! counters that follow every transition.

use crate::runtime::{now_millis, random_task_id};
use vstd::prelude::*;

verus! {

/// Where a task stands in its lifecycle.
#[derive(Debug, Clone, Copy, PartialEq, Eq, Structural)]
pub enum TaskStatus {
    Pending,
    Processing,
    Completed,
    Failed,
    Cancelled,
}

impl TaskStatus {
    /// Completed, Failed and Cancelled are terminal: no edge leaves them.
    pub open spec fn is_terminal(self) -> bool {
        self == TaskStatus::Completed || self == TaskStatus::Failed || self
            == TaskStatus::Cancelled
    }

    /// The five edges of the lifecycle.
    pub open spec fn can_step_to(self, next: TaskStatus) -> bool {
        ||| self == TaskStatus::Pending && next == TaskStatus::Processing
        ||| self == TaskStatus::Pending && next == TaskStatus::Cancelled
        ||| self == TaskStatus::Processing && next == TaskStatus::Completed
        ||| self == TaskStatus::Processing && next == TaskStatus::Failed
        ||| self == TaskStatus::Processing && next == TaskStatus::Cancelled
    }

    /// What one operation may do to a status: leave it, or follow one edge.
    pub open spec fn may_become(self, next: TaskStatus) -> bool {
        self == next || self.can_step_to(next)
    }

    /// The statuses that any number of edges lead to, the status itself
    /// included.
    pub open spec fn can_reach(self, later: TaskStatus) -> bool {
        ||| self == later
        ||| self == TaskStatus::Pending
        ||| self == TaskStatus::Processing && later.is_terminal()
    }
}

/// How urgent a task is. It decides only the order in which a dispatch tick
/// waits for the work it launched.
#[derive(Debug, Clone, Copy, PartialEq, Eq, Structural)]
pub enum TaskPriority {
    Low,
    Medium,
    High,
}

impl TaskPriority {
    /// High ranks above Medium, Medium above Low.
    pub open spec fn rank(self) -> int {
        match self {
            TaskPriority::High => 3,
            TaskPriority::Medium => 2,
            TaskPriority::Low => 1,
        }
    }

    /// The rank as a number: 3 for High, 2 for Medium, 1 for Low.
    pub fn score(&self) -> (score: i32)
        ensures
            score == self.rank(),
    {
        match self {
            TaskPriority::High => 3,
            TaskPriority::Medium => 2,
            TaskPriority::Low => 1,
        }
    }
}

/// The message a task carries when its simulated work fails.
pub open spec fn failure_message() -> Seq<char> {
    "Erro aleatório durante processamento"@
}

/// Milliseconds from `started` to `now`, as an unsigned 64-bit number. A
/// clock that ran backwards gives the difference modulo 2^64.
pub open spec fn elapsed_between(started: i64, now: i64) -> u64 {
    if now >= started {
        (now - started) as u64
    } else {
        (now - started + 0x1_0000_0000_0000_0000) as u64
    }
}

/// One unit of work. Timestamps are milliseconds since the Unix epoch.
#[derive(Debug)]
pub struct Task {
    pub id: u128,
    pub name: String,
    pub status: TaskStatus,
    pub priority: TaskPriority,
    pub duration_ms: u64,
    pub created_at: i64,
    pub started_at: Option<i64>,
    pub completed_at: Option<i64>,
    pub error_message: Option<String>,
}

/// The mathematical content of a task: the same record, with its texts as
/// sequences of characters.
pub struct TaskView {
    pub id: u128,
    pub name: Seq<char>,
    pub status: TaskStatus,
    pub priority: TaskPriority,
    pub duration_ms: u64,
    pub created_at: i64,
    pub started_at: Option<i64>,
    pub completed_at: Option<i64>,
    pub error_message: Option<Seq<char>>,
}

impl View for Task {
    type V = TaskView;

    open spec fn view(&self) -> TaskView {
        TaskView {
            id: self.id,
            name: self.name@,
            status: self.status,
            priority: self.priority,
            duration_ms: self.duration_ms,
            created_at: self.created_at,
            started_at: self.started_at,
            completed_at: self.completed_at,
            error_message: match self.error_message {
                Some(message) => Some(message@),
                None => None,
            },
        }
    }
}

impl Clone for Task {
    /// A snapshot: an independent copy that equals the task field by field.
    fn clone(&self) -> (copy: Self)
        ensures
            copy == *self,
    {
        Task {
            id: self.id,
            name: self.name.clone(),
            status: self.status,
            priority: self.priority,
            duration_ms: self.duration_ms,
            created_at: self.created_at,
            started_at: self.started_at,
            completed_at: self.completed_at,
            error_message: match &self.error_message {
                Some(message) => Some(message.clone()),
                None => None,
            },
        }
    }
}

impl TaskView {
    /// A task as it is created: Pending, never started, never finished.
    pub open spec fn pending(
        id: u128,
        created_at: i64,
        name: Seq<char>,
        duration_ms: u64,
        priority: TaskPriority,
    ) -> TaskView {
        TaskView {
            id,
            name,
            status: TaskStatus::Pending,
            priority,
            duration_ms,
            created_at,
            started_at: None,
            completed_at: None,
            error_message: None,
        }
    }

    /// The status agrees with the rest of the record: `started_at` is set
    /// on entering Processing, `completed_at` on entering a terminal status,
    /// `error_message` only on Failed.
    pub open spec fn well_formed(self) -> bool {
        match self.status {
            TaskStatus::Pending => self.started_at is None && self.completed_at is None
                && self.error_message is None,
            TaskStatus::Processing => self.started_at is Some && self.completed_at is None
                && self.error_message is None,
            TaskStatus::Completed => self.started_at is Some && self.completed_at is Some
                && self.error_message is None,
            TaskStatus::Failed => self.started_at is Some && self.completed_at is Some
                && self.error_message is Some,
            TaskStatus::Cancelled => self.completed_at is Some && self.error_message is None,
        }
    }

    /// Pending → Processing at time `now`; any other task is left as it is.
    pub open spec fn begun(self, now: i64) -> TaskView {
        if self.status == TaskStatus::Pending {
            TaskView { status: TaskStatus::Processing, started_at: Some(now), ..self }
        } else {
            self
        }
    }

    /// Processing → Completed at time `now`; any other task is left as it
    /// is.
    pub open spec fn completed(self, now: i64) -> TaskView {
        if self.status == TaskStatus::Processing {
            TaskView { status: TaskStatus::Completed, completed_at: Some(now), ..self }
        } else {
            self
        }
    }

    /// Processing → Failed at time `now`, with `error` as the message; any
    /// other task is left as it is.
    pub open spec fn failed(self, error: Seq<char>, now: i64) -> TaskView {
        if self.status == TaskStatus::Processing {
            TaskView {
                status: TaskStatus::Failed,
                completed_at: Some(now),
                error_message: Some(error),
                ..self
            }
        } else {
            self
        }
    }

    /// Pending or Processing → Cancelled at time `now`; a finished task is
    /// left as it is.
    pub open spec fn cancelled(self, now: i64) -> TaskView {
        if self.status == TaskStatus::Pending || self.status == TaskStatus::Processing {
            TaskView { status: TaskStatus::Cancelled, completed_at: Some(now), ..self }
        } else {
            self
        }
    }

    /// How long the task has been running at time `now`: the time since
    /// `started_at`, or the task's own budget where it never started.
    pub open spec fn elapsed_ms(self, now: i64) -> u64 {
        match self.started_at {
            Some(started) => elapsed_between(started, now),
            None => self.duration_ms,
        }
    }

    /// What never changes in a task's life stays, the status follows at
    /// most one edge, and a timestamp that was set is kept.
    pub open spec fn may_become(self, next: TaskView) -> bool {
        &&& next.id == self.id
        &&& next.name == self.name
        &&& next.priority == self.priority
        &&& next.duration_ms == self.duration_ms
        &&& next.created_at == self.created_at
        &&& self.status.may_become(next.status)
        &&& self.started_at is Some ==> next.started_at == self.started_at
        &&& self.completed_at is Some ==> next.completed_at == self.completed_at
    }
}

impl Task {
    /// A new Pending task with a random identifier, created now. Everything
    /// but the identifier and the creation time is fixed by the arguments.
    pub fn new(name: String, duration_ms: u64, priority: TaskPriority) -> (task: Task)
        ensures
            task@ == TaskView::pending(task.id, task.created_at, name@, duration_ms, priority),
    {
        let id = random_task_id();
        let now = now_millis();
        Task::new_at(id, now, name, duration_ms, priority)
    }

    /// A new Pending task with the given identifier and creation time.
    pub fn new_at(
        id: u128,
        created_at: i64,
        name: String,
        duration_ms: u64,
        priority: TaskPriority,
    ) -> (task: Task)
        ensures
            task@ == TaskView::pending(id, created_at, name@, duration_ms, priority),
    {
        Task {
            id,
            name,
            status: TaskStatus::Pending,
            priority,
            duration_ms,
            created_at,
            started_at: None,
            completed_at: None,
            error_message: None,
        }
    }

    /// Starts a Pending task at the current time; see `mark_as_processing_at`.
    pub fn mark_as_processing(&mut self)
        ensures
            exists|now: i64| final(self)@ == #[trigger] old(self)@.begun(now),
            old(self).status.may_become(final(self).status),
            old(self)@.well_formed() ==> final(self)@.well_formed() && old(self)@.may_become(
                final(self)@,
            ),
    {
        let now = now_millis();
        self.mark_as_processing_at(now);
    }

    /// Pending → Processing, recording `now` as the start. A task in any
    /// other status is left untouched, so the start is recorded once.
    pub fn mark_as_processing_at(&mut self, now: i64)
        ensures
            final(self)@ == old(self)@.begun(now),
            old(self).status.may_become(final(self).status),
            old(self)@.well_formed() ==> final(self)@.well_formed() && old(self)@.may_become(
                final(self)@,
            ),
    {
        if self.status == TaskStatus::Pending {
            self.status = TaskStatus::Processing;
            self.started_at = Some(now);
        }
    }

    /// Completes a Processing task at the current time; see
    /// `mark_as_completed_at`.
    pub fn mark_as_completed(&mut self)
        ensures
            exists|now: i64| final(self)@ == #[trigger] old(self)@.completed(now),
            old(self).status.may_become(final(self).status),
            old(self)@.well_formed() ==> final(self)@.well_formed() && old(self)@.may_become(
                final(self)@,
            ),
    {
        let now = now_millis();
        self.mark_as_completed_at(now);
    }

    /// Processing → Completed, recording `now` as the end. A task in any
    /// other status is left untouched.
    pub fn mark_as_completed_at(&mut self, now: i64)
        ensures
            final(self)@ == old(self)@.completed(now),
            old(self).status.may_become(final(self).status),
            old(self)@.well_formed() ==> final(self)@.well_formed() && old(self)@.may_become(
                final(self)@,
            ),
    {
        if self.status == TaskStatus::Processing {
            self.status = TaskStatus::Completed;
            self.completed_at = Some(now);
        }
    }

    /// Fails a Processing task at the current time; see `mark_as_failed_at`.
    pub fn mark_as_failed(&mut self, error: String)
        ensures
            exists|now: i64| final(self)@ == #[trigger] old(self)@.failed(error@, now),
            old(self).status.may_become(final(self).status),
            old(self)@.well_formed() ==> final(self)@.well_formed() && old(self)@.may_become(
                final(self)@,
            ),
    {
        let now = now_millis();
        self.mark_as_failed_at(error, now);
    }

    /// Processing → Failed, recording `now` as the end and `error` as the
    /// message. A task in any other status is left untouched.
    pub fn mark_as_failed_at(&mut self, error: String, now: i64)
        ensures
            final(self)@ == old(self)@.failed(error@, now),
            old(self).status.may_become(final(self).status),
            old(self)@.well_formed() ==> final(self)@.well_formed() && old(self)@.may_become(
                final(self)@,
            ),
    {
        if self.status == TaskStatus::Processing {
            self.status = TaskStatus::Failed;
            self.completed_at = Some(now);
            self.error_message = Some(error);
        }
    }

    /// Cancels an unfinished task at the current time; see
    /// `mark_as_cancelled_at`.
    pub fn mark_as_cancelled(&mut self)
        ensures
            exists|now: i64| final(self)@ == #[trigger] old(self)@.cancelled(now),
            old(self).status.may_become(final(self).status),
            old(self)@.well_formed() ==> final(self)@.well_formed() && old(self)@.may_become(
                final(self)@,
            ),
    {
        let now = now_millis();
        self.mark_as_cancelled_at(now);
    }

    /// Pending or Processing → Cancelled, recording `now` as the end. A
    /// finished task is left untouched.
    pub fn mark_as_cancelled_at(&mut self, now: i64)
        ensures
            final(self)@ == old(self)@.cancelled(now),
            old(self).status.may_become(final(self).status),
            old(self)@.well_formed() ==> final(self)@.well_formed() && old(self)@.may_become(
                final(self)@,
            ),
    {
        if self.status == TaskStatus::Pending || self.status == TaskStatus::Processing {
            self.status = TaskStatus::Cancelled;
            self.completed_at = Some(now);
        }
    }

    /// The time the task has been running at `now`, in milliseconds.
    pub fn processing_time_at(&self, now: i64) -> (elapsed: u64)
        ensures
            elapsed == self@.elapsed_ms(now),
    {
        match self.started_at {
            Some(started) => {
                let difference: i128 = now as i128 - started as i128;
                if difference >= 0 {
                    difference as u64
                } else {
                    (difference + 0x1_0000_0000_0000_0000) as u64
                }
            },
            None => self.duration_ms,
        }
    }
}

/// Why a request to create a task is turned down.
#[derive(Debug, Clone, Copy, PartialEq, Eq, Structural)]
pub enum ValidationError {
    /// The name is the empty string.
    EmptyName,
    /// The duration is zero.
    ZeroDuration,
}

/// The fault in a name and a duration, if there is one. The name is looked at
/// first.
pub open spec fn validation_error(name: Seq<char>, duration_ms: u64) -> Option<ValidationError> {
    if name.len() == 0 {
        Some(ValidationError::EmptyName)
    } else if duration_ms == 0 {
        Some(ValidationError::ZeroDuration)
    } else {
        None
    }
}

impl ValidationError {
    /// The text shown to a client.
    pub open spec fn text(self) -> Seq<char> {
        match self {
            ValidationError::EmptyName => "Nome da tarefa não pode estar vazio"@,
            ValidationError::ZeroDuration => "Duração deve ser maior que zero"@,
        }
    }

    /// The text shown to a client.
    pub fn message(&self) -> (message: String)
        ensures
            message@ == self.text(),
    {
        match self {
            ValidationError::EmptyName => "Nome da tarefa não pode estar vazio".to_string(),
            ValidationError::ZeroDuration => "Duração deve ser maior que zero".to_string(),
        }
    }
}

/// What a client sends to have a task created.
#[derive(Debug)]
pub struct CreateTaskRequest {
    pub name: String,
    pub duration_ms: u64,
    pub priority: TaskPriority,
}

impl Clone for CreateTaskRequest {
    fn clone(&self) -> (copy: Self)
        ensures
            copy == *self,
    {
        CreateTaskRequest {
            name: self.name.clone(),
            duration_ms: self.duration_ms,
            priority: self.priority,
        }
    }
}

impl CreateTaskRequest {
    /// Accepts a request with a non-empty name and a duration above zero,
    /// and names the fault of any other.
    pub fn validate(&self) -> (verdict: Result<(), ValidationError>)
        ensures
            verdict == match validation_error(self.name@, self.duration_ms) {
                Some(error) => Err::<(), ValidationError>(error),
                None => Ok::<(), ValidationError>(()),
            },
    {
        check_task_input(&self.name, self.duration_ms)
    }
}

/// Accepts a non-empty name with a duration above zero, and names the fault
/// of any other pair.
pub fn check_task_input(name: &String, duration_ms: u64) -> (verdict: Result<(), ValidationError>)
    ensures
        verdict == match validation_error(name@, duration_ms) {
            Some(error) => Err::<(), ValidationError>(error),
            None => Ok::<(), ValidationError>(()),
        },
{
    if name.as_str().is_empty() {
        Err(ValidationError::EmptyName)
    } else if duration_ms == 0 {
        Err(ValidationError::ZeroDuration)
    } else {
        Ok(())
    }
}

/// The mathematical content of the counters. Every counter is a 64-bit
/// number that wraps around, so each update below is total.
pub struct Counters {
    pub total_tasks: u64,
    pub pending: u64,
    pub processing: u64,
    pub completed: u64,
    pub failed: u64,
    pub cancelled: u64,
    pub total_processing_time_ms: u64,
    pub completed_count: u64,
}

impl Counters {
    /// All counters at zero.
    pub open spec fn zero() -> Counters {
        Counters {
            total_tasks: 0,
            pending: 0,
            processing: 0,
            completed: 0,
            failed: 0,
            cancelled: 0,
            total_processing_time_ms: 0,
            completed_count: 0,
        }
    }

    pub open spec fn total_incremented(self) -> Counters {
        Counters { total_tasks: self.total_tasks.wrapping_add(1), ..self }
    }

    pub open spec fn pending_incremented(self) -> Counters {
        Counters { pending: self.pending.wrapping_add(1), ..self }
    }

    /// A task left Pending for Processing.
    pub open spec fn processing_incremented(self) -> Counters {
        Counters {
            processing: self.processing.wrapping_add(1),
            pending: self.pending.wrapping_sub(1),
            ..self
        }
    }

    /// A task left Processing for Completed after `processing_time_ms`.
    pub open spec fn completed_incremented(self, processing_time_ms: u64) -> Counters {
        Counters {
            completed: self.completed.wrapping_add(1),
            processing: self.processing.wrapping_sub(1),
            total_processing_time_ms: self.total_processing_time_ms.wrapping_add(
                processing_time_ms,
            ),
            completed_count: self.completed_count.wrapping_add(1),
            ..self
        }
    }

    /// A task left Processing for Failed.
    pub open spec fn failed_incremented(self) -> Counters {
        Counters {
            failed: self.failed.wrapping_add(1),
            processing: self.processing.wrapping_sub(1),
            ..self
        }
    }

    /// A task was cancelled. No other counter moves: a task cancelled while
    /// Processing goes on counting as processing.
    pub open spec fn cancelled_incremented(self) -> Counters {
        Counters { cancelled: self.cancelled.wrapping_add(1), ..self }
    }

    pub open spec fn pending_decremented(self) -> Counters {
        Counters { pending: self.pending.wrapping_sub(1), ..self }
    }

    /// The mean processing time of the completed tasks rounded down to
    /// whole milliseconds; 0 while nothing has completed. The mean itself
    /// is the fraction `total_processing_time_ms / completed_count`.
    pub open spec fn average_processing_time_floor_ms(self) -> u64 {
        if self.completed_count == 0 {
            0
        } else {
            self.total_processing_time_ms / self.completed_count
        }
    }

    /// The five status counters, added up.
    pub open spec fn status_sum(self) -> int {
        self.pending + self.processing + self.completed + self.failed + self.cancelled
    }

    /// `next` is `self` with each counter moved by the given amount, as
    /// whole numbers: nothing wrapped around. The count of completions
    /// moves with the completed counter.
    pub open spec fn changed_by(self, next: Counters, change: CounterChange) -> bool {
        &&& next.total_tasks == self.total_tasks + change.total_tasks
        &&& next.pending == self.pending + change.pending
        &&& next.processing == self.processing + change.processing
        &&& next.completed == self.completed + change.completed
        &&& next.failed == self.failed + change.failed
        &&& next.cancelled == self.cancelled + change.cancelled
        &&& next.completed_count == self.completed_count + change.completed
    }
}

/// By how much each counter moves in one operation.
pub struct CounterChange {
    pub total_tasks: int,
    pub pending: int,
    pub processing: int,
    pub completed: int,
    pub failed: int,
    pub cancelled: int,
}

impl CounterChange {
    /// No counter moves.
    pub open spec fn none() -> CounterChange {
        CounterChange {
            total_tasks: 0,
            pending: 0,
            processing: 0,
            completed: 0,
            failed: 0,
            cancelled: 0,
        }
    }
}

/// A snapshot of the counters. The mean processing time is given as the
/// sum and the count that it is the quotient of; beside them stands that
/// quotient rounded down to whole milliseconds.
#[derive(Debug, Clone, Copy, PartialEq, Eq, Structural)]
pub struct TaskStats {
    pub total_tasks: u64,
    pub pending: u64,
    pub processing: u64,
    pub completed: u64,
    pub failed: u64,
    pub cancelled: u64,
    pub average_processing_time_floor_ms: u64,
    pub total_processing_time_ms: u64,
    pub completed_count: u64,
}

impl TaskStats {
    /// The snapshot that shows the given counters.
    pub open spec fn of(counters: Counters) -> TaskStats {
        TaskStats {
            total_tasks: counters.total_tasks,
            pending: counters.pending,
            processing: counters.processing,
            completed: counters.completed,
            failed: counters.failed,
            cancelled: counters.cancelled,
            average_processing_time_floor_ms: counters.average_processing_time_floor_ms(),
            total_processing_time_ms: counters.total_processing_time_ms,
            completed_count: counters.completed_count,
        }
    }
}

/// Counters kept in step with the transitions of the tasks. They are updated
/// by a fixed protocol, one call per transition, never by scanning tasks.
#[derive(Debug)]
pub struct Stats {
    total_tasks: u64,
    pending: u64,
    processing: u64,
    completed: u64,
    failed: u64,
    cancelled: u64,
    total_processing_time_ms: u64,
    completed_count: u64,
}

impl View for Stats {
    type V = Counters;

    closed spec fn view(&self) -> Counters {
        Counters {
            total_tasks: self.total_tasks,
            pending: self.pending,
            processing: self.processing,
            completed: self.completed,
            failed: self.failed,
            cancelled: self.cancelled,
            total_processing_time_ms: self.total_processing_time_ms,
            completed_count: self.completed_count,
        }
    }
}

impl Stats {
    /// All counters at zero.
    pub fn new() -> (stats: Stats)
        ensures
            stats@ == Counters::zero(),
    {
        Stats {
            total_tasks: 0,
            pending: 0,
            processing: 0,
            completed: 0,
            failed: 0,
            cancelled: 0,
            total_processing_time_ms: 0,
            completed_count: 0,
        }
    }

    /// One more task was created.
    pub fn increment_total(&mut self)
        ensures
            final(self)@ == old(self)@.total_incremented(),
    {
        self.total_tasks = self.total_tasks.wrapping_add(1);
    }

    /// One more task is Pending.
    pub fn increment_pending(&mut self)
        ensures
            final(self)@ == old(self)@.pending_incremented(),
    {
        self.pending = self.pending.wrapping_add(1);
    }

    /// Pending → Processing: one more processing, one fewer pending.
    pub fn increment_processing(&mut self)
        ensures
            final(self)@ == old(self)@.processing_incremented(),
    {
        self.processing = self.processing.wrapping_add(1);
        self.pending = self.pending.wrapping_sub(1);
    }

    /// Processing → Completed: one more completed, one fewer processing,
    /// and the processing time joins the running sum.
    pub fn increment_completed(&mut self, processing_time_ms: u64)
        ensures
            final(self)@ == old(self)@.completed_incremented(processing_time_ms),
    {
        self.completed = self.completed.wrapping_add(1);
        self.processing = self.processing.wrapping_sub(1);
        self.total_processing_time_ms = self.total_processing_time_ms.wrapping_add(
            processing_time_ms,
        );
        self.completed_count = self.completed_count.wrapping_add(1);
    }

    /// Processing → Failed: one more failed, one fewer processing.
    pub fn increment_failed(&mut self)
        ensures
            final(self)@ == old(self)@.failed_incremented(),
    {
        self.failed = self.failed.wrapping_add(1);
        self.processing = self.processing.wrapping_sub(1);
    }

    /// One more task is Cancelled. The processing counter stays as it is.
    pub fn increment_cancelled(&mut self)
        ensures
            final(self)@ == old(self)@.cancelled_incremented(),
    {
        self.cancelled = self.cancelled.wrapping_add(1);
    }

    /// One fewer task is Pending.
    pub fn decrement_pending(&mut self)
        ensures
            final(self)@ == old(self)@.pending_decremented(),
    {
        self.pending = self.pending.wrapping_sub(1);
    }

    /// A snapshot of all counters, with the sum and the count of the
    /// completions and their mean rounded down: the greatest whole number
    /// of milliseconds that is not above the mean, and 0 while nothing has
    /// completed.
    pub fn get_stats(&self) -> (snapshot: TaskStats)
        ensures
            snapshot == TaskStats::of(self@),
            self@.completed_count == 0 ==> snapshot.average_processing_time_floor_ms == 0,
            self@.completed_count > 0 ==> {
                &&& snapshot.average_processing_time_floor_ms == self@.total_processing_time_ms
                    / self@.completed_count
                &&& snapshot.average_processing_time_floor_ms * self@.completed_count
                    <= self@.total_processing_time_ms
                &&& self@.total_processing_time_ms < (snapshot.average_processing_time_floor_ms
                    + 1) * self@.completed_count
            },
    {
        let average: u64 = if self.completed_count > 0 {
            self.total_processing_time_ms / self.completed_count
        } else {
            0
        };
        proof {
            let sum = self.total_processing_time_ms as int;
            let count = self.completed_count as int;
            if count > 0 {
                assert((sum / count) * count <= sum < (sum / count + 1) * count)
                    by (nonlinear_arith)
                    requires
                        count > 0,
                        sum >= 0,
                ;
            }
        }
        TaskStats {
            total_tasks: self.total_tasks,
            pending: self.pending,
            processing: self.processing,
            completed: self.completed,
            failed: self.failed,
            cancelled: self.cancelled,
            average_processing_time_floor_ms: average,
            total_processing_time_ms: self.total_processing_time_ms,
            completed_count: self.completed_count,
        }
    }
}

impl Default for Stats {
    fn default() -> (stats: Stats)
        ensures
            stats@ == Counters::zero(),
    {
        Stats::new()
    }
}

} // verus!
