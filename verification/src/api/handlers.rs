//! One function per request. Each takes the engine and plain values, and
//! answers with a value or with the status code and the text of a refusal.

use crate::history::Operation;
use crate::models::{
    validation_error, CreateTaskRequest, Task, TaskStats, TaskStatus, TaskView,
};
use crate::processor::TaskProcessor;
use crate::state::CancelError;
use vstd::prelude::*;

verus! {

/// The status code of a request that cannot be served as it stands.
pub const BAD_REQUEST: u16 = 400;

/// The status code of a request for something that does not exist.
pub const NOT_FOUND: u16 = 404;

/// A refusal: the status code and the text for the client.
#[derive(Debug)]
pub struct ApiError {
    pub status: u16,
    pub error: String,
}

/// The answer to a cancellation that was carried out.
#[derive(Debug)]
pub struct CancelReply {
    pub message: String,
    pub task_id: u128,
}

/// The answer to a health check.
#[derive(Debug)]
pub struct HealthReport {
    pub status: String,
    pub service: String,
}

/// The text that confirms a cancellation.
pub open spec fn cancelled_text() -> Seq<char> {
    "Tarefa cancelada com sucesso"@
}

/// Reports that the service is up, under its name.
pub fn health_check() -> (report: HealthReport)
    ensures
        report.status@ == "healthy"@,
        report.service@ == "task-processor"@,
{
    HealthReport { status: "healthy".to_string(), service: "task-processor".to_string() }
}

/// Creates the task that the request describes. A request with an empty
/// name or with a zero duration is refused with `BAD_REQUEST` and the text
/// of its fault, before the engine is touched.
pub fn create_task(processor: &mut TaskProcessor, request: CreateTaskRequest) -> (outcome: Result<
    Task,
    ApiError,
>)
    requires
        old(processor)@.well_formed(),
    ensures
        final(processor)@.well_formed(),
        old(processor)@.may_become(final(processor)@),
        match outcome {
            Ok(task) => {
                &&& validation_error(request.name@, request.duration_ms) is None
                &&& !old(processor)@.tasks.contains_key(task.id)
                &&& task@ == TaskView::pending(
                    task.id,
                    task.created_at,
                    request.name@,
                    request.duration_ms,
                    request.priority,
                )
                &&& final(processor)@ == old(processor)@.created(task@)
            },
            Err(refusal) => {
                &&& validation_error(request.name@, request.duration_ms) matches Some(fault)
                &&& refusal.status == BAD_REQUEST
                &&& refusal.error@ == fault.text()
                &&& final(processor)@ == old(processor)@
            },
        },
{
    match request.validate() {
        Err(fault) => Err(ApiError { status: BAD_REQUEST, error: fault.message() }),
        Ok(_) => match processor.create_task(request.name, request.duration_ms, request.priority) {
            Ok(task) => Ok(task),
            Err(fault) => Err(ApiError { status: BAD_REQUEST, error: fault.message() }),
        },
    }
}

/// A snapshot of task `id`. An unknown identifier is refused with
/// `NOT_FOUND`.
pub fn get_task(processor: &TaskProcessor, id: u128) -> (outcome: Result<Task, ApiError>)
    ensures
        match outcome {
            Ok(task) => processor@.tasks.contains_key(id) && task@ == processor@.tasks[id],
            Err(refusal) => {
                &&& !processor@.tasks.contains_key(id)
                &&& refusal.status == NOT_FOUND
                &&& refusal.error@ == CancelError::NotFound.text()
            },
        },
{
    match processor.get_task(id) {
        Some(task) => Ok(task),
        None => Err(ApiError { status: NOT_FOUND, error: CancelError::NotFound.message() }),
    }
}

/// Snapshots of all tasks, each once, in no particular order.
pub fn list_tasks(processor: &TaskProcessor) -> (listed: Vec<Task>)
    requires
        processor@.well_formed(),
    ensures
        listed@.len() == processor@.tasks.len(),
        forall|i: int|
            0 <= i < listed@.len() ==> processor@.tasks.contains_key(#[trigger] listed@[i].id)
                && listed@[i]@ == processor@.tasks[listed@[i].id],
        forall|i: int, j: int| 0 <= i < j < listed@.len() ==> listed@[i].id != listed@[j].id,
{
    processor.list_tasks()
}

/// Cancels task `id` now. An unknown identifier and a task that has
/// already finished are both refused with `BAD_REQUEST` and the text of the
/// reason, and change nothing.
pub fn cancel_task(processor: &mut TaskProcessor, id: u128) -> (outcome: Result<
    CancelReply,
    ApiError,
>)
    requires
        old(processor)@.well_formed(),
    ensures
        final(processor)@.well_formed(),
        old(processor)@.may_become(final(processor)@),
        exists|now: i64|
            final(processor)@ == #[trigger] old(processor)@.after(Operation::Cancel { id, now }),
        match outcome {
            Ok(reply) => {
                &&& old(processor)@.cancel_error(id) is None
                &&& final(processor)@.tasks[id].status == TaskStatus::Cancelled
                &&& reply.task_id == id
                &&& reply.message@ == cancelled_text()
            },
            Err(refusal) => {
                &&& old(processor)@.cancel_error(id) matches Some(reason)
                &&& refusal.status == BAD_REQUEST
                &&& refusal.error@ == reason.text()
                &&& final(processor)@ == old(processor)@
            },
        },
{
    match processor.cancel_task(id) {
        Ok(_) => Ok(
            CancelReply { message: "Tarefa cancelada com sucesso".to_string(), task_id: id },
        ),
        Err(message) => Err(ApiError { status: BAD_REQUEST, error: message }),
    }
}

/// A snapshot of the counters.
pub fn get_stats(processor: &TaskProcessor) -> (snapshot: TaskStats)
    ensures
        snapshot == TaskStats::of(processor@.counters),
        processor@.well_formed() ==> snapshot.total_tasks == processor@.tasks.len(),
{
    processor.get_stats()
}

} // verus!
