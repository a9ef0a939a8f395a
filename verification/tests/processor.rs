use task_processor::models::{TaskPriority, TaskStatus, ValidationError};
use task_processor::processor::TaskProcessor;
use task_processor::state::CancelError;

#[test]
fn test_create_task() {
    let mut processor = TaskProcessor::new();
    let task = processor
        .create_task("Test Task".to_string(), 1000, TaskPriority::High)
        .expect("a named task with a duration is accepted");

    assert_eq!(task.name, "Test Task");
    assert_eq!(task.status, TaskStatus::Pending);
    assert_eq!(task.priority, TaskPriority::High);

    let retrieved = processor.get_task(task.id);
    assert!(retrieved.is_some());
    assert_eq!(retrieved.unwrap().name, "Test Task");
}

#[test]
fn test_list_tasks() {
    let mut processor = TaskProcessor::new();

    processor.create_task("Task 1".to_string(), 1000, TaskPriority::Low).unwrap();
    processor.create_task("Task 2".to_string(), 2000, TaskPriority::Medium).unwrap();

    let tasks = processor.list_tasks();
    assert_eq!(tasks.len(), 2);
}

#[test]
fn test_cancel_task() {
    let mut processor = TaskProcessor::new();
    let task = processor
        .create_task("Task to cancel".to_string(), 1000, TaskPriority::Low)
        .unwrap();

    let result = processor.cancel_task(task.id);
    assert!(result.is_ok());

    let cancelled_task = processor.get_task(task.id).unwrap();
    assert_eq!(cancelled_task.status, TaskStatus::Cancelled);
}

#[test]
fn processor_test_stats() {
    let mut processor = TaskProcessor::new();

    processor.create_task("Task 1".to_string(), 1000, TaskPriority::High).unwrap();
    processor.create_task("Task 2".to_string(), 2000, TaskPriority::Medium).unwrap();

    let stats = processor.get_stats();
    assert_eq!(stats.total_tasks, 2);
    assert_eq!(stats.pending, 2);
}

#[test]
fn new_engine_is_empty() {
    let processor = TaskProcessor::new();
    assert!(processor.list_tasks().is_empty());
    assert!(processor.pending_tasks().is_empty());
    let stats = processor.get_stats();
    assert_eq!(stats.total_tasks, 0);
    assert_eq!(stats.pending, 0);
    assert_eq!(stats.processing, 0);
    assert_eq!(stats.completed, 0);
    assert_eq!(stats.failed, 0);
    assert_eq!(stats.cancelled, 0);
    assert_eq!(stats.average_processing_time_floor_ms, 0);
}

#[test]
fn default_engine_is_empty() {
    let processor = TaskProcessor::default();
    assert!(processor.list_tasks().is_empty());
    assert_eq!(processor.get_stats().total_tasks, 0);
}

#[test]
fn created_task_is_pending_and_untouched() {
    let mut processor = TaskProcessor::new();
    let task = processor.create_task_at(42, 1_000, "a".to_string(), 500, TaskPriority::Medium).unwrap();
    assert_eq!(task.id, 42);
    assert_eq!(task.name, "a");
    assert_eq!(task.status, TaskStatus::Pending);
    assert_eq!(task.priority, TaskPriority::Medium);
    assert_eq!(task.duration_ms, 500);
    assert_eq!(task.created_at, 1_000);
    assert_eq!(task.started_at, None);
    assert_eq!(task.completed_at, None);
    assert_eq!(task.error_message, None);
}

#[test]
fn empty_name_is_rejected_and_creates_nothing() {
    let mut processor = TaskProcessor::new();
    let outcome = processor.create_task("".to_string(), 500, TaskPriority::Low);
    assert_eq!(outcome.unwrap_err(), ValidationError::EmptyName);
    assert!(processor.list_tasks().is_empty());
    assert_eq!(processor.get_stats().total_tasks, 0);
    assert_eq!(processor.get_stats().pending, 0);
}

#[test]
fn zero_duration_is_rejected_and_creates_nothing() {
    let mut processor = TaskProcessor::new();
    let outcome = processor.create_task("x".to_string(), 0, TaskPriority::Low);
    assert_eq!(outcome.unwrap_err(), ValidationError::ZeroDuration);
    assert!(processor.list_tasks().is_empty());
    assert_eq!(processor.get_stats().total_tasks, 0);
    assert_eq!(processor.get_stats().pending, 0);
}

#[test]
fn empty_name_is_reported_before_zero_duration() {
    let mut processor = TaskProcessor::new();
    let outcome = processor.create_task_at(1, 0, "".to_string(), 0, TaskPriority::Low);
    assert_eq!(outcome.unwrap_err(), ValidationError::EmptyName);
}

#[test]
fn rejected_request_publishes_nothing() {
    let mut processor = TaskProcessor::new();
    let mut observer = processor.subscribe();
    assert!(processor.create_task("".to_string(), 500, TaskPriority::Low).is_err());
    assert!(observer.try_recv().is_err());
}

#[test]
fn random_identifiers_differ() {
    let mut processor = TaskProcessor::new();
    let first = processor.create_task("one".to_string(), 10, TaskPriority::Low).unwrap();
    let second = processor.create_task("two".to_string(), 10, TaskPriority::Low).unwrap();
    let third = processor.create_task("three".to_string(), 10, TaskPriority::Low).unwrap();
    assert_ne!(first.id, second.id);
    assert_ne!(first.id, third.id);
    assert_ne!(second.id, third.id);
    assert_eq!(processor.list_tasks().len(), 3);
}

#[test]
fn creation_time_is_read_from_the_clock() {
    let mut processor = TaskProcessor::new();
    let task = processor.create_task("timed".to_string(), 10, TaskPriority::Low).unwrap();
    // 1 January 2020, in milliseconds since the epoch.
    assert!(task.created_at > 1_577_836_800_000);
}

#[test]
fn taken_identifier_moves_to_the_next_free_one() {
    let mut processor = TaskProcessor::new();
    let first = processor.create_task_at(7, 0, "a".to_string(), 1, TaskPriority::Low).unwrap();
    let second = processor.create_task_at(7, 0, "b".to_string(), 1, TaskPriority::Low).unwrap();
    let third = processor.create_task_at(7, 0, "c".to_string(), 1, TaskPriority::Low).unwrap();
    let fourth = processor.create_task_at(8, 0, "d".to_string(), 1, TaskPriority::Low).unwrap();
    assert_eq!(first.id, 7);
    assert_eq!(second.id, 8);
    assert_eq!(third.id, 9);
    assert_eq!(fourth.id, 10);
    assert_eq!(processor.get_task(7).unwrap().name, "a");
    assert_eq!(processor.get_task(8).unwrap().name, "b");
    assert_eq!(processor.get_task(9).unwrap().name, "c");
    assert_eq!(processor.get_task(10).unwrap().name, "d");
    assert_eq!(processor.get_stats().total_tasks, 4);
}

#[test]
fn identifier_search_wraps_around() {
    let mut processor = TaskProcessor::new();
    let last = processor.create_task_at(u128::MAX, 0, "a".to_string(), 1, TaskPriority::Low).unwrap();
    let wrapped = processor.create_task_at(u128::MAX, 0, "b".to_string(), 1, TaskPriority::Low).unwrap();
    assert_eq!(last.id, u128::MAX);
    assert_eq!(wrapped.id, 0);
}

#[test]
fn get_task_of_unknown_identifier_is_none() {
    let mut processor = TaskProcessor::new();
    processor.create_task_at(1, 0, "a".to_string(), 1, TaskPriority::Low).unwrap();
    assert!(processor.get_task(2).is_none());
}

#[test]
fn list_holds_every_task_once() {
    let mut processor = TaskProcessor::new();
    for id in 0..20u128 {
        processor.create_task_at(id, 0, format!("task {}", id), 1, TaskPriority::Low).unwrap();
    }
    let mut ids: Vec<u128> = processor.list_tasks().iter().map(|task| task.id).collect();
    ids.sort();
    let expected: Vec<u128> = (0..20u128).collect();
    assert_eq!(ids, expected);
}

#[test]
fn snapshots_are_independent_copies() {
    let mut processor = TaskProcessor::new();
    let mut snapshot = processor.create_task_at(1, 0, "a".to_string(), 1, TaskPriority::Low).unwrap();
    snapshot.name = "changed".to_string();
    snapshot.status = TaskStatus::Completed;
    let stored = processor.get_task(1).unwrap();
    assert_eq!(stored.name, "a");
    assert_eq!(stored.status, TaskStatus::Pending);
}

#[test]
fn cancel_pending_moves_one_unit_from_pending_to_cancelled() {
    let mut processor = TaskProcessor::new();
    processor.create_task_at(1, 0, "a".to_string(), 1, TaskPriority::Low).unwrap();
    processor.create_task_at(2, 0, "b".to_string(), 1, TaskPriority::Low).unwrap();
    let before = processor.get_stats();
    let cancelled = processor.cancel_task_at(1, 77).unwrap();
    let after = processor.get_stats();
    assert_eq!(cancelled.status, TaskStatus::Cancelled);
    assert_eq!(cancelled.completed_at, Some(77));
    assert_eq!(cancelled.started_at, None);
    assert_eq!(processor.get_task(1).unwrap().status, TaskStatus::Cancelled);
    assert_eq!(after.pending, before.pending - 1);
    assert_eq!(after.cancelled, before.cancelled + 1);
    assert_eq!(after.processing, before.processing);
    assert_eq!(after.total_tasks, before.total_tasks);
}

#[test]
fn cancel_processing_leaves_the_processing_counter() {
    let mut processor = TaskProcessor::new();
    processor.create_task_at(1, 0, "a".to_string(), 1, TaskPriority::Low).unwrap();
    processor.begin_processing_at(1, 10).unwrap();
    let before = processor.get_stats();
    assert_eq!(before.processing, 1);
    let cancelled = processor.cancel_task_at(1, 20).unwrap();
    let after = processor.get_stats();
    assert_eq!(cancelled.status, TaskStatus::Cancelled);
    assert_eq!(cancelled.started_at, Some(10));
    assert_eq!(cancelled.completed_at, Some(20));
    assert_eq!(after.cancelled, before.cancelled + 1);
    assert_eq!(after.processing, before.processing);
    assert_eq!(after.pending, before.pending);
}

#[test]
fn cancel_unknown_identifier_is_not_found() {
    let mut processor = TaskProcessor::new();
    processor.create_task_at(1, 0, "a".to_string(), 1, TaskPriority::Low).unwrap();
    let before = processor.get_stats();
    assert_eq!(processor.cancel_task_at(2, 5).unwrap_err(), CancelError::NotFound);
    assert_eq!(processor.cancel_task(2).unwrap_err(), "Tarefa não encontrada");
    assert_eq!(processor.get_stats(), before);
}

#[test]
fn cancel_finished_task_is_invalid_state() {
    let mut processor = TaskProcessor::new();
    processor.create_task_at(1, 0, "done".to_string(), 1, TaskPriority::Low).unwrap();
    processor.create_task_at(2, 0, "broken".to_string(), 1, TaskPriority::Low).unwrap();
    processor.create_task_at(3, 0, "gone".to_string(), 1, TaskPriority::Low).unwrap();
    processor.begin_processing_at(1, 1);
    processor.finish_processing_at(1, 2, false);
    processor.begin_processing_at(2, 1);
    processor.finish_processing_at(2, 2, true);
    processor.cancel_task_at(3, 2).unwrap();
    let before = processor.get_stats();
    for id in 1..=3u128 {
        assert_eq!(processor.cancel_task_at(id, 9).unwrap_err(), CancelError::InvalidState);
        assert_eq!(processor.cancel_task(id).unwrap_err(), "Tarefa já foi finalizada");
    }
    assert_eq!(processor.get_stats(), before);
    assert_eq!(processor.get_task(1).unwrap().status, TaskStatus::Completed);
    assert_eq!(processor.get_task(2).unwrap().status, TaskStatus::Failed);
    assert_eq!(processor.get_task(3).unwrap().status, TaskStatus::Cancelled);
    assert_eq!(processor.get_task(3).unwrap().completed_at, Some(2));
}

#[test]
fn cancel_error_messages() {
    assert_eq!(CancelError::NotFound.message(), "Tarefa não encontrada");
    assert_eq!(CancelError::InvalidState.message(), "Tarefa já foi finalizada");
}

#[test]
fn total_counts_successful_creations() {
    let mut processor = TaskProcessor::new();
    let mut created: u64 = 0;
    for round in 0..30u64 {
        let name = if round % 3 == 0 { "".to_string() } else { format!("task {}", round) };
        let duration = if round % 5 == 0 { 0 } else { 10 };
        if processor.create_task(name, duration, TaskPriority::Low).is_ok() {
            created += 1;
        }
        assert_eq!(processor.get_stats().total_tasks, created);
    }
    assert_eq!(created, 16);
    assert_eq!(processor.list_tasks().len(), 16);
}

fn status_sum(processor: &TaskProcessor) -> u64 {
    let stats = processor.get_stats();
    stats.pending + stats.processing + stats.completed + stats.failed + stats.cancelled
}

#[test]
fn status_counters_add_up_to_the_total() {
    let mut processor = TaskProcessor::new();
    assert_eq!(status_sum(&processor), 0);
    for id in 0..10u128 {
        processor.create_task_at(id, 0, "t".to_string(), 1, TaskPriority::Low).unwrap();
        assert_eq!(status_sum(&processor), processor.get_stats().total_tasks);
    }
    processor.cancel_task_at(0, 1).unwrap();
    assert_eq!(status_sum(&processor), 10);
    for id in 1..7u128 {
        processor.begin_processing_at(id, 2).unwrap();
        assert_eq!(status_sum(&processor), 10);
    }
    for id in 1..5u128 {
        processor.finish_processing_at(id, 3, id % 2 == 0).unwrap();
        assert_eq!(status_sum(&processor), 10);
    }
    let stats = processor.get_stats();
    assert_eq!(stats.total_tasks, 10);
    assert_eq!(stats.pending, 3);
    assert_eq!(stats.processing, 2);
    assert_eq!(stats.completed, 2);
    assert_eq!(stats.failed, 2);
    assert_eq!(stats.cancelled, 1);
}

#[test]
fn task_cancelled_in_flight_is_counted_twice() {
    let mut processor = TaskProcessor::new();
    processor.create_task_at(1, 0, "t".to_string(), 1, TaskPriority::Low).unwrap();
    processor.create_task_at(2, 0, "u".to_string(), 1, TaskPriority::Low).unwrap();
    processor.begin_processing_at(1, 1).unwrap();
    processor.cancel_task_at(1, 2).unwrap();
    let stats = processor.get_stats();
    assert_eq!(stats.total_tasks, 2);
    assert_eq!(stats.pending, 1);
    assert_eq!(stats.processing, 1);
    assert_eq!(stats.cancelled, 1);
    assert_eq!(status_sum(&processor), 3);
    assert!(processor.finish_processing_at(1, 3, false).is_none());
    assert_eq!(status_sum(&processor), 3);
}

#[test]
fn average_is_the_mean_over_completed_tasks_only() {
    let mut processor = TaskProcessor::new();
    assert_eq!(processor.get_stats().average_processing_time_floor_ms, 0);
    for id in 1..=5u128 {
        processor.create_task_at(id, 0, "t".to_string(), 1, TaskPriority::Low).unwrap();
        processor.begin_processing_at(id, 1_000).unwrap();
    }
    processor.finish_processing_at(1, 1_100, true).unwrap();
    processor.cancel_task_at(2, 1_900).unwrap();
    assert_eq!(processor.get_stats().average_processing_time_floor_ms, 0);
    processor.finish_processing_at(3, 1_100, false).unwrap();
    assert_eq!(processor.get_stats().average_processing_time_floor_ms, 100);
    processor.finish_processing_at(4, 1_300, false).unwrap();
    assert_eq!(processor.get_stats().average_processing_time_floor_ms, 200);
    processor.finish_processing_at(5, 1_301, false).unwrap();
    let stats = processor.get_stats();
    assert_eq!(stats.completed, 3);
    assert_eq!(stats.completed_count, 3);
    assert_eq!(stats.total_processing_time_ms, 701);
    assert_eq!(stats.average_processing_time_floor_ms, 233);
}

fn count(processor: &TaskProcessor, status: TaskStatus) -> u64 {
    processor.list_tasks().iter().filter(|task| task.status == status).count() as u64
}

#[test]
fn counters_follow_the_store_through_a_long_life() {
    let mut processor = TaskProcessor::new();
    let mut observer = processor.subscribe();
    let mut seed: u64 = 0x2545_f491_4f6c_dd1d;
    let mut clock: i64 = 0;
    let mut spent: u64 = 0;
    let mut announced: usize = 0;
    for _ in 0..600 {
        seed = seed.wrapping_mul(6364136223846793005).wrapping_add(1442695040888963407);
        let choice = (seed >> 33) % 8;
        let id = ((seed >> 40) % 24) as u128;
        clock += ((seed >> 50) % 7) as i64;
        let before = processor.get_task(id);
        match choice {
            0 | 1 => {
                if processor.create_task_at(id, clock, "t".to_string(), 1, TaskPriority::Low).is_ok() {
                    announced += 1;
                }
            }
            2 | 3 => {
                if processor.begin_processing_at(id, clock).is_some() {
                    announced += 1;
                }
            }
            4 | 5 => {
                let failed = seed % 3 == 0;
                if let Some(task) = processor.finish_processing_at(id, clock, failed) {
                    announced += 1;
                    if !failed {
                        spent += (clock - before.unwrap().started_at.unwrap()) as u64;
                        assert_eq!(task.status, TaskStatus::Completed);
                    }
                }
            }
            6 => {
                if processor.cancel_task_at(id, clock).is_ok() {
                    announced += 1;
                }
            }
            _ => {
                assert!(processor.create_task_at(id, clock, "".to_string(), 1, TaskPriority::Low).is_err());
            }
        }
        let stats = processor.get_stats();
        let tasks = processor.list_tasks();
        let in_flight = tasks
            .iter()
            .filter(|task| task.status == TaskStatus::Cancelled && task.started_at.is_some())
            .count() as u64;
        assert_eq!(stats.total_tasks, tasks.len() as u64);
        assert_eq!(stats.pending, count(&processor, TaskStatus::Pending));
        assert_eq!(stats.processing, count(&processor, TaskStatus::Processing) + in_flight);
        assert_eq!(stats.completed, count(&processor, TaskStatus::Completed));
        assert_eq!(stats.failed, count(&processor, TaskStatus::Failed));
        assert_eq!(stats.cancelled, count(&processor, TaskStatus::Cancelled));
        assert_eq!(stats.completed_count, stats.completed);
        assert_eq!(stats.total_processing_time_ms, spent);
        assert_eq!(status_sum(&processor), stats.total_tasks + in_flight);
        assert_eq!(processor.pending_tasks().len() as u64, stats.pending);
    }
    let mut received: usize = 0;
    while observer.try_recv().is_ok() {
        received += 1;
    }
    assert_eq!(received, announced);
    assert!(announced > 100);
    assert!(processor.get_stats().completed > 0);
    assert!(processor.get_stats().cancelled > 0);
}
