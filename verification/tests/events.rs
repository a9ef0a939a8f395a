use task_processor::bus::{NotificationBus, EVENT_CAPACITY};
use task_processor::models::{Task, TaskPriority, TaskStatus};
use task_processor::processor::TaskProcessor;
use tokio::sync::broadcast::error::TryRecvError;

#[test]
fn observer_sees_creation_processing_and_one_terminal_event() {
    let mut processor = TaskProcessor::new();
    let mut observer = processor.subscribe();

    let task = processor.create_task("watched".to_string(), 50, TaskPriority::High).unwrap();
    processor.begin_processing(task.id).unwrap();
    processor.finish_processing(task.id).unwrap();

    let (first_id, first) = observer.try_recv().unwrap();
    assert_eq!(first_id, task.id);
    assert_eq!(first.id, task.id);
    assert_eq!(first.status, TaskStatus::Pending);

    let (second_id, second) = observer.try_recv().unwrap();
    assert_eq!(second_id, task.id);
    assert_eq!(second.status, TaskStatus::Processing);
    assert!(second.started_at.is_some());

    let (third_id, third) = observer.try_recv().unwrap();
    assert_eq!(third_id, task.id);
    assert!(third.status == TaskStatus::Completed || third.status == TaskStatus::Failed);
    assert!(third.completed_at.is_some());

    assert_eq!(observer.try_recv().unwrap_err(), TryRecvError::Empty);
}

#[test]
fn events_carry_the_snapshot_of_their_moment() {
    let mut processor = TaskProcessor::new();
    let mut observer = processor.subscribe();
    processor.create_task_at(5, 100, "watched".to_string(), 50, TaskPriority::Low).unwrap();
    processor.begin_processing_at(5, 200);
    processor.finish_processing_at(5, 350, true);

    let (_, created) = observer.try_recv().unwrap();
    assert_eq!(created.name, "watched");
    assert_eq!(created.created_at, 100);
    assert_eq!(created.started_at, None);

    let (_, started) = observer.try_recv().unwrap();
    assert_eq!(started.status, TaskStatus::Processing);
    assert_eq!(started.started_at, Some(200));
    assert_eq!(started.completed_at, None);

    let (_, ended) = observer.try_recv().unwrap();
    assert_eq!(ended.status, TaskStatus::Failed);
    assert_eq!(ended.completed_at, Some(350));
    assert_eq!(ended.error_message, Some("Erro aleatório durante processamento".to_string()));
    assert_eq!(observer.try_recv().unwrap_err(), TryRecvError::Empty);
}

#[test]
fn cancellation_is_announced() {
    let mut processor = TaskProcessor::new();
    processor.create_task_at(5, 100, "watched".to_string(), 50, TaskPriority::Low).unwrap();
    let mut observer = processor.subscribe();
    processor.cancel_task(5).unwrap();
    let (id, task) = observer.try_recv().unwrap();
    assert_eq!(id, 5);
    assert_eq!(task.status, TaskStatus::Cancelled);
    assert!(task.completed_at.is_some());
    assert_eq!(observer.try_recv().unwrap_err(), TryRecvError::Empty);
}

#[test]
fn refused_cancellation_is_not_announced() {
    let mut processor = TaskProcessor::new();
    processor.create_task_at(5, 100, "watched".to_string(), 50, TaskPriority::Low).unwrap();
    processor.cancel_task(5).unwrap();
    let mut observer = processor.subscribe();
    assert!(processor.cancel_task(5).is_err());
    assert!(processor.cancel_task(6).is_err());
    assert_eq!(observer.try_recv().unwrap_err(), TryRecvError::Empty);
}

#[test]
fn late_observer_sees_no_earlier_event() {
    let mut processor = TaskProcessor::new();
    processor.create_task_at(1, 0, "early".to_string(), 50, TaskPriority::Low).unwrap();
    let mut observer = processor.subscribe();
    assert_eq!(observer.try_recv().unwrap_err(), TryRecvError::Empty);
    processor.create_task_at(2, 0, "late".to_string(), 50, TaskPriority::Low).unwrap();
    let (id, task) = observer.try_recv().unwrap();
    assert_eq!(id, 2);
    assert_eq!(task.name, "late");
}

#[test]
fn every_observer_sees_every_event() {
    let mut processor = TaskProcessor::new();
    let mut first = processor.subscribe();
    let mut second = processor.subscribe();
    processor.create_task_at(1, 0, "a".to_string(), 50, TaskPriority::Low).unwrap();
    processor.begin_processing_at(1, 1);
    for observer in [&mut first, &mut second] {
        assert_eq!(observer.try_recv().unwrap().1.status, TaskStatus::Pending);
        assert_eq!(observer.try_recv().unwrap().1.status, TaskStatus::Processing);
        assert_eq!(observer.try_recv().unwrap_err(), TryRecvError::Empty);
    }
}

#[test]
fn publishing_without_observers_is_harmless() {
    let mut processor = TaskProcessor::new();
    processor.create_task_at(1, 0, "a".to_string(), 50, TaskPriority::Low).unwrap();
    processor.begin_processing_at(1, 1);
    processor.finish_processing_at(1, 2, false);
    assert_eq!(processor.get_task(1).unwrap().status, TaskStatus::Completed);
}

#[test]
fn slow_observer_loses_the_oldest_events() {
    let mut processor = TaskProcessor::new();
    let mut observer = processor.subscribe();
    for id in 0..1500u128 {
        processor.create_task_at(id, 0, "t".to_string(), 1, TaskPriority::Low).unwrap();
    }
    assert!(matches!(observer.try_recv(), Err(TryRecvError::Lagged(_))));
    let (id, _) = observer.try_recv().unwrap();
    assert!(id > 0);
    let mut last = id;
    while let Ok((next, _)) = observer.try_recv() {
        assert_eq!(next, last + 1);
        last = next;
    }
    assert_eq!(last, 1499);
}

#[test]
fn bus_delivers_in_publication_order() {
    let mut bus = NotificationBus::new();
    let mut observer = bus.subscribe();
    for id in 0..10u128 {
        bus.publish(id, Task::new_at(id, 0, format!("task {}", id), 1, TaskPriority::Low));
    }
    for id in 0..10u128 {
        let (announced, task) = observer.try_recv().unwrap();
        assert_eq!(announced, id);
        assert_eq!(task.id, id);
        assert_eq!(task.name, format!("task {}", id));
    }
    assert_eq!(observer.try_recv().unwrap_err(), TryRecvError::Empty);
}

#[test]
fn bus_without_observers_drops_events() {
    let mut bus = NotificationBus::new();
    bus.publish(1, Task::new_at(1, 0, "lost".to_string(), 1, TaskPriority::Low));
    let mut observer = bus.subscribe();
    assert_eq!(observer.try_recv().unwrap_err(), TryRecvError::Empty);
}

#[test]
fn bus_keeps_a_bounded_backlog() {
    assert_eq!(EVENT_CAPACITY, 1000);
    let mut bus = NotificationBus::new();
    let mut observer = bus.subscribe();
    for id in 0..1024u128 {
        bus.publish(id, Task::new_at(id, 0, "t".to_string(), 1, TaskPriority::Low));
    }
    assert_eq!(observer.try_recv().unwrap().0, 0);
    let mut lagging = bus.subscribe();
    for id in 1024..3000u128 {
        bus.publish(id, Task::new_at(id, 0, "t".to_string(), 1, TaskPriority::Low));
    }
    assert!(matches!(lagging.try_recv(), Err(TryRecvError::Lagged(_))));
    assert!(lagging.try_recv().unwrap().0 >= 1024);
}

#[test]
fn observer_listens_to_its_own_engine_only() {
    let mut first = TaskProcessor::new();
    let mut second = TaskProcessor::new();
    let mut of_first = first.subscribe();
    let mut of_second = second.subscribe();
    first.create_task_at(1, 0, "one".to_string(), 5, TaskPriority::Low).unwrap();
    assert_eq!(of_second.try_recv().unwrap_err(), TryRecvError::Empty);
    second.create_task_at(2, 0, "two".to_string(), 5, TaskPriority::Low).unwrap();
    second.begin_processing_at(2, 1).unwrap();
    let (id, task) = of_first.try_recv().unwrap();
    assert_eq!(id, 1);
    assert_eq!(task.name, "one");
    assert_eq!(of_first.try_recv().unwrap_err(), TryRecvError::Empty);
    assert_eq!(of_second.try_recv().unwrap().0, 2);
    assert_eq!(of_second.try_recv().unwrap().1.status, TaskStatus::Processing);
    assert_eq!(of_second.try_recv().unwrap_err(), TryRecvError::Empty);
}

#[test]
fn observers_of_two_buses_are_apart() {
    let mut first = NotificationBus::new();
    let second = NotificationBus::new();
    let mut of_first = first.subscribe();
    let mut of_second = second.subscribe();
    first.publish(9, Task::new_at(9, 0, "t".to_string(), 1, TaskPriority::Low));
    assert_eq!(of_first.try_recv().unwrap().0, 9);
    assert_eq!(of_second.try_recv().unwrap_err(), TryRecvError::Empty);
}
