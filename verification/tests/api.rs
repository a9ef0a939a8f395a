use task_processor::api::handlers::{
    cancel_task, create_task, get_stats, get_task, health_check, list_tasks, BAD_REQUEST, NOT_FOUND,
};
use task_processor::models::{CreateTaskRequest, TaskPriority, TaskStatus};
use task_processor::processor::TaskProcessor;

fn request(name: &str, duration_ms: u64, priority: TaskPriority) -> CreateTaskRequest {
    CreateTaskRequest { name: name.to_string(), duration_ms, priority }
}

#[test]
fn test_health_check() {
    let report = health_check();
    assert_eq!(report.status, "healthy");
    assert_eq!(report.service, "task-processor");
}

#[test]
fn test_create_and_list_tasks() {
    let mut processor = TaskProcessor::new();

    let task = create_task(&mut processor, request("Tarefa de teste", 1000, TaskPriority::High))
        .expect("Falha ao criar tarefa");
    let task_id = task.id;

    let tasks = list_tasks(&processor);
    assert!(!tasks.is_empty());

    let retrieved_task = get_task(&processor, task_id).expect("Falha ao buscar tarefa");
    assert_eq!(retrieved_task.name, "Tarefa de teste");
}

#[test]
fn integration_test_test_stats() {
    let mut processor = TaskProcessor::new();
    assert_eq!(get_stats(&processor).total_tasks, 0);
    create_task(&mut processor, request("a", 10, TaskPriority::Low)).unwrap();
    assert_eq!(get_stats(&processor).total_tasks, 1);
}

#[test]
fn create_refuses_an_empty_name() {
    let mut processor = TaskProcessor::new();
    let refusal = create_task(&mut processor, request("", 500, TaskPriority::Low)).unwrap_err();
    assert_eq!(refusal.status, BAD_REQUEST);
    assert_eq!(refusal.status, 400);
    assert_eq!(refusal.error, "Nome da tarefa não pode estar vazio");
    assert!(list_tasks(&processor).is_empty());
    assert_eq!(get_stats(&processor).total_tasks, 0);
}

#[test]
fn create_refuses_a_zero_duration() {
    let mut processor = TaskProcessor::new();
    let refusal = create_task(&mut processor, request("x", 0, TaskPriority::Low)).unwrap_err();
    assert_eq!(refusal.status, BAD_REQUEST);
    assert_eq!(refusal.error, "Duração deve ser maior que zero");
    assert!(list_tasks(&processor).is_empty());
    assert_eq!(get_stats(&processor).total_tasks, 0);
}

#[test]
fn get_refuses_an_unknown_identifier() {
    let processor = TaskProcessor::new();
    let refusal = get_task(&processor, 3).unwrap_err();
    assert_eq!(refusal.status, NOT_FOUND);
    assert_eq!(refusal.status, 404);
    assert_eq!(refusal.error, "Tarefa não encontrada");
}

#[test]
fn cancel_confirms_with_the_identifier() {
    let mut processor = TaskProcessor::new();
    let task = create_task(&mut processor, request("x", 10, TaskPriority::Low)).unwrap();
    let reply = cancel_task(&mut processor, task.id).unwrap();
    assert_eq!(reply.task_id, task.id);
    assert_eq!(reply.message, "Tarefa cancelada com sucesso");
    assert_eq!(get_task(&processor, task.id).unwrap().status, TaskStatus::Cancelled);
}

#[test]
fn cancel_refuses_unknown_and_finished_tasks() {
    let mut processor = TaskProcessor::new();
    let task = create_task(&mut processor, request("x", 10, TaskPriority::Low)).unwrap();
    let unknown = cancel_task(&mut processor, task.id.wrapping_add(1)).unwrap_err();
    assert_eq!(unknown.status, BAD_REQUEST);
    assert_eq!(unknown.error, "Tarefa não encontrada");
    cancel_task(&mut processor, task.id).unwrap();
    let before = get_stats(&processor);
    let finished = cancel_task(&mut processor, task.id).unwrap_err();
    assert_eq!(finished.status, BAD_REQUEST);
    assert_eq!(finished.error, "Tarefa já foi finalizada");
    assert_eq!(get_stats(&processor), before);
}
