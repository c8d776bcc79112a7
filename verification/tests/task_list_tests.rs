use mojentic::task_list::{TaskList, TaskStatus};

#[test]
fn test_new_task_list() {
    let task_list = TaskList::new();
    assert_eq!(task_list.list_tasks().len(), 0);
}

#[test]
fn test_append_task() {
    let mut task_list = TaskList::new();
    let task = task_list.append_task("Test task".to_string());

    assert_eq!(task.id, 1);
    assert_eq!(task.description, "Test task");
    assert_eq!(task.status, TaskStatus::Pending);

    let tasks = task_list.list_tasks();
    assert_eq!(tasks.len(), 1);
    assert_eq!(tasks[0].id, task.id);
}

#[test]
fn test_prepend_task() {
    let mut task_list = TaskList::new();
    task_list.append_task("Existing task".to_string());
    let task = task_list.prepend_task("New task".to_string());

    let tasks = task_list.list_tasks();
    assert_eq!(tasks.len(), 2);
    assert_eq!(tasks[0].id, task.id);
    assert_eq!(tasks[0].description, "New task");
}

#[test]
fn test_insert_task_after() {
    let mut task_list = TaskList::new();
    let task1 = task_list.append_task("Task 1".to_string());
    task_list.append_task("Task 3".to_string());

    let task2 = task_list.insert_task_after(task1.id, "Task 2".to_string()).unwrap();

    let tasks = task_list.list_tasks();
    assert_eq!(tasks.len(), 3);
    assert_eq!(tasks[1].id, task2.id);
    assert_eq!(tasks[1].description, "Task 2");
}

#[test]
fn test_insert_task_after_nonexistent() {
    let mut task_list = TaskList::new();
    let result = task_list.insert_task_after(999, "Task".to_string());
    assert!(result.is_err());
}

#[test]
fn test_start_task() {
    let mut task_list = TaskList::new();
    let task = task_list.append_task("Task 1".to_string());

    let started = task_list.start_task(task.id).unwrap();
    assert_eq!(started.status, TaskStatus::InProgress);
}

#[test]
fn test_start_non_pending_task() {
    let mut task_list = TaskList::new();
    let task = task_list.append_task("Task 1".to_string());
    task_list.start_task(task.id).unwrap();

    let result = task_list.start_task(task.id);
    assert!(result.is_err());
}

#[test]
fn test_complete_task() {
    let mut task_list = TaskList::new();
    let task = task_list.append_task("Task 1".to_string());
    task_list.start_task(task.id).unwrap();

    let completed = task_list.complete_task(task.id).unwrap();
    assert_eq!(completed.status, TaskStatus::Completed);
}

#[test]
fn test_complete_non_in_progress_task() {
    let mut task_list = TaskList::new();
    let task = task_list.append_task("Task 1".to_string());

    let result = task_list.complete_task(task.id);
    assert!(result.is_err());
}

#[test]
fn test_clear_tasks() {
    let mut task_list = TaskList::new();
    task_list.append_task("Task 1".to_string());
    task_list.append_task("Task 2".to_string());

    let count = task_list.clear_tasks();
    assert_eq!(count, 2);
    assert_eq!(task_list.list_tasks().len(), 0);
}

#[test]
fn test_maintain_task_ids() {
    let mut task_list = TaskList::new();
    let task1 = task_list.append_task("Task 1".to_string());
    let task2 = task_list.append_task("Task 2".to_string());

    task_list.start_task(task1.id).unwrap();
    task_list.complete_task(task1.id).unwrap();

    let task3 = task_list.append_task("Task 3".to_string());

    let tasks = task_list.list_tasks();
    assert_eq!(tasks.len(), 3);
    assert!(tasks.iter().any(|t| t.id == task1.id && t.status == TaskStatus::Completed));
    assert!(tasks.iter().any(|t| t.id == task2.id && t.status == TaskStatus::Pending));
    assert!(tasks.iter().any(|t| t.id == task3.id && t.status == TaskStatus::Pending));
}

#[test]
fn ids_are_not_reused_after_clear() {
    let mut task_list = TaskList::default();
    task_list.append_task("a".to_string());
    task_list.append_task("b".to_string());
    task_list.clear_tasks();
    let t = task_list.append_task("c".to_string());
    assert_eq!(t.id, 3);
}

#[test]
fn error_messages_name_the_task() {
    let mut task_list = TaskList::new();
    match task_list.start_task(7) {
        Err(mojentic::error::MojenticError::ToolError(m)) => assert_eq!(m, "No task with ID '7' exists"),
        other => panic!("unexpected {:?}", other),
    }
    let t = task_list.append_task("x".to_string());
    match task_list.complete_task(t.id) {
        Err(mojentic::error::MojenticError::ToolError(m)) => {
            assert_eq!(m, "Task '1' cannot be completed because it is not in IN_PROGRESS status")
        }
        other => panic!("unexpected {:?}", other),
    }
    task_list.start_task(t.id).unwrap();
    match task_list.start_task(t.id) {
        Err(mojentic::error::MojenticError::ToolError(m)) => {
            assert_eq!(m, "Task '1' cannot be started because it is not in PENDING status")
        }
        other => panic!("unexpected {:?}", other),
    }
}
