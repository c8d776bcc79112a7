use mojentic::task_list::TaskList;
use mojentic::task_tools::{CompleteTaskTool, PrependTaskTool, StartTaskTool};

#[test]
fn test_complete_task_run() {
    let mut list = TaskList::new();
    let task = list.append_task("do something".to_string());
    list.start_task(task.id).unwrap();

    let result = CompleteTaskTool::new().run(&mut list, 1).unwrap();
    assert_eq!(result.status, "completed");
    assert_eq!(result.summary, "Task '1' completed successfully");
}

#[test]
fn complete_task_test_descriptor() {
    assert_eq!(CompleteTaskTool::new().name(), "complete_task");
}

#[test]
fn test_prepend_task_run() {
    let mut list = TaskList::new();

    let result = PrependTaskTool::new().run(&mut list, "first task".to_string());
    assert_eq!(result.description, "first task");
    assert_eq!(result.status, "pending");
}

#[test]
fn prepend_task_test_descriptor() {
    assert_eq!(PrependTaskTool::new().name(), "prepend_task");
}

#[test]
fn test_start_task_run() {
    let mut list = TaskList::new();
    list.append_task("pending task".to_string());

    let result = StartTaskTool::new().run(&mut list, 1).unwrap();
    assert_eq!(result.status, "in_progress");
}

#[test]
fn start_task_test_descriptor() {
    assert_eq!(StartTaskTool::new().name(), "start_task");
}
