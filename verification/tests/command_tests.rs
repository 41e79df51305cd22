use todo_app_core::features::task::commands::{StatusChange, TaskCreation};
use todo_app_core::features::task::models::{Task, TaskStatus};

fn task(id: &str, parent: Option<&str>) -> Task {
    Task::new_with(
        id.to_string(),
        format!("Task {}", id),
        parent.map(|p| p.to_string()),
        None,
        None,
        "2024-01-01T00:00:00+00:00".to_string(),
    )
}

#[test]
fn status_change_starts_by_reading_the_task() {
    match StatusChange::start("t1".to_string(), "done".to_string()) {
        StatusChange::ReadTask { id, requested } => {
            assert_eq!(id, "t1");
            assert_eq!(requested, "done");
        }
        _ => panic!("expected a read"),
    }
}

#[test]
fn status_change_of_a_missing_task_fails() {
    assert!(matches!(StatusChange::task_read("done", None), StatusChange::NotFound));
    assert!(matches!(
        StatusChange::task_read_at("done", None, "u".to_string(), "c".to_string()),
        StatusChange::NotFound
    ));
    assert_eq!(StatusChange::not_found_message(), "Task not found");
}

#[test]
fn status_change_restamps_the_read_task() {
    match StatusChange::task_read_at("done", Some(task("t1", None)), "u".to_string(), "c".to_string()) {
        StatusChange::WriteTask { task } => {
            assert_eq!(task.id, "t1");
            assert_eq!(task.status, TaskStatus::Done);
            assert_eq!(task.updated_at, "u");
            assert_eq!(task.completed_at.as_deref(), Some("c"));
        }
        _ => panic!("expected a write"),
    }
    match StatusChange::task_read("todo", Some(task("t2", None))) {
        StatusChange::WriteTask { task } => {
            assert_eq!(task.status, TaskStatus::Todo);
            assert!(task.completed_at.is_none());
            assert_ne!(task.updated_at, "2024-01-01T00:00:00+00:00");
        }
        _ => panic!("expected a write"),
    }
}

#[test]
fn done_task_completes_children_then_checks_parent() {
    let mut done = task("c", Some("p"));
    done.status = TaskStatus::Done;
    let next = StatusChange::task_written(done);
    let t = match next {
        StatusChange::CompleteChildren { task } => task,
        _ => panic!("expected the children to be completed"),
    };
    assert_eq!(t.id, "c");
    match StatusChange::children_completed(t) {
        StatusChange::CheckParent { parent_id, task } => {
            assert_eq!(parent_id, "p");
            assert_eq!(task.id, "c");
            match StatusChange::parent_checked(task) {
                StatusChange::Finished { task } => assert_eq!(task.id, "c"),
                _ => panic!("expected the end"),
            }
        }
        _ => panic!("expected the parent check"),
    }
}

#[test]
fn open_task_skips_children_and_orphan_skips_parent() {
    match StatusChange::task_written(task("c", Some("p"))) {
        StatusChange::CheckParent { parent_id, .. } => assert_eq!(parent_id, "p"),
        _ => panic!("expected the parent check"),
    }
    match StatusChange::task_written(task("o", None)) {
        StatusChange::Finished { task } => assert_eq!(task.id, "o"),
        _ => panic!("expected the end"),
    }
}

#[test]
fn creation_inserts_then_checks_parent() {
    let start = TaskCreation::start_at(
        "id1".to_string(),
        "New".to_string(),
        Some("p".to_string()),
        None,
        Some(2),
        "2024-05-05T05:05:05+00:00".to_string(),
    );
    let t = match start {
        TaskCreation::InsertTask { task } => task,
        _ => panic!("expected an insert"),
    };
    assert_eq!(t.id, "id1");
    assert_eq!(t.title, "New");
    assert_eq!(t.created_at, "2024-05-05T05:05:05+00:00");
    assert_eq!(t.updated_at, t.created_at);
    assert_eq!(t.status, TaskStatus::Todo);
    match TaskCreation::task_inserted(t) {
        TaskCreation::CheckParent { parent_id, task } => {
            assert_eq!(parent_id, "p");
            assert!(matches!(TaskCreation::parent_checked(task), TaskCreation::Finished { .. }));
        }
        _ => panic!("expected the parent check"),
    }
    match TaskCreation::start("Free".to_string(), None, None, None) {
        TaskCreation::InsertTask { task } => {
            assert_eq!(task.id.len(), 36);
            match TaskCreation::task_inserted(task) {
                TaskCreation::Finished { task } => assert_eq!(task.title, "Free"),
                _ => panic!("expected the end"),
            }
        }
        _ => panic!("expected an insert"),
    }
}
