use todo_app_core::features::task::models::{Task, TaskPriority, TaskStatus};
use todo_app_core::message::{LogicEvent, UiCommand};
use todo_app_core::ui::{create_task_command, BackendOperation, TaskRow};

#[test]
fn row_shows_a_task() {
    let mut t = Task::new_with("id1".to_string(), "Title".to_string(), None, Some("ch".to_string()), Some(7), "now".to_string());
    t.status = TaskStatus::Canceled;
    t.priority = TaskPriority::High;
    let row = TaskRow::from_task(&t);
    assert_eq!(row.id, "id1");
    assert_eq!(row.title, "Title");
    assert_eq!(row.status, "canceled");
    assert_eq!(row.priority, "high");
    assert_eq!(row.due_date, "");
    assert_eq!(row.parent_id, "");
    assert_eq!(row.chain_id, "ch");
    assert_eq!(row.chain_order, 7);

    t.chain_order = None;
    t.due_date = Some("2024-05-01".to_string());
    let row = TaskRow::from_task(&t);
    assert_eq!(row.chain_order, 0);
    assert_eq!(row.due_date, "2024-05-01");

    t.chain_order = Some((1i64 << 32) + 5);
    assert_eq!(TaskRow::from_task(&t).chain_order, 5);
}

#[test]
fn form_becomes_create_command() {
    match create_task_command("T".to_string(), "".to_string(), "".to_string(), 0) {
        UiCommand::CreateTask { title, parent_id, chain_id, chain_order } => {
            assert_eq!(title, "T");
            assert!(parent_id.is_none());
            assert!(chain_id.is_none());
            assert!(chain_order.is_none());
        }
        _ => panic!("expected a create command"),
    }
    match create_task_command("T".to_string(), "p".to_string(), "c".to_string(), -3) {
        UiCommand::CreateTask { parent_id, chain_id, chain_order, .. } => {
            assert_eq!(parent_id.as_deref(), Some("p"));
            assert_eq!(chain_id.as_deref(), Some("c"));
            assert_eq!(chain_order, Some(-3));
        }
        _ => panic!("expected a create command"),
    }
}

#[test]
fn failure_reports_name_the_operation() {
    let cases = [
        (BackendOperation::GetSettings, "DB Query failed (Normal if table not created yet): boom"),
        (BackendOperation::UpdateSetting, "Setting Update Failed: boom"),
        (BackendOperation::RebuildDatabase, "Database Rebuild Failed: boom"),
        (BackendOperation::GetTasks, "GetTasks failed: boom"),
        (BackendOperation::CreateTask, "CreateTask failed: boom"),
        (BackendOperation::UpdateTask, "UpdateTask failed: boom"),
        (BackendOperation::UpdateTaskStatus, "UpdateTaskStatus failed: boom"),
        (BackendOperation::DeleteTask, "DeleteTask failed: boom"),
    ];
    for (op, text) in cases {
        match op.failure_report("boom") {
            LogicEvent::ErrorOccurred(m) => assert_eq!(m, text),
            _ => panic!("expected an error event"),
        }
    }
}

#[test]
fn only_task_changes_reload_the_list() {
    assert!(BackendOperation::CreateTask.reloads_tasks_after());
    assert!(BackendOperation::UpdateTask.reloads_tasks_after());
    assert!(BackendOperation::UpdateTaskStatus.reloads_tasks_after());
    assert!(BackendOperation::DeleteTask.reloads_tasks_after());
    assert!(!BackendOperation::GetTasks.reloads_tasks_after());
    assert!(!BackendOperation::UpdateSetting.reloads_tasks_after());
    assert!(!BackendOperation::GetSettings.reloads_tasks_after());
    assert!(!BackendOperation::RebuildDatabase.reloads_tasks_after());
}
