use todo_app_core::features::task::db::{priority_from_column, status_from_column};
use todo_app_core::features::task::models::{requested_status_of, Task, TaskPriority, TaskStatus};

#[test]
fn status_text_round_trips() {
    for st in [TaskStatus::Todo, TaskStatus::Done, TaskStatus::Canceled] {
        assert_eq!(TaskStatus::from_str(st.as_str()), Ok(st));
        assert_eq!(status_from_column(st.as_str()), st);
    }
    assert_eq!(TaskStatus::Todo.as_str(), "todo");
    assert_eq!(TaskStatus::Done.as_str(), "done");
    assert_eq!(TaskStatus::Canceled.as_str(), "canceled");
}

#[test]
fn priority_text_round_trips() {
    for p in [TaskPriority::High, TaskPriority::Medium, TaskPriority::Low, TaskPriority::Unset] {
        assert_eq!(TaskPriority::from_str(p.as_str()), Ok(p));
        assert_eq!(priority_from_column(p.as_str()), p);
    }
    assert_eq!(TaskPriority::Unset.as_str(), "none");
    assert_eq!(TaskPriority::Medium.as_str(), "medium");
}

#[test]
fn status_reading_ignores_case_and_takes_both_spellings() {
    assert_eq!(TaskStatus::from_str("DONE"), Ok(TaskStatus::Done));
    assert_eq!(TaskStatus::from_str("ToDo"), Ok(TaskStatus::Todo));
    assert_eq!(TaskStatus::from_str("Cancelled"), Ok(TaskStatus::Canceled));
    assert_eq!(TaskStatus::from_str("canceled"), Ok(TaskStatus::Canceled));
    assert_eq!("DoNe".parse::<TaskStatus>(), Ok(TaskStatus::Done));
}

#[test]
fn status_reading_error_names_the_input() {
    assert_eq!(TaskStatus::from_str("Finished"), Err("invalid task status: Finished".to_string()));
    assert_eq!(TaskStatus::from_str(""), Err("invalid task status: ".to_string()));
    assert_eq!(TaskStatus::from_str(" done"), Err("invalid task status:  done".to_string()));
}

#[test]
fn priority_reading_ignores_case() {
    assert_eq!(TaskPriority::from_str("HIGH"), Ok(TaskPriority::High));
    assert_eq!(TaskPriority::from_str("Low"), Ok(TaskPriority::Low));
    assert_eq!(TaskPriority::from_str("NONE"), Ok(TaskPriority::Unset));
    assert_eq!("Medium".parse::<TaskPriority>(), Ok(TaskPriority::Medium));
    assert_eq!(TaskPriority::from_str("urgent"), Err("invalid task priority: urgent".to_string()));
}

#[test]
fn column_reading_is_exact_and_falls_back() {
    assert_eq!(status_from_column("DONE"), TaskStatus::Todo);
    assert_eq!(status_from_column("cancelled"), TaskStatus::Todo);
    assert_eq!(status_from_column(""), TaskStatus::Todo);
    assert_eq!(priority_from_column("High"), TaskPriority::Unset);
    assert_eq!(priority_from_column("whatever"), TaskPriority::Unset);
}

#[test]
fn status_requests_are_exact() {
    assert_eq!(requested_status_of(TaskStatus::Todo, "done"), TaskStatus::Done);
    assert_eq!(requested_status_of(TaskStatus::Done, "todo"), TaskStatus::Todo);
    assert_eq!(requested_status_of(TaskStatus::Todo, "canceled"), TaskStatus::Canceled);
    assert_eq!(requested_status_of(TaskStatus::Todo, "DONE"), TaskStatus::Todo);
    assert_eq!(requested_status_of(TaskStatus::Done, "cancelled"), TaskStatus::Done);
}

fn sample(id: &str) -> Task {
    Task::new_with(
        id.to_string(),
        "title".to_string(),
        Some("p".to_string()),
        None,
        Some(4),
        "2024-01-01T00:00:00+00:00".to_string(),
    )
}

#[test]
fn new_task_has_defaults() {
    let t = sample("x");
    assert_eq!(t.id, "x");
    assert_eq!(t.title, "title");
    assert_eq!(t.status, TaskStatus::Todo);
    assert_eq!(t.priority, TaskPriority::Unset);
    assert_eq!(t.created_at, "2024-01-01T00:00:00+00:00");
    assert_eq!(t.updated_at, t.created_at);
    assert!(t.completed_at.is_none());
    assert_eq!(t.parent_id.as_deref(), Some("p"));
    assert!(t.chain_id.is_none());
    assert_eq!(t.chain_order, Some(4));
    assert_eq!(t.exclude_dates, "[]");
    assert_eq!(t.markdown_path, "");
    assert_eq!(t.last_device_id, "");
    assert!(!t.due_reminder);
}

#[test]
fn created_tasks_get_fresh_ids_and_one_stamp() {
    let a = Task::create("a".to_string(), None, Some("c".to_string()), None);
    let b = Task::create("b".to_string(), None, None, None);
    assert_ne!(a.id, b.id);
    assert_eq!(a.id.len(), 36);
    assert_eq!(a.created_at, a.updated_at);
    assert!(!a.created_at.is_empty());
    assert_eq!(a.chain_id.as_deref(), Some("c"));
    assert_eq!(a.status, TaskStatus::Todo);
}

#[test]
fn requested_status_restamps_the_task() {
    let done = sample("x").with_requested_status("done");
    assert_eq!(done.status, TaskStatus::Done);
    assert!(done.completed_at.is_some());
    assert_ne!(done.updated_at, "2024-01-01T00:00:00+00:00");
    assert_eq!(done.title, "title");

    let back = done.with_requested_status("todo");
    assert_eq!(back.status, TaskStatus::Todo);
    assert!(back.completed_at.is_none());

    let kept = sample("y").with_requested_status("bogus");
    assert_eq!(kept.status, TaskStatus::Todo);
    assert!(kept.completed_at.is_none());
}

#[test]
fn requested_status_takes_the_given_stamps() {
    let done = sample("x").with_requested_status_at(
        "done",
        "2024-02-02T10:00:00+01:00".to_string(),
        "2024-02-02T10:00:01+01:00".to_string(),
    );
    assert_eq!(done.status, TaskStatus::Done);
    assert_eq!(done.updated_at, "2024-02-02T10:00:00+01:00");
    assert_eq!(done.completed_at.as_deref(), Some("2024-02-02T10:00:01+01:00"));
    assert_eq!(done.created_at, "2024-01-01T00:00:00+00:00");

    let canceled = done.with_requested_status_at(
        "canceled",
        "2024-03-03T00:00:00Z".to_string(),
        "unused".to_string(),
    );
    assert_eq!(canceled.status, TaskStatus::Canceled);
    assert_eq!(canceled.updated_at, "2024-03-03T00:00:00Z");
    assert!(canceled.completed_at.is_none());

    let kept = sample("y").with_requested_status_at("Done", "u".to_string(), "c".to_string());
    assert_eq!(kept.status, TaskStatus::Todo);
    assert_eq!(kept.updated_at, "u");
    assert!(kept.completed_at.is_none());
}

fn is_stamp(s: &str) -> bool {
    let b = s.as_bytes();
    b.len() >= 25
        && b[4] == b'-'
        && b[7] == b'-'
        && b[10] == b'T'
        && b[13] == b':'
        && b[16] == b':'
        && (b[b.len() - 6] == b'+' || b[b.len() - 6] == b'-')
        && b[b.len() - 3] == b':'
}

#[test]
fn created_ids_and_stamps_have_their_text_forms() {
    let a = Task::create("a".to_string(), None, None, None);
    let id = a.id.as_bytes();
    assert_eq!(id.len(), 36);
    for (i, c) in id.iter().enumerate() {
        if i == 8 || i == 13 || i == 18 || i == 23 {
            assert_eq!(*c, b'-');
        } else {
            assert!(c.is_ascii_digit() || (b'a'..=b'f').contains(c));
        }
    }
    assert_eq!(id[14], b'4');
    assert!(matches!(id[19], b'8' | b'9' | b'a' | b'b'));
    assert!(is_stamp(&a.created_at), "{}", a.created_at);

    let d = a.with_requested_status("done");
    assert!(is_stamp(&d.updated_at), "{}", d.updated_at);
    assert!(is_stamp(d.completed_at.as_deref().unwrap()));
}
