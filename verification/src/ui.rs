//! What the user interface shows of a task, how a form becomes a command, and the texts of
//! the errors the back end reports.
use vstd::prelude::*;
use crate::features::task::models::Task;
use crate::message::{LogicEvent, UiCommand};

verus! {

/// A task as one row of the task list: every field is text but the chain position.
#[derive(Debug, Clone)]
pub struct TaskRow {
    pub id: String,
    pub title: String,
    pub status: String,
    pub priority: String,
    pub due_date: String,
    pub parent_id: String,
    pub chain_id: String,
    pub chain_order: i32,
}

/// The text of an optional field, empty when it is absent.
pub open spec fn text_or_empty(o: Option<String>) -> Seq<char> {
    match o {
        Some(s) => s@,
        None => Seq::empty(),
    }
}

/// The chain position shown: absent is 0, and a position is cut to 32 bits.
pub open spec fn shown_chain_order(o: Option<i64>) -> i32 {
    match o {
        Some(n) => n as i32,
        None => 0,
    }
}

fn text_or_empty_of(o: &Option<String>) -> (r: String)
    ensures
        r@ == text_or_empty(*o),
{
    match o {
        Some(s) => s.clone(),
        None => String::new(),
    }
}

impl TaskRow {
    /// The row that shows `task`.
    pub fn from_task(task: &Task) -> (r: TaskRow)
        ensures
            r.id@ == task.id@,
            r.title@ == task.title@,
            r.status@ == task.status.text(),
            r.priority@ == task.priority.text(),
            r.due_date@ == text_or_empty(task.due_date),
            r.parent_id@ == text_or_empty(task.parent_id),
            r.chain_id@ == text_or_empty(task.chain_id),
            r.chain_order == shown_chain_order(task.chain_order),
    {
        let chain_order: i32 = match task.chain_order {
            Some(n) => n as i32,
            None => 0,
        };
        TaskRow {
            id: task.id.clone(),
            title: task.title.clone(),
            status: task.status.as_str().to_owned(),
            priority: task.priority.as_str().to_owned(),
            due_date: text_or_empty_of(&task.due_date),
            parent_id: text_or_empty_of(&task.parent_id),
            chain_id: text_or_empty_of(&task.chain_id),
            chain_order,
        }
    }
}

/// The field of a form left empty is absent.
pub open spec fn present_if_filled(s: String) -> Option<String> {
    if s@.len() == 0 {
        None
    } else {
        Some(s)
    }
}

/// The command that the task form asks for: an empty parent or chain field means none, and
/// chain position 0 means none.
pub fn create_task_command(title: String, parent_id: String, chain_id: String, chain_order: i32) -> (r:
    UiCommand)
    ensures
        r == (UiCommand::CreateTask {
            title,
            parent_id: present_if_filled(parent_id),
            chain_id: present_if_filled(chain_id),
            chain_order: if chain_order == 0 {
                None
            } else {
                Some(chain_order as i64)
            },
        }),
{
    let parent_id = if parent_id.as_str().is_empty() {
        None
    } else {
        Some(parent_id)
    };
    let chain_id = if chain_id.as_str().is_empty() {
        None
    } else {
        Some(chain_id)
    };
    let chain_order = if chain_order == 0 {
        None
    } else {
        Some(chain_order as i64)
    };
    UiCommand::CreateTask { title, parent_id, chain_id, chain_order }
}

/// An operation that the user interface asks of the back end.
#[derive(Debug, Clone, Copy, PartialEq, Eq, Structural)]
pub enum BackendOperation {
    GetSettings,
    UpdateSetting,
    RebuildDatabase,
    GetTasks,
    CreateTask,
    UpdateTask,
    UpdateTaskStatus,
    DeleteTask,
}

impl BackendOperation {
    /// The words that open the report of this failure.
    pub open spec fn lead(self) -> Seq<char> {
        match self {
            BackendOperation::GetSettings => "DB Query failed (Normal if table not created yet): "@,
            BackendOperation::UpdateSetting => "Setting Update Failed: "@,
            BackendOperation::RebuildDatabase => "Database Rebuild Failed: "@,
            BackendOperation::GetTasks => "GetTasks failed: "@,
            BackendOperation::CreateTask => "CreateTask failed: "@,
            BackendOperation::UpdateTask => "UpdateTask failed: "@,
            BackendOperation::UpdateTaskStatus => "UpdateTaskStatus failed: "@,
            BackendOperation::DeleteTask => "DeleteTask failed: "@,
        }
    }

    fn lead_text(&self) -> (r: &'static str)
        ensures
            r@ == self.lead(),
    {
        match self {
            BackendOperation::GetSettings => "DB Query failed (Normal if table not created yet): ",
            BackendOperation::UpdateSetting => "Setting Update Failed: ",
            BackendOperation::RebuildDatabase => "Database Rebuild Failed: ",
            BackendOperation::GetTasks => "GetTasks failed: ",
            BackendOperation::CreateTask => "CreateTask failed: ",
            BackendOperation::UpdateTask => "UpdateTask failed: ",
            BackendOperation::UpdateTaskStatus => "UpdateTaskStatus failed: ",
            BackendOperation::DeleteTask => "DeleteTask failed: ",
        }
    }

    /// The report of this failure, whose cause is described by `detail`.
    pub fn failure_report(self, detail: &str) -> (r: LogicEvent)
        ensures
            r matches LogicEvent::ErrorOccurred(m) && m@ == self.lead() + detail@,
    {
        let mut m: String = self.lead_text().to_owned();
        m.append(detail);
        LogicEvent::ErrorOccurred(m)
    }

    /// Whether, once this operation succeeds, the task list is loaded again.
    pub open spec fn reloads_tasks(self) -> bool {
        match self {
            BackendOperation::CreateTask | BackendOperation::UpdateTask
            | BackendOperation::UpdateTaskStatus | BackendOperation::DeleteTask => true,
            _ => false,
        }
    }

    /// Whether, once this operation succeeds, the task list is loaded again: after every
    /// change to the tasks.
    pub fn reloads_tasks_after(self) -> (r: bool)
        ensures
            r == self.reloads_tasks(),
    {
        match self {
            BackendOperation::CreateTask | BackendOperation::UpdateTask
            | BackendOperation::UpdateTaskStatus | BackendOperation::DeleteTask => true,
            _ => false,
        }
    }
}

} // verus!
