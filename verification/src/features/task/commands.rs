//! The task commands that change stored tasks, as walks: each variant names the next read,
//! write or rule to run, and the application runs it and hands back the result.
use vstd::prelude::*;
use crate::clock::{is_rfc3339_stamp, is_v4_uuid_text};
use crate::features::task::models::{restamped, Task, TaskStatus};

verus! {

/// Changing the status of a stored task on request: read it, store it restamped, complete
/// its children when it became done, check its parent again, and give it back.
pub enum StatusChange {
    /// Read the task with this id; `requested` is the text of the status asked for.
    ReadTask { id: String, requested: String },
    /// Store `task`, restamped.
    WriteTask { task: Task },
    /// Mark the children of `task` done (see `ChildrenCompletion`).
    CompleteChildren { task: Task },
    /// Check the status of the parent with this id again (see `ParentStatusCheck`).
    CheckParent { parent_id: String, task: Task },
    /// The command succeeded with `task`.
    Finished { task: Task },
    /// No task has the id: the command fails.
    NotFound,
}

/// What follows once the children of `task` are dealt with: its parent is checked again,
/// if it has one.
pub open spec fn after_children(task: Task) -> StatusChange {
    match task.parent_id {
        Some(p) => StatusChange::CheckParent { parent_id: p, task },
        None => StatusChange::Finished { task },
    }
}

impl StatusChange {
    /// The command for the task with this id, asking for the status `requested` names.
    pub fn start(id: String, requested: String) -> (r: Self)
        ensures
            r == (StatusChange::ReadTask { id, requested }),
    {
        StatusChange::ReadTask { id, requested }
    }

    /// The task was read; a present one is restamped with the given stamps.
    pub fn task_read_at(
        requested: &str,
        task: Option<Task>,
        updated_stamp: String,
        completed_stamp: String,
    ) -> (r: Self)
        ensures
            match task {
                None => r == StatusChange::NotFound,
                Some(t) => r == (StatusChange::WriteTask {
                    task: restamped(t, requested@, updated_stamp, completed_stamp),
                }),
            },
    {
        match task {
            None => StatusChange::NotFound,
            Some(t) => StatusChange::WriteTask {
                task: t.with_requested_status_at(requested, updated_stamp, completed_stamp),
            },
        }
    }

    /// The task was read; a present one is restamped with the current time (see
    /// `Task::with_requested_status`).
    pub fn task_read(requested: &str, task: Option<Task>) -> (r: Self)
        ensures
            match task {
                None => r == StatusChange::NotFound,
                Some(t) => exists|u: String, c: String|
                    is_rfc3339_stamp(u@) && is_rfc3339_stamp(c@) && r == (StatusChange::WriteTask {
                        task: #[trigger] restamped(t, requested@, u, c),
                    }),
            },
    {
        match task {
            None => StatusChange::NotFound,
            Some(t) => StatusChange::WriteTask { task: t.with_requested_status(requested) },
        }
    }

    /// The restamped task was stored: a done task has its children completed next;
    /// otherwise its parent is checked again, if it has one.
    pub fn task_written(task: Task) -> (r: Self)
        ensures
            r == (if task.status == TaskStatus::Done {
                StatusChange::CompleteChildren { task }
            } else {
                after_children(task)
            }),
            task.status != TaskStatus::Done ==> (task.parent_id matches Some(p) ==> r == (
            StatusChange::CheckParent { parent_id: p, task })),
    {
        if task.status == TaskStatus::Done {
            StatusChange::CompleteChildren { task }
        } else {
            Self::children_completed(task)
        }
    }

    /// The children of the task were completed: its parent is checked again, if it has one.
    pub fn children_completed(task: Task) -> (r: Self)
        ensures
            r == after_children(task),
            task.parent_id matches Some(p) ==> r == (StatusChange::CheckParent { parent_id: p, task }),
    {
        match &task.parent_id {
            Some(p) => {
                let parent_id = p.clone();
                StatusChange::CheckParent { parent_id, task }
            },
            None => StatusChange::Finished { task },
        }
    }

    /// The parent was checked again: the command succeeded with the task.
    pub fn parent_checked(task: Task) -> (r: Self)
        ensures
            r == (StatusChange::Finished { task }),
    {
        StatusChange::Finished { task }
    }

    /// The text of the failure when no task has the id.
    pub fn not_found_message() -> (r: String)
        ensures
            r@ == "Task not found"@,
    {
        "Task not found".to_owned()
    }
}

/// Creating a task: store it new, check its parent again, and give it back.
pub enum TaskCreation {
    /// Store the new `task`.
    InsertTask { task: Task },
    /// Check the status of the parent with this id again (see `ParentStatusCheck`).
    CheckParent { parent_id: String, task: Task },
    /// The command succeeded with `task`.
    Finished { task: Task },
}

impl TaskCreation {
    /// The command with this id and time stamp: the task to store is the new task of
    /// `Task::new_with`.
    pub fn start_at(
        id: String,
        title: String,
        parent_id: Option<String>,
        chain_id: Option<String>,
        chain_order: Option<i64>,
        now: String,
    ) -> (r: Self)
        ensures
            r matches TaskCreation::InsertTask { task } && Task::is_created(
                task,
                id,
                title,
                parent_id,
                chain_id,
                chain_order,
                now,
            ),
    {
        TaskCreation::InsertTask {
            task: Task::new_with(id, title, parent_id, chain_id, chain_order, now),
        }
    }

    /// The command with a fresh random id and the current time (see `Task::create`).
    pub fn start(
        title: String,
        parent_id: Option<String>,
        chain_id: Option<String>,
        chain_order: Option<i64>,
    ) -> (r: Self)
        ensures
            r matches TaskCreation::InsertTask { task } && Task::is_created(
                task,
                task.id,
                title,
                parent_id,
                chain_id,
                chain_order,
                task.created_at,
            ) && is_v4_uuid_text(task.id@) && is_rfc3339_stamp(task.created_at@),
    {
        TaskCreation::InsertTask { task: Task::create(title, parent_id, chain_id, chain_order) }
    }

    /// The new task was stored: its parent is checked again, if it has one.
    pub fn task_inserted(task: Task) -> (r: Self)
        ensures
            r == (match task.parent_id {
                Some(p) => TaskCreation::CheckParent { parent_id: p, task },
                None => TaskCreation::Finished { task },
            }),
    {
        match &task.parent_id {
            Some(p) => {
                let parent_id = p.clone();
                TaskCreation::CheckParent { parent_id, task }
            },
            None => TaskCreation::Finished { task },
        }
    }

    /// The parent was checked again: the command succeeded with the task.
    pub fn parent_checked(task: Task) -> (r: Self)
        ensures
            r == (TaskCreation::Finished { task }),
    {
        TaskCreation::Finished { task }
    }
}

/// Whatever status a task with a parent was given, the command checks that parent again:
/// straight after the write, or after completing the children when the task became done.
pub proof fn lemma_status_change_checks_the_parent(task: Task, p: String)
    requires
        task.parent_id == Some(p),
    ensures
        after_children(task) == (StatusChange::CheckParent { parent_id: p, task }),
        forall|st: TaskStatus|
            #[trigger] after_children(Task { status: st, ..task }) == (StatusChange::CheckParent {
                parent_id: p,
                task: Task { status: st, ..task },
            }),
{
}

} // verus!
