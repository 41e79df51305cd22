//! How the status and priority columns of a stored task read back. A task is stored with
//! the texts of `TaskStatus::as_str` and `TaskPriority::as_str`; reading is exact (no case
//! folding) and falls back to `Todo` and to no priority on any other text.
use vstd::prelude::*;
use crate::features::task::models::{TaskPriority, TaskStatus};
use crate::text::same_text;

verus! {

/// The status that a stored status column holds.
pub open spec fn status_of_column(text: Seq<char>) -> TaskStatus {
    if text == "done"@ {
        TaskStatus::Done
    } else if text == "canceled"@ {
        TaskStatus::Canceled
    } else {
        TaskStatus::Todo
    }
}

/// The priority that a stored priority column holds.
pub open spec fn priority_of_column(text: Seq<char>) -> TaskPriority {
    if text == "high"@ {
        TaskPriority::High
    } else if text == "medium"@ {
        TaskPriority::Medium
    } else if text == "low"@ {
        TaskPriority::Low
    } else {
        TaskPriority::Unset
    }
}

/// Reads the status column of a stored task.
pub fn status_from_column(text: &str) -> (r: TaskStatus)
    ensures
        r == status_of_column(text@),
{
    if same_text(text, "done") {
        TaskStatus::Done
    } else if same_text(text, "canceled") {
        TaskStatus::Canceled
    } else {
        TaskStatus::Todo
    }
}

/// Reads the priority column of a stored task.
pub fn priority_from_column(text: &str) -> (r: TaskPriority)
    ensures
        r == priority_of_column(text@),
{
    if same_text(text, "high") {
        TaskPriority::High
    } else if same_text(text, "medium") {
        TaskPriority::Medium
    } else if same_text(text, "low") {
        TaskPriority::Low
    } else {
        TaskPriority::Unset
    }
}

/// A stored status reads back as the status that was stored.
pub proof fn lemma_status_column_round_trip(st: TaskStatus)
    ensures
        status_of_column(st.text()) == st,
{
    reveal_strlit("todo");
    reveal_strlit("done");
    reveal_strlit("canceled");
    assert("done"@[0] != "todo"@[0]);
    assert("canceled"@.len() != "todo"@.len() && "canceled"@.len() != "done"@.len());
}

/// A stored priority reads back as the priority that was stored.
pub proof fn lemma_priority_column_round_trip(p: TaskPriority)
    ensures
        priority_of_column(p.text()) == p,
{
    reveal_strlit("high");
    reveal_strlit("medium");
    reveal_strlit("low");
    reveal_strlit("none");
    assert("medium"@.len() != "high"@.len());
    assert("low"@.len() != "high"@.len() && "low"@.len() != "medium"@.len());
    assert("none"@[0] != "high"@[0] && "none"@.len() != "medium"@.len());
    assert("none"@.len() != "low"@.len());
}

} // verus!
