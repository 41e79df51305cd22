//! Task records and the text forms of their status and priority.
use vstd::prelude::*;
use crate::clock::{is_rfc3339_stamp, is_v4_uuid_text, local_now_rfc3339, new_uuid_v4_string};
use crate::text::{ascii_lowercase, is_ascii_text, lowercase_of, same_text, to_lowercase};

verus! {

/// Where a task stands.
#[derive(Debug, Clone, Copy, PartialEq, Eq, Structural)]
pub enum TaskStatus {
    Todo,
    Done,
    Canceled,
}

/// How urgent a task is.
#[derive(Debug, Clone, Copy, PartialEq, Eq, Structural)]
pub enum TaskPriority {
    High,
    Medium,
    Low,
    /// No priority given; its text is "none".
    Unset,
}

/// A task as the application stores it.
#[derive(Debug, Clone)]
pub struct Task {
    pub id: String,
    pub title: String,
    pub status: TaskStatus,
    pub priority: TaskPriority,
    pub created_at: String,
    pub updated_at: String,
    pub completed_at: Option<String>,
    pub due_date: Option<String>,
    pub due_reminder: bool,
    pub parent_id: Option<String>,
    pub chain_id: Option<String>,
    pub chain_order: Option<i64>,
    pub recurrence_rule: Option<String>,
    pub recurrence_interval: Option<i64>,
    pub recurrence_days: Option<String>,
    pub recurrence_dom: Option<i64>,
    pub recurrence_limit_type: Option<String>,
    pub recurrence_limit_count: Option<i64>,
    pub recurrence_limit_date: Option<String>,
    pub exclude_dates: String,
    pub markdown_path: String,
    pub last_device_id: String,
}

/// `prefix` followed by `s`.
pub open spec fn prefixed(prefix: Seq<char>, s: Seq<char>) -> Seq<char> {
    prefix + s
}

/// A new string holding `prefix` and then `s`.
fn join_text(prefix: &str, s: &str) -> (r: String)
    ensures
        r@ == prefix@ + s@,
{
    let mut m: String = prefix.to_owned();
    m.append(s);
    m
}

impl TaskStatus {
    /// The text that names the status.
    pub open spec fn text(self) -> Seq<char> {
        match self {
            TaskStatus::Todo => "todo"@,
            TaskStatus::Done => "done"@,
            TaskStatus::Canceled => "canceled"@,
        }
    }

    /// The status that a lowercase text names; "cancelled" is taken for `Canceled` too.
    pub open spec fn named_by(s: Seq<char>) -> Option<TaskStatus> {
        if s == "todo"@ {
            Some(TaskStatus::Todo)
        } else if s == "done"@ {
            Some(TaskStatus::Done)
        } else if s == "canceled"@ || s == "cancelled"@ {
            Some(TaskStatus::Canceled)
        } else {
            None
        }
    }

    /// `r` is what reading `input`, whose lowercase form is `lower`, gives.
    pub open spec fn read_as(r: Result<Self, String>, lower: Seq<char>, input: Seq<char>) -> bool {
        match Self::named_by(lower) {
            Some(st) => r == Ok::<Self, String>(st),
            None => r matches Err(m) && m@ == prefixed("invalid task status: "@, input),
        }
    }

    /// The lowercase text of the status.
    pub fn as_str(&self) -> (r: &'static str)
        ensures
            r@ == self.text(),
    {
        match self {
            TaskStatus::Todo => "todo",
            TaskStatus::Done => "done",
            TaskStatus::Canceled => "canceled",
        }
    }

    /// Reads a status from `lower`, the lowercase form of `input`; on failure the error
    /// names `input`.
    pub fn from_lowercase(lower: &str, input: &str) -> (r: Result<Self, String>)
        ensures
            Self::read_as(r, lower@, input@),
    {
        if same_text(lower, "todo") {
            Ok(TaskStatus::Todo)
        } else if same_text(lower, "done") {
            Ok(TaskStatus::Done)
        } else if same_text(lower, "canceled") || same_text(lower, "cancelled") {
            Ok(TaskStatus::Canceled)
        } else {
            Err(join_text("invalid task status: ", input))
        }
    }

    /// Reads a status, ignoring case.
    pub fn from_str(s: &str) -> (r: Result<Self, String>)
        ensures
            Self::read_as(r, lowercase_of(s@), s@),
            is_ascii_text(s@) ==> Self::read_as(r, ascii_lowercase(s@), s@),
    {
        let lower = to_lowercase(s);
        Self::from_lowercase(lower.as_str(), s)
    }
}

impl TaskPriority {
    /// The text that names the priority.
    pub open spec fn text(self) -> Seq<char> {
        match self {
            TaskPriority::High => "high"@,
            TaskPriority::Medium => "medium"@,
            TaskPriority::Low => "low"@,
            TaskPriority::Unset => "none"@,
        }
    }

    /// The priority that a lowercase text names.
    pub open spec fn named_by(s: Seq<char>) -> Option<TaskPriority> {
        if s == "high"@ {
            Some(TaskPriority::High)
        } else if s == "medium"@ {
            Some(TaskPriority::Medium)
        } else if s == "low"@ {
            Some(TaskPriority::Low)
        } else if s == "none"@ {
            Some(TaskPriority::Unset)
        } else {
            None
        }
    }

    /// `r` is what reading `input`, whose lowercase form is `lower`, gives.
    pub open spec fn read_as(r: Result<Self, String>, lower: Seq<char>, input: Seq<char>) -> bool {
        match Self::named_by(lower) {
            Some(p) => r == Ok::<Self, String>(p),
            None => r matches Err(m) && m@ == prefixed("invalid task priority: "@, input),
        }
    }

    /// The lowercase text of the priority.
    pub fn as_str(&self) -> (r: &'static str)
        ensures
            r@ == self.text(),
    {
        match self {
            TaskPriority::High => "high",
            TaskPriority::Medium => "medium",
            TaskPriority::Low => "low",
            TaskPriority::Unset => "none",
        }
    }

    /// Reads a priority from `lower`, the lowercase form of `input`; on failure the error
    /// names `input`.
    pub fn from_lowercase(lower: &str, input: &str) -> (r: Result<Self, String>)
        ensures
            Self::read_as(r, lower@, input@),
    {
        if same_text(lower, "high") {
            Ok(TaskPriority::High)
        } else if same_text(lower, "medium") {
            Ok(TaskPriority::Medium)
        } else if same_text(lower, "low") {
            Ok(TaskPriority::Low)
        } else if same_text(lower, "none") {
            Ok(TaskPriority::Unset)
        } else {
            Err(join_text("invalid task priority: ", input))
        }
    }

    /// Reads a priority, ignoring case.
    pub fn from_str(s: &str) -> (r: Result<Self, String>)
        ensures
            Self::read_as(r, lowercase_of(s@), s@),
            is_ascii_text(s@) ==> Self::read_as(r, ascii_lowercase(s@), s@),
    {
        let lower = to_lowercase(s);
        Self::from_lowercase(lower.as_str(), s)
    }
}

/// The status that a status-change request names: exactly "todo", "done" or "canceled";
/// any other text keeps `current`.
pub open spec fn requested_status(current: TaskStatus, requested: Seq<char>) -> TaskStatus {
    if requested == "todo"@ {
        TaskStatus::Todo
    } else if requested == "done"@ {
        TaskStatus::Done
    } else if requested == "canceled"@ {
        TaskStatus::Canceled
    } else {
        current
    }
}

/// Reads the status that a status-change request names; any other text keeps `current`.
pub fn requested_status_of(current: TaskStatus, requested: &str) -> (r: TaskStatus)
    ensures
        r == requested_status(current, requested@),
{
    if same_text(requested, "todo") {
        TaskStatus::Todo
    } else if same_text(requested, "done") {
        TaskStatus::Done
    } else if same_text(requested, "canceled") {
        TaskStatus::Canceled
    } else {
        current
    }
}

impl Task {
    /// `t` is the task that creation makes from these values, with `now` as its time stamp.
    pub open spec fn is_created(
        t: Task,
        id: String,
        title: String,
        parent_id: Option<String>,
        chain_id: Option<String>,
        chain_order: Option<i64>,
        now: String,
    ) -> bool {
        &&& t.id == id
        &&& t.title == title
        &&& t.status == TaskStatus::Todo
        &&& t.priority == TaskPriority::Unset
        &&& t.created_at == now
        &&& t.updated_at == now
        &&& t.completed_at is None
        &&& t.due_date is None
        &&& !t.due_reminder
        &&& t.parent_id == parent_id
        &&& t.chain_id == chain_id
        &&& t.chain_order == chain_order
        &&& t.recurrence_rule is None
        &&& t.recurrence_interval is None
        &&& t.recurrence_days is None
        &&& t.recurrence_dom is None
        &&& t.recurrence_limit_type is None
        &&& t.recurrence_limit_count is None
        &&& t.recurrence_limit_date is None
        &&& t.exclude_dates@ == "[]"@
        &&& t.markdown_path@ == ""@
        &&& t.last_device_id@ == ""@
    }

    /// A new task, to do, without priority, due date or recurrence, stamped `now`.
    pub fn new_with(
        id: String,
        title: String,
        parent_id: Option<String>,
        chain_id: Option<String>,
        chain_order: Option<i64>,
        now: String,
    ) -> (r: Task)
        ensures
            Self::is_created(r, id, title, parent_id, chain_id, chain_order, now),
    {
        Task {
            id,
            title,
            status: TaskStatus::Todo,
            priority: TaskPriority::Unset,
            created_at: now.clone(),
            updated_at: now,
            completed_at: None,
            due_date: None,
            due_reminder: false,
            parent_id,
            chain_id,
            chain_order,
            recurrence_rule: None,
            recurrence_interval: None,
            recurrence_days: None,
            recurrence_dom: None,
            recurrence_limit_type: None,
            recurrence_limit_count: None,
            recurrence_limit_date: None,
            exclude_dates: "[]".to_owned(),
            markdown_path: "".to_owned(),
            last_device_id: "".to_owned(),
        }
    }

    /// A new task with a fresh random id, stamped with the current time.
    pub fn create(
        title: String,
        parent_id: Option<String>,
        chain_id: Option<String>,
        chain_order: Option<i64>,
    ) -> (r: Task)
        ensures
            Self::is_created(r, r.id, title, parent_id, chain_id, chain_order, r.created_at),
            is_v4_uuid_text(r.id@),
            is_rfc3339_stamp(r.created_at@),
    {
        let id = new_uuid_v4_string();
        let now = local_now_rfc3339();
        Self::new_with(id, title, parent_id, chain_id, chain_order, now)
    }

    /// The task after a status-change request, stamped as given: the status it names (see
    /// `requested_status`), `updated_stamp` as update stamp, and `completed_stamp` as
    /// completion stamp when the new status is `Done`, no completion stamp otherwise.
    pub fn with_requested_status_at(
        self,
        requested: &str,
        updated_stamp: String,
        completed_stamp: String,
    ) -> (r: Task)
        ensures
            r == restamped(self, requested@, updated_stamp, completed_stamp),
    {
        let status = requested_status_of(self.status, requested);
        let completed_at = match status {
            TaskStatus::Done => Some(completed_stamp),
            _ => None,
        };
        Task { status, updated_at: updated_stamp, completed_at, ..self }
    }

    /// The task after a status-change request, stamped with the current time: the update
    /// stamp is read from the clock first, then, when the new status is `Done`, the
    /// completion stamp.
    pub fn with_requested_status(self, requested: &str) -> (r: Task)
        ensures
            exists|u: String, c: String|
                is_rfc3339_stamp(u@) && is_rfc3339_stamp(c@) && r == #[trigger] restamped(
                    self,
                    requested@,
                    u,
                    c,
                ),
    {
        let status = requested_status_of(self.status, requested);
        let updated_at = local_now_rfc3339();
        let completed_at = match status {
            TaskStatus::Done => local_now_rfc3339(),
            _ => updated_at.clone(),
        };
        self.with_requested_status_at(requested, updated_at, completed_at)
    }
}

/// The task `t` after a request naming `requested`, stamped `updated_stamp`, and, when it
/// becomes done, `completed_stamp`.
pub open spec fn restamped(
    t: Task,
    requested: Seq<char>,
    updated_stamp: String,
    completed_stamp: String,
) -> Task {
    let status = requested_status(t.status, requested);
    Task {
        status,
        updated_at: updated_stamp,
        completed_at: if status == TaskStatus::Done {
            Some(completed_stamp)
        } else {
            None
        },
        ..t
    }
}

impl std::str::FromStr for TaskStatus {
    type Err = String;

    fn from_str(s: &str) -> (r: Result<Self, Self::Err>)
        ensures
            Self::read_as(r, lowercase_of(s@), s@),
            is_ascii_text(s@) ==> Self::read_as(r, ascii_lowercase(s@), s@),
    {
        TaskStatus::from_str(s)
    }
}

impl std::str::FromStr for TaskPriority {
    type Err = String;

    fn from_str(s: &str) -> (r: Result<Self, Self::Err>)
        ensures
            Self::read_as(r, lowercase_of(s@), s@),
            is_ascii_text(s@) ==> Self::read_as(r, ascii_lowercase(s@), s@),
    {
        TaskPriority::from_str(s)
    }
}

/// The text of every status is ASCII, and reading it back, in whatever case it was
/// folded, names the same status: `TaskStatus::from_str(st.as_str())` is `Ok(st)`.
pub proof fn lemma_status_text_round_trip(st: TaskStatus)
    ensures
        is_ascii_text(st.text()),
        ascii_lowercase(st.text()) == st.text(),
        TaskStatus::named_by(st.text()) == Some(st),
{
    reveal_strlit("todo");
    reveal_strlit("done");
    reveal_strlit("canceled");
    reveal_strlit("cancelled");
    assert(ascii_lowercase(st.text()) =~= st.text());
    assert("done"@[0] != "todo"@[0]);
    assert("canceled"@.len() != "todo"@.len() && "canceled"@.len() != "done"@.len());
}

/// The text of every priority is ASCII, and reading it back, in whatever case it was
/// folded, names the same priority: `TaskPriority::from_str(p.as_str())` is `Ok(p)`.
pub proof fn lemma_priority_text_round_trip(p: TaskPriority)
    ensures
        is_ascii_text(p.text()),
        ascii_lowercase(p.text()) == p.text(),
        TaskPriority::named_by(p.text()) == Some(p),
{
    reveal_strlit("high");
    reveal_strlit("medium");
    reveal_strlit("low");
    reveal_strlit("none");
    assert(ascii_lowercase(p.text()) =~= p.text());
    assert("medium"@.len() != "high"@.len());
    assert("low"@.len() != "high"@.len() && "low"@.len() != "medium"@.len());
    assert("none"@[0] != "high"@[0] && "none"@.len() != "medium"@.len());
    assert("none"@.len() != "low"@.len());
}

/// A status-change request that names a status by its text (`as_str`) gives that status,
/// whatever the status of the task was: a canceled or done task goes back to to-do on
/// "todo", any task becomes done on "done" and canceled on "canceled".
pub proof fn lemma_request_gives_the_named_status(current: TaskStatus, target: TaskStatus)
    ensures
        requested_status(current, target.text()) == target,
{
    reveal_strlit("todo");
    reveal_strlit("done");
    reveal_strlit("canceled");
    assert("done"@[0] != "todo"@[0]);
    assert("canceled"@.len() != "todo"@.len() && "canceled"@.len() != "done"@.len());
}

/// A status-change request whose text names no status leaves the status as it was.
pub proof fn lemma_request_naming_nothing_keeps_the_status(current: TaskStatus, requested: Seq<char>)
    requires
        requested != TaskStatus::Todo.text(),
        requested != TaskStatus::Done.text(),
        requested != TaskStatus::Canceled.text(),
    ensures
        requested_status(current, requested) == current,
{
}

} // verus!
