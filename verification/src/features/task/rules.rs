//! Rules between parent tasks, their children, and task chains.
//!
//! The stored tasks live in a database that the application reads and writes. The rules
//! that walk it are written here as walks that name, at each point, the next read or write
//! to make; the application makes it and hands back what it read. The decisions of each
//! step, and the tasks written, are what the contracts below state.
use vstd::prelude::*;
use crate::clock::{is_rfc3339_stamp, local_now_rfc3339};
use crate::features::task::models::{Task, TaskStatus};

verus! {

/// Every task of `children` is done.
pub open spec fn all_done(children: Seq<Task>) -> bool {
    forall|i: int| 0 <= i < children.len() ==> #[trigger] children[i].status == TaskStatus::Done
}

/// The status a parent moves to, given its children; `None` when it keeps its status. A
/// parent without children keeps its status; one whose children are all done becomes done;
/// a done parent with a child not done goes back to to-do; any other parent stays.
pub open spec fn settled_status(current: TaskStatus, children: Seq<Task>) -> Option<TaskStatus> {
    if children.len() == 0 {
        None
    } else if all_done(children) {
        if current != TaskStatus::Done {
            Some(TaskStatus::Done)
        } else {
            None
        }
    } else if current == TaskStatus::Done {
        Some(TaskStatus::Todo)
    } else {
        None
    }
}

/// `t` marked done, with these completion and update stamps.
pub open spec fn as_completed(t: Task, completed_stamp: String, updated_stamp: String) -> Task {
    Task {
        status: TaskStatus::Done,
        completed_at: Some(completed_stamp),
        updated_at: updated_stamp,
        ..t
    }
}

/// `t` back to to-do, without completion stamp, with this update stamp.
pub open spec fn as_reopened(t: Task, updated_stamp: String) -> Task {
    Task { status: TaskStatus::Todo, completed_at: None, updated_at: updated_stamp, ..t }
}

/// Computes `settled_status` of a parent with status `current` and these children.
pub fn settled_status_of(current: TaskStatus, children: &Vec<Task>) -> (r: Option<TaskStatus>)
    ensures
        r == settled_status(current, children@),
{
    if children.len() == 0 {
        return None;
    }
    let mut every_done = true;
    let mut i: usize = 0;
    while i < children.len()
        invariant
            0 <= i <= children.len(),
            every_done == (forall|j: int| 0 <= j < i ==> #[trigger] children@[j].status == TaskStatus::Done),
        decreases children.len() - i,
    {
        if children[i].status != TaskStatus::Done {
            every_done = false;
        }
        i += 1;
    }
    if every_done {
        if current != TaskStatus::Done {
            Some(TaskStatus::Done)
        } else {
            None
        }
    } else if current == TaskStatus::Done {
        Some(TaskStatus::Todo)
    } else {
        None
    }
}

/// Marks a task done, with these completion and update stamps.
pub fn complete_task(t: Task, completed_stamp: String, updated_stamp: String) -> (r: Task)
    ensures
        r == as_completed(t, completed_stamp, updated_stamp),
{
    Task {
        status: TaskStatus::Done,
        completed_at: Some(completed_stamp),
        updated_at: updated_stamp,
        ..t
    }
}

/// Puts a task back to to-do, without completion stamp, with this update stamp.
pub fn reopen_task(t: Task, updated_stamp: String) -> (r: Task)
    ensures
        r == as_reopened(t, updated_stamp),
{
    Task { status: TaskStatus::Todo, completed_at: None, updated_at: updated_stamp, ..t }
}

/// The walk that brings a parent task's status in line with its children and, when it
/// changed, goes on with the parent's own parent. Each variant names the next thing to do.
pub enum ParentStatusCheck {
    /// Read the task with this id.
    ReadTask { id: String },
    /// Read the children of `parent`.
    ReadChildren { parent: Task },
    /// Store `task`, whose status changed.
    WriteTask { task: Task },
    /// Nothing is left to do.
    Finished,
}

impl ParentStatusCheck {
    /// The walk for the parent with this id: it starts by reading that task.
    pub fn start(parent_id: String) -> (r: Self)
        ensures
            r == (ParentStatusCheck::ReadTask { id: parent_id }),
    {
        ParentStatusCheck::ReadTask { id: parent_id }
    }

    /// The task was read: a missing task ends the walk, a present one has its children
    /// read next.
    pub fn task_read(task: Option<Task>) -> (r: Self)
        ensures
            match task {
                None => r == ParentStatusCheck::Finished,
                Some(t) => r == (ParentStatusCheck::ReadChildren { parent: t }),
            },
    {
        match task {
            None => ParentStatusCheck::Finished,
            Some(t) => ParentStatusCheck::ReadChildren { parent: t },
        }
    }

    /// The children of `parent` were read; decides with the given stamps. A parent that
    /// keeps its status ends the walk; a parent that becomes done is stored with
    /// `completed_stamp` and `updated_stamp`; one that goes back to to-do is stored with
    /// `updated_stamp` and no completion stamp.
    pub fn settle(
        parent: Task,
        children: &Vec<Task>,
        completed_stamp: String,
        updated_stamp: String,
    ) -> (r: Self)
        ensures
            match settled_status(parent.status, children@) {
                None => r == ParentStatusCheck::Finished,
                Some(TaskStatus::Done) => r == (ParentStatusCheck::WriteTask {
                    task: as_completed(parent, completed_stamp, updated_stamp),
                }),
                Some(_) => r == (ParentStatusCheck::WriteTask {
                    task: as_reopened(parent, updated_stamp),
                }),
            },
    {
        match settled_status_of(parent.status, children) {
            None => ParentStatusCheck::Finished,
            Some(TaskStatus::Done) => ParentStatusCheck::WriteTask {
                task: complete_task(parent, completed_stamp, updated_stamp),
            },
            Some(_) => ParentStatusCheck::WriteTask { task: reopen_task(parent, updated_stamp) },
        }
    }

    /// The children of `parent` were read; decides, stamping a changed parent with the
    /// current time (completion stamp first, then update stamp, each read from the clock).
    pub fn children_read(parent: Task, children: &Vec<Task>) -> (r: Self)
        ensures
            match settled_status(parent.status, children@) {
                None => r == ParentStatusCheck::Finished,
                Some(TaskStatus::Done) => exists|c: String, u: String|
                    is_rfc3339_stamp(c@) && is_rfc3339_stamp(u@) && r == (ParentStatusCheck::WriteTask {
                        task: #[trigger] as_completed(parent, c, u),
                    }),
                Some(_) => exists|u: String|
                    is_rfc3339_stamp(u@) && r == (ParentStatusCheck::WriteTask {
                        task: #[trigger] as_reopened(parent, u),
                    }),
            },
    {
        match settled_status_of(parent.status, children) {
            None => ParentStatusCheck::Finished,
            Some(TaskStatus::Done) => {
                let c = local_now_rfc3339();
                let u = local_now_rfc3339();
                Self::settle(parent, children, c, u)
            },
            Some(_) => {
                let u = local_now_rfc3339();
                Self::settle(parent, children, u.clone(), u)
            },
        }
    }

    /// The changed task was stored: the walk goes on with its parent, if it has one.
    pub fn task_written(task: Task) -> (r: Self)
        ensures
            match task.parent_id {
                Some(p) => r == (ParentStatusCheck::ReadTask { id: p }),
                None => r == ParentStatusCheck::Finished,
            },
    {
        match task.parent_id {
            Some(p) => ParentStatusCheck::ReadTask { id: p },
            None => ParentStatusCheck::Finished,
        }
    }
}

/// Settling a parent is stable: once the status it settles to is stored, the same children
/// ask for no further change.
pub proof fn lemma_settled_is_stable(current: TaskStatus, children: Seq<Task>)
    ensures
        settled_status(current, children) matches Some(st) ==> settled_status(st, children) is None,
{
}

/// One level of the walk that completes the children of a done task: the children of one
/// task still to visit, in the order they were read, and the stamp that this level puts on
/// the children it completes.
pub struct CompletionLevel {
    pub pending: Vec<Task>,
    pub stamp: String,
}

/// What the completion walk needs done next.
pub enum CompletionStep {
    /// Read the children of the task with this id.
    ReadChildren { parent_id: String },
    /// Store `task`, which the walk marked done.
    WriteTask { task: Task },
    /// Nothing is left to do.
    Finished,
}

/// The walk that marks every child of a done task done, and, below each child it marks,
/// that child's own children, depth first: each child is stored before its own children
/// are read, and a child already done is passed over with the tasks below it.
pub struct ChildrenCompletion {
    pub levels: Vec<CompletionLevel>,
    pub step: CompletionStep,
}

/// The levels of a walk, each as its pending children and its stamp.
pub open spec fn levels_view(levels: Seq<CompletionLevel>) -> Seq<(Seq<Task>, String)> {
    levels.map_values(|l: CompletionLevel| (l.pending@, l.stamp))
}

/// How many children the innermost level still holds.
pub open spec fn innermost_pending(levels: Seq<(Seq<Task>, String)>) -> nat {
    if levels.len() > 0 {
        levels.last().0.len()
    } else {
        0
    }
}

/// Where the walk goes from these levels: levels with nothing left are dropped, done
/// children are passed over, and the first child not done, of the innermost level, is
/// marked done with the level's stamp, as completion and as update stamp.
pub open spec fn advance(levels: Seq<(Seq<Task>, String)>) -> (Seq<(Seq<Task>, String)>, CompletionStep)
    decreases levels.len(), innermost_pending(levels),
{
    if levels.len() == 0 {
        (levels, CompletionStep::Finished)
    } else {
        let top = levels.last();
        if top.0.len() == 0 {
            advance(levels.drop_last())
        } else {
            let child = top.0[0];
            let rest = levels.drop_last().push((top.0.drop_first(), top.1));
            if child.status == TaskStatus::Done {
                proof {
                    assert(rest.last() == (top.0.drop_first(), top.1));
                }
                advance(rest)
            } else {
                (rest, CompletionStep::WriteTask { task: as_completed(child, top.1, top.1) })
            }
        }
    }
}

impl ChildrenCompletion {
    /// The walk below the task with this id: it starts by reading that task's children.
    pub fn start(parent_id: String) -> (r: Self)
        ensures
            r.levels@.len() == 0,
            r.step == (CompletionStep::ReadChildren { parent_id }),
    {
        ChildrenCompletion { levels: Vec::new(), step: CompletionStep::ReadChildren { parent_id } }
    }

    /// Goes from these levels to the next thing to do, as `advance` says.
    fn advanced(levels: Vec<CompletionLevel>) -> (r: Self)
        ensures
            (levels_view(r.levels@), r.step) == advance(levels_view(levels@)),
    {
        let ghost target = advance(levels_view(levels@));
        let mut work = levels;
        loop
            invariant
                advance(levels_view(work@)) == target,
                target == advance(levels_view(levels@)),
            decreases work@.len(), innermost_pending(levels_view(work@)),
        {
            let ghost before = work@;
            match work.pop() {
                None => {
                    assert(levels_view(work@) =~= Seq::<(Seq<Task>, String)>::empty());
                    return ChildrenCompletion { levels: work, step: CompletionStep::Finished };
                },
                Some(level) => {
                    assert(levels_view(work@) =~= levels_view(before).drop_last());
                    let CompletionLevel { pending, stamp } = level;
                    let mut pending = pending;
                    if pending.len() == 0 {
                        continue;
                    }
                    let ghost top = (pending@, stamp);
                    assert(levels_view(before).last() == top);
                    let child = pending.remove(0);
                    let done = child.status == TaskStatus::Done;
                    let first_stamp = stamp.clone();
                    let second_stamp = stamp.clone();
                    work.push(CompletionLevel { pending, stamp });
                    assert(levels_view(work@) =~= levels_view(before).drop_last().push(
                        (top.0.drop_first(), top.1),
                    ));
                    if !done {
                        let task = complete_task(child, first_stamp, second_stamp);
                        return ChildrenCompletion { levels: work, step: CompletionStep::WriteTask { task } };
                    }
                },
            }
        }
    }

    /// The children of the task in `ReadChildren` were read; `stamp` is the time stamp of
    /// their level. The walk adds a level for them and goes on, as `advance` says.
    pub fn children_read_at(self, children: Vec<Task>, stamp: String) -> (r: Self)
        ensures
            (levels_view(r.levels@), r.step) == advance(
                levels_view(self.levels@).push((children@, stamp)),
            ),
    {
        let mut levels = self.levels;
        let ghost before = levels@;
        levels.push(CompletionLevel { pending: children, stamp });
        assert(levels_view(levels@) =~= levels_view(before).push((children@, stamp)));
        Self::advanced(levels)
    }

    /// The children were read; their level is stamped with the current time, read once.
    pub fn children_read(self, children: Vec<Task>) -> (r: Self)
        ensures
            exists|stamp: String|
                is_rfc3339_stamp(stamp@) && (levels_view(r.levels@), r.step) == #[trigger] advance(
                    levels_view(self.levels@).push((children@, stamp)),
                ),
    {
        let stamp = local_now_rfc3339();
        self.children_read_at(children, stamp)
    }

    /// The task in `WriteTask` was stored: the walk reads its children next. In any other
    /// step the walk is left as it is.
    pub fn task_written(self) -> (r: Self)
        ensures
            match self.step {
                CompletionStep::WriteTask { task } => levels_view(r.levels@) == levels_view(self.levels@)
                    && r.step == (CompletionStep::ReadChildren { parent_id: task.id }),
                _ => levels_view(r.levels@) == levels_view(self.levels@) && r.step == self.step,
            },
    {
        let ChildrenCompletion { levels, step } = self;
        match step {
            CompletionStep::WriteTask { task } => ChildrenCompletion {
                levels,
                step: CompletionStep::ReadChildren { parent_id: task.id },
            },
            other => ChildrenCompletion { levels, step: other },
        }
    }
}

/// The completion walk only ever stores a child marked done, stamped with its level's
/// stamp, with every other field as the child had it when it was read.
pub proof fn lemma_completion_writes_only_done_tasks(levels: Seq<(Seq<Task>, String)>)
    ensures
        advance(levels).1 matches CompletionStep::WriteTask { task } ==> exists|k: int, j: int|
            0 <= k < levels.len() && 0 <= j < levels[k].0.len() && task == #[trigger] as_completed(
                levels[k].0[j],
                levels[k].1,
                levels[k].1,
            ),
    decreases levels.len(), innermost_pending(levels),
{
    if levels.len() > 0 {
        let top = levels.last();
        let last = levels.len() - 1;
        if top.0.len() == 0 {
            lemma_completion_writes_only_done_tasks(levels.drop_last());
            if let CompletionStep::WriteTask { task } = advance(levels).1 {
                let (k, j) = choose|k: int, j: int|
                    0 <= k < levels.drop_last().len() && 0 <= j < levels.drop_last()[k].0.len()
                        && task == #[trigger] as_completed(
                        levels.drop_last()[k].0[j],
                        levels.drop_last()[k].1,
                        levels.drop_last()[k].1,
                    );
                assert(levels.drop_last()[k] == levels[k]);
            }
        } else {
            let child = top.0[0];
            let rest = levels.drop_last().push((top.0.drop_first(), top.1));
            assert(rest.last() == (top.0.drop_first(), top.1));
            if child.status == TaskStatus::Done {
                lemma_completion_writes_only_done_tasks(rest);
                if let CompletionStep::WriteTask { task } = advance(levels).1 {
                    let (k, j) = choose|k: int, j: int|
                        0 <= k < rest.len() && 0 <= j < rest[k].0.len() && task
                            == #[trigger] as_completed(rest[k].0[j], rest[k].1, rest[k].1);
                    if k == last {
                        assert(rest[k].0[j] == levels[last].0[j + 1]);
                        assert(task == as_completed(levels[last].0[j + 1], levels[last].1, levels[last].1));
                    } else {
                        assert(rest[k] == levels[k]);
                    }
                }
            } else {
                assert(levels[last].0[0] == child);
                assert(advance(levels).1 == CompletionStep::WriteTask { task: as_completed(levels[last].0[0], levels[last].1, levels[last].1) });
            }
        }
    }
}

/// A walk whose levels hold only done children is over: nothing is stored.
pub proof fn lemma_completion_of_done_children_is_empty(levels: Seq<(Seq<Task>, String)>)
    requires
        forall|k: int, j: int|
            0 <= k < levels.len() && 0 <= j < levels[k].0.len() ==> (#[trigger] levels[k].0[j]).status
                == TaskStatus::Done,
    ensures
        advance(levels).1 == CompletionStep::Finished,
    decreases levels.len(), innermost_pending(levels),
{
    if levels.len() > 0 {
        let top = levels.last();
        if top.0.len() == 0 {
            lemma_completion_of_done_children_is_empty(levels.drop_last());
        } else {
            let rest = levels.drop_last().push((top.0.drop_first(), top.1));
            assert(top.0[0] == levels[levels.len() - 1].0[0]);
            assert forall|k: int, j: int| 0 <= k < rest.len() && 0 <= j < rest[k].0.len() implies (
            #[trigger] rest[k].0[j]).status == TaskStatus::Done by {
                if k == rest.len() - 1 {
                    assert(rest[k].0[j] == levels[k].0[j + 1]);
                } else {
                    assert(rest[k] == levels[k]);
                }
            }
            assert(rest.last() == (top.0.drop_first(), top.1));
            lemma_completion_of_done_children_is_empty(rest);
        }
    }
}

/// A parent with children ends up done exactly when all of its children are done, whether
/// it changed or kept its status.
pub proof fn lemma_settled_parent_done_iff_children_done(current: TaskStatus, children: Seq<Task>)
    requires
        children.len() > 0,
    ensures
        (match settled_status(current, children) {
            Some(st) => st,
            None => current,
        } == TaskStatus::Done) <==> all_done(children),
{
}

/// The index of the first task to do in `s` at or after `k`, or `s.len()` if there is none.
pub open spec fn first_todo_from(s: Seq<Task>, k: int) -> int
    decreases s.len() - k,
{
    if k < 0 || k >= s.len() {
        s.len() as int
    } else if s[k].status == TaskStatus::Todo {
        k
    } else {
        first_todo_from(s, k + 1)
    }
}

/// The task of a chain that is active: the first one to do, in chain order.
pub open spec fn active_task(chain: Seq<Task>) -> Option<Task> {
    let i = first_todo_from(chain, 0);
    if i < chain.len() {
        Some(chain[i])
    } else {
        None
    }
}

/// Skipping tasks that are not to do leaves the first one to do where it was.
proof fn lemma_first_todo_skip(s: Seq<Task>, k: int, m: int)
    requires
        0 <= k <= m <= s.len(),
        forall|j: int| k <= j < m ==> #[trigger] s[j].status != TaskStatus::Todo,
    ensures
        first_todo_from(s, k) == first_todo_from(s, m),
    decreases m - k,
{
    if k < m {
        lemma_first_todo_skip(s, k + 1, m);
    }
}

/// The first task to do at or after `k` is one to do, and none before it from `k` is.
proof fn lemma_first_todo_is_first(s: Seq<Task>, k: int)
    requires
        0 <= k <= s.len(),
    ensures
        k <= first_todo_from(s, k) <= s.len(),
        first_todo_from(s, k) < s.len() ==> s[first_todo_from(s, k)].status == TaskStatus::Todo,
        forall|j: int| k <= j < first_todo_from(s, k) ==> #[trigger] s[j].status != TaskStatus::Todo,
    decreases s.len() - k,
{
    if k < s.len() && s[k].status != TaskStatus::Todo {
        lemma_first_todo_is_first(s, k + 1);
    }
}

/// Two sequences that agree from `k` on have the same first task to do from `k` on.
proof fn lemma_first_todo_same_tail(s: Seq<Task>, t: Seq<Task>, k: int)
    requires
        0 <= k <= s.len(),
        s.len() == t.len(),
        forall|j: int| k <= j < s.len() ==> s[j] == t[j],
    ensures
        first_todo_from(s, k) == first_todo_from(t, k),
    decreases s.len() - k,
{
    if k < s.len() {
        lemma_first_todo_same_tail(s, t, k + 1);
    }
}

/// Picks the active task of a chain, given in chain order: the first one to do.
pub fn select_active_task(chain: Vec<Task>) -> (r: Option<Task>)
    ensures
        r == active_task(chain@),
{
    let ghost given = chain@;
    let mut tasks = chain;
    let n: usize = tasks.len();
    let mut i: usize = 0;
    while i < n
        invariant
            n == tasks.len(),
            tasks@ == given,
            chain@ == given,
            0 <= i <= n,
            forall|j: int| 0 <= j < i ==> #[trigger] tasks@[j].status != TaskStatus::Todo,
        decreases n - i,
    {
        if tasks[i].status == TaskStatus::Todo {
            proof {
                lemma_first_todo_skip(tasks@, 0, i as int);
                assert(first_todo_from(tasks@, i as int) == i);
            }
            let t = tasks.swap_remove(i);

            return Some(t);
        }
        i += 1;
    }
    proof {
        lemma_first_todo_skip(tasks@, 0, n as int);
    }
    None
}

/// In a chain whose active task is at `i`, once that task is stored with a status other than
/// to-do, the active task becomes the first one to do after `i`.
pub proof fn lemma_chain_advances(chain: Seq<Task>, i: int, finished: Task)
    requires
        i == first_todo_from(chain, 0),
        i < chain.len(),
        finished.status != TaskStatus::Todo,
    ensures
        first_todo_from(chain.update(i, finished), 0) == first_todo_from(chain, i + 1),
        active_task(chain.update(i, finished)) == (if first_todo_from(chain, i + 1) < chain.len() {
            Some(chain[first_todo_from(chain, i + 1)])
        } else {
            None
        }),
{
    let s2 = chain.update(i, finished);
    lemma_first_todo_is_first(chain, 0);
    assert forall|j: int| 0 <= j < i + 1 implies #[trigger] s2[j].status != TaskStatus::Todo by {
        if j < i {
            assert(s2[j] == chain[j]);
        }
    }
    lemma_first_todo_skip(s2, 0, i + 1);
    lemma_first_todo_same_tail(s2, chain, i + 1);
    lemma_first_todo_is_first(chain, i + 1);
}

} // verus!
