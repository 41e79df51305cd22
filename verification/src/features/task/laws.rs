//! Laws of a whole completion walk (`ChildrenCompletion`), run against stored tasks.
//!
//! A run is modelled over `kids`, what reading the children of a task gives (by the task's
//! id), and `stamps`, the stamp each level gets (by the id whose children it holds). While
//! the parent links have no cycle, the children of each task are read once, before any of
//! them is written, so what a read gives does not depend on the writes before it.
use vstd::prelude::*;
use crate::features::task::models::{Task, TaskStatus};
use crate::features::task::rules::{
    advance,
    as_completed,
    innermost_pending,
    lemma_completion_of_done_children_is_empty,
    lemma_completion_writes_only_done_tasks,
    CompletionStep,
};

verus! {

/// `t` is `c` completed by the walk: marked done, stamped with its own update stamp.
pub open spec fn completes(t: Task, c: Task) -> bool {
    t == as_completed(c, t.updated_at, t.updated_at)
}

/// `c` is done, or one of the writes `w` completes it.
pub open spec fn covered(w: Seq<Task>, c: Task) -> bool {
    c.status == TaskStatus::Done || exists|i: int| 0 <= i < w.len() && completes(#[trigger] w[i], c)
}

/// Every child of the task with id `id` is covered by the writes `w`.
pub open spec fn children_covered(
    kids: spec_fn(Seq<char>) -> Seq<Task>,
    w: Seq<Task>,
    id: Seq<char>,
) -> bool {
    forall|j: int| 0 <= j < kids(id).len() ==> covered(w, #[trigger] kids(id)[j])
}

/// `c` is pending in one of the levels.
pub open spec fn pending_in(levels: Seq<(Seq<Task>, String)>, c: Task) -> bool {
    exists|k: int, j: int|
        0 <= k < levels.len() && 0 <= j < levels[k].0.len() && #[trigger] levels[k].0[j] == c
}

/// The tasks a walk stores, in order, when it is run from `levels` and `step` and ends
/// within `fuel` steps; `None` when it does not end within them.
pub open spec fn run_writes(
    kids: spec_fn(Seq<char>) -> Seq<Task>,
    stamps: spec_fn(Seq<char>) -> String,
    levels: Seq<(Seq<Task>, String)>,
    step: CompletionStep,
    fuel: nat,
) -> Option<Seq<Task>>
    decreases fuel,
{
    if fuel == 0 {
        None
    } else {
        match step {
            CompletionStep::Finished => Some(Seq::empty()),
            CompletionStep::ReadChildren { parent_id } => {
                let next = advance(levels.push((kids(parent_id@), stamps(parent_id@))));
                run_writes(kids, stamps, next.0, next.1, (fuel - 1) as nat)
            },
            CompletionStep::WriteTask { task } => {
                match run_writes(
                    kids,
                    stamps,
                    levels,
                    CompletionStep::ReadChildren { parent_id: task.id },
                    (fuel - 1) as nat,
                ) {
                    Some(rest) => Some(seq![task] + rest),
                    None => None,
                }
            },
        }
    }
}

/// A walk that `advance` ends leaves no level behind.
proof fn lemma_advance_finishes_empty(levels: Seq<(Seq<Task>, String)>)
    ensures
        advance(levels).1 == CompletionStep::Finished ==> advance(levels).0.len() == 0,
    decreases levels.len(), innermost_pending(levels),
{
    if levels.len() > 0 {
        let top = levels.last();
        if top.0.len() == 0 {
            lemma_advance_finishes_empty(levels.drop_last());
        } else {
            let rest = levels.drop_last().push((top.0.drop_first(), top.1));
            assert(rest.last() == (top.0.drop_first(), top.1));
            if top.0[0].status == TaskStatus::Done {
                lemma_advance_finishes_empty(rest);
            }
        }
    }
}

/// A child not done that is pending stays pending through `advance`, or is the task that
/// `advance` marks done.
proof fn lemma_advance_keeps_pending(levels: Seq<(Seq<Task>, String)>, k: int, j: int)
    requires
        0 <= k < levels.len(),
        0 <= j < levels[k].0.len(),
        levels[k].0[j].status != TaskStatus::Done,
    ensures
        pending_in(advance(levels).0, levels[k].0[j]) || (advance(levels).1 matches
            CompletionStep::WriteTask { task } && completes(task, levels[k].0[j])),
    decreases levels.len(), innermost_pending(levels),
{
    let c = levels[k].0[j];
    let last = levels.len() - 1;
    let top = levels.last();
    if top.0.len() == 0 {
        assert(k != last);
        assert(levels.drop_last()[k] == levels[k]);
        lemma_advance_keeps_pending(levels.drop_last(), k, j);
    } else {
        let child = top.0[0];
        let rest = levels.drop_last().push((top.0.drop_first(), top.1));
        assert(rest.last() == (top.0.drop_first(), top.1));
        if k == last && j == 0 {
            assert(child == c);
            assert(completes(as_completed(child, top.1, top.1), c));
        } else {
            let (k2, j2) = if k == last {
                (last, j - 1)
            } else {
                (k, j)
            };
            if k == last {
                assert(rest[k2].0[j2] == top.0[j]);
            } else {
                assert(rest[k2] == levels[k]);
            }
            assert(rest[k2].0[j2] == c);
            if child.status == TaskStatus::Done {
                lemma_advance_keeps_pending(rest, k2, j2);
            } else {
                assert(pending_in(rest, c));
            }
        }
    }
}

/// What a run that ends stores covers every child not done that is pending, starts with the
/// task the walk is about to store, covers the children of the task whose children it is
/// about to read, and covers the children of every task it stores.
proof fn lemma_run_covers(
    kids: spec_fn(Seq<char>) -> Seq<Task>,
    stamps: spec_fn(Seq<char>) -> String,
    levels: Seq<(Seq<Task>, String)>,
    step: CompletionStep,
    fuel: nat,
    w: Seq<Task>,
)
    requires
        run_writes(kids, stamps, levels, step, fuel) == Some(w),
        step == CompletionStep::Finished ==> levels.len() == 0,
        step matches CompletionStep::WriteTask { task } ==> task.status == TaskStatus::Done,
    ensures
        forall|k: int, j: int|
            0 <= k < levels.len() && 0 <= j < levels[k].0.len() ==> covered(
                w,
                #[trigger] levels[k].0[j],
            ),
        step matches CompletionStep::WriteTask { task } ==> w.len() > 0 && w[0] == task,
        step matches CompletionStep::ReadChildren { parent_id } ==> children_covered(
            kids,
            w,
            parent_id@,
        ),
        forall|i: int| 0 <= i < w.len() ==> children_covered(kids, w, (#[trigger] w[i]).id@),
        forall|i: int| 0 <= i < w.len() ==> (#[trigger] w[i]).status == TaskStatus::Done,
    decreases fuel,
{
    match step {
        CompletionStep::Finished => {},
        CompletionStep::ReadChildren { parent_id } => {
            let pushed = levels.push((kids(parent_id@), stamps(parent_id@)));
            let next = advance(pushed);
            lemma_advance_finishes_empty(pushed);
            lemma_completion_writes_only_done_tasks(pushed);
            lemma_run_covers(kids, stamps, next.0, next.1, (fuel - 1) as nat, w);
            assert forall|k: int, j: int|
                0 <= k < pushed.len() && 0 <= j < pushed[k].0.len() implies covered(
                w,
                #[trigger] pushed[k].0[j],
            ) by {
                if pushed[k].0[j].status != TaskStatus::Done {
                    lemma_advance_keeps_pending(pushed, k, j);
                    if pending_in(next.0, pushed[k].0[j]) {
                        let (k2, j2) = choose|k2: int, j2: int|
                            0 <= k2 < next.0.len() && 0 <= j2 < next.0[k2].0.len() && #[trigger] next.0[k2].0[j2]
                                == pushed[k].0[j];
                        assert(covered(w, next.0[k2].0[j2]));
                    } else {
                        assert(completes(w[0], pushed[k].0[j]));
                    }
                }
            }
            assert forall|k: int, j: int|
                0 <= k < levels.len() && 0 <= j < levels[k].0.len() implies covered(
                w,
                #[trigger] levels[k].0[j],
            ) by {
                assert(pushed[k] == levels[k]);
                assert(covered(w, pushed[k].0[j]));
            }
            let last = levels.len() as int;
            assert(pushed[last].0 == kids(parent_id@));
            assert forall|j: int| 0 <= j < kids(parent_id@).len() implies covered(
                w,
                #[trigger] kids(parent_id@)[j],
            ) by {
                assert(covered(w, pushed[last].0[j]));
            }
        },
        CompletionStep::WriteTask { task } => {
            let read = CompletionStep::ReadChildren { parent_id: task.id };
            let rest = run_writes(kids, stamps, levels, read, (fuel - 1) as nat).unwrap();
            lemma_run_covers(kids, stamps, levels, read, (fuel - 1) as nat, rest);
            assert(w == seq![task] + rest);
            assert forall|c: Task| covered(rest, c) implies covered(w, c) by {
                if c.status != TaskStatus::Done {
                    let i = choose|i: int| 0 <= i < rest.len() && completes(#[trigger] rest[i], c);
                    assert(w[i + 1] == rest[i]);
                }
            }
            assert forall|k: int, j: int|
                0 <= k < levels.len() && 0 <= j < levels[k].0.len() implies covered(
                w,
                #[trigger] levels[k].0[j],
            ) by {
                assert(covered(rest, levels[k].0[j]));
            }
            assert forall|i: int| 0 <= i < w.len() implies children_covered(
                kids,
                w,
                (#[trigger] w[i]).id@,
            ) by {
                let id = w[i].id@;
                if i > 0 {
                    assert(w[i] == rest[i - 1]);
                    assert(children_covered(kids, rest, rest[i - 1].id@));
                }
                assert forall|j: int| 0 <= j < kids(id).len() implies covered(
                    w,
                    #[trigger] kids(id)[j],
                ) by {
                    assert(covered(rest, kids(id)[j]));
                }
            }
            assert forall|i: int| 0 <= i < w.len() implies (#[trigger] w[i]).status
                == TaskStatus::Done by {
                if i > 0 {
                    assert(w[i] == rest[i - 1]);
                }
            }
        },
    }
}


/// What a stored child `c` reads as after the writes `w`: the write that completes it,
/// where there is one and `c` was not done already, else `c` itself.
pub open spec fn stored_after(w: Seq<Task>, c: Task) -> Task {
    if c.status != TaskStatus::Done && exists|i: int| 0 <= i < w.len() && completes(#[trigger] w[i], c) {
        w[choose|i: int| 0 <= i < w.len() && completes(#[trigger] w[i], c)]
    } else {
        c
    }
}

/// Completing the children of a task goes down through every task it marks: once the walk
/// from `root` ends, each child of `root`, and each child of every task it stored, is done
/// already or completed by one of its writes, and every task it stored is done.
pub proof fn lemma_completion_run_covers_descendants(
    kids: spec_fn(Seq<char>) -> Seq<Task>,
    stamps: spec_fn(Seq<char>) -> String,
    root: String,
    fuel: nat,
    w: Seq<Task>,
)
    requires
        run_writes(kids, stamps, Seq::empty(), CompletionStep::ReadChildren { parent_id: root }, fuel)
            == Some(w),
    ensures
        children_covered(kids, w, root@),
        forall|i: int| 0 <= i < w.len() ==> children_covered(kids, w, (#[trigger] w[i]).id@),
        forall|i: int| 0 <= i < w.len() ==> (#[trigger] w[i]).status == TaskStatus::Done,
{
    lemma_run_covers(
        kids,
        stamps,
        Seq::empty(),
        CompletionStep::ReadChildren { parent_id: root },
        fuel,
        w,
    );
}

/// Completing the children of a task twice writes nothing the second time: when the second
/// walk from `root` reads the children that the first walk left stored, it ends at once.
pub proof fn lemma_second_completion_run_writes_nothing(
    kids: spec_fn(Seq<char>) -> Seq<Task>,
    stamps: spec_fn(Seq<char>) -> String,
    root: String,
    fuel: nat,
    w: Seq<Task>,
    kids_after: spec_fn(Seq<char>) -> Seq<Task>,
    stamps_after: spec_fn(Seq<char>) -> String,
)
    requires
        run_writes(kids, stamps, Seq::empty(), CompletionStep::ReadChildren { parent_id: root }, fuel)
            == Some(w),
        kids_after(root@) == kids(root@).map_values(|c: Task| stored_after(w, c)),
    ensures
        run_writes(
            kids_after,
            stamps_after,
            Seq::empty(),
            CompletionStep::ReadChildren { parent_id: root },
            2,
        ) == Some(Seq::<Task>::empty()),
{
    lemma_completion_run_covers_descendants(kids, stamps, root, fuel, w);
    let level: Seq<(Seq<Task>, String)> = Seq::empty().push(
        (kids_after(root@), stamps_after(root@)),
    );
    assert forall|k: int, j: int| 0 <= k < level.len() && 0 <= j < level[k].0.len() implies (
    #[trigger] level[k].0[j]).status == TaskStatus::Done by {
        assert(k == 0);
        let c = kids(root@)[j];
        assert(level[k].0[j] == stored_after(w, c));
        assert(covered(w, c));
        if c.status != TaskStatus::Done {
            let i = choose|i: int| 0 <= i < w.len() && completes(#[trigger] w[i], c);
            assert(completes(w[i], c));
        }
    }
    lemma_completion_of_done_children_is_empty(level);
    assert(advance(level).0.len() == 0) by {
        lemma_advance_finishes_empty(level);
    }
    assert(run_writes(kids_after, stamps_after, advance(level).0, advance(level).1, 1) == Some(
        Seq::<Task>::empty(),
    ));
}

/// `c` was read among the children of one of the tasks whose ids are `ids`.
pub open spec fn read_under(kids: spec_fn(Seq<char>) -> Seq<Task>, ids: Seq<Seq<char>>, c: Task) -> bool {
    exists|m: int| 0 <= m < ids.len() && #[trigger] kids(ids[m]).contains(c)
}

/// The ids of the tasks `w`, in order.
pub open spec fn written_ids(w: Seq<Task>) -> Seq<Seq<char>> {
    w.map_values(|t: Task| t.id@)
}

/// The `i`-th of the writes `w` completes a child read under one of `known` or under one of
/// the writes before it.
pub open spec fn stored_below(
    kids: spec_fn(Seq<char>) -> Seq<Task>,
    known: Seq<Seq<char>>,
    w: Seq<Task>,
    i: int,
) -> bool {
    exists|c: Task| completes(w[i], c) && read_under(kids, known + written_ids(w.take(i)), c)
}

/// What `advance` leaves pending was pending before, and it never asks for a read.
proof fn lemma_advance_keeps_only_pending(levels: Seq<(Seq<Task>, String)>)
    ensures
        forall|k: int, j: int|
            0 <= k < advance(levels).0.len() && 0 <= j < advance(levels).0[k].0.len() ==> pending_in(
                levels,
                #[trigger] advance(levels).0[k].0[j],
            ),
        !(advance(levels).1 is ReadChildren),
    decreases levels.len(), innermost_pending(levels),
{
    if levels.len() > 0 {
        let top = levels.last();
        let last = levels.len() - 1;
        if top.0.len() == 0 {
            let d = levels.drop_last();
            lemma_advance_keeps_only_pending(d);
            assert forall|k: int, j: int|
                0 <= k < advance(levels).0.len() && 0 <= j < advance(levels).0[k].0.len() implies pending_in(
                levels,
                #[trigger] advance(levels).0[k].0[j],
            ) by {
                let x = advance(levels).0[k].0[j];
                assert(pending_in(d, advance(d).0[k].0[j]));
                let (k2, j2) = choose|k2: int, j2: int|
                    0 <= k2 < d.len() && 0 <= j2 < d[k2].0.len() && #[trigger] d[k2].0[j2] == x;
                assert(d[k2] == levels[k2]);
                assert(levels[k2].0[j2] == x);
            }
        } else {
            let rest = levels.drop_last().push((top.0.drop_first(), top.1));
            assert(rest.last() == (top.0.drop_first(), top.1));
            assert forall|k: int, j: int|
                0 <= k < rest.len() && 0 <= j < rest[k].0.len() implies pending_in(
                levels,
                #[trigger] rest[k].0[j],
            ) by {
                if k == last {
                    assert(rest[k].0[j] == levels[k].0[j + 1]);
                } else {
                    assert(rest[k] == levels[k]);
                    assert(rest[k].0[j] == levels[k].0[j]);
                }
            }
            if top.0[0].status == TaskStatus::Done {
                lemma_advance_keeps_only_pending(rest);
                assert forall|k: int, j: int|
                    0 <= k < advance(levels).0.len() && 0 <= j < advance(levels).0[k].0.len() implies pending_in(
                    levels,
                    #[trigger] advance(levels).0[k].0[j],
                ) by {
                    let x = advance(levels).0[k].0[j];
                    assert(pending_in(rest, advance(rest).0[k].0[j]));
                    let (k2, j2) = choose|k2: int, j2: int|
                        0 <= k2 < rest.len() && 0 <= j2 < rest[k2].0.len() && #[trigger] rest[k2].0[j2]
                            == x;
                    assert(pending_in(levels, rest[k2].0[j2]));
                }
            }
        }
    }
}

/// Each task a run stores is a child, marked done, of a task whose children were read: one
/// of `known`, or one the run stored before it, when what is pending and what is about to
/// be read or stored come from `known`.
proof fn lemma_run_reads_below(
    kids: spec_fn(Seq<char>) -> Seq<Task>,
    stamps: spec_fn(Seq<char>) -> String,
    levels: Seq<(Seq<Task>, String)>,
    step: CompletionStep,
    fuel: nat,
    w: Seq<Task>,
    known: Seq<Seq<char>>,
)
    requires
        run_writes(kids, stamps, levels, step, fuel) == Some(w),
        forall|k: int, j: int|
            0 <= k < levels.len() && 0 <= j < levels[k].0.len() ==> read_under(
                kids,
                known,
                #[trigger] levels[k].0[j],
            ),
        step matches CompletionStep::ReadChildren { parent_id } ==> known.contains(parent_id@),
        step matches CompletionStep::WriteTask { task } ==> exists|c: Task|
            completes(task, c) && read_under(kids, known, c),
    ensures
        forall|i: int| 0 <= i < w.len() ==> #[trigger] stored_below(kids, known, w, i),
    decreases fuel,
{
    match step {
        CompletionStep::Finished => {
            assert(w.len() == 0);
        },
        CompletionStep::ReadChildren { parent_id } => {
            let pushed = levels.push((kids(parent_id@), stamps(parent_id@)));
            let next = advance(pushed);
            let m = choose|m: int| 0 <= m < known.len() && known[m] == parent_id@;
            assert forall|k: int, j: int|
                0 <= k < pushed.len() && 0 <= j < pushed[k].0.len() implies read_under(
                kids,
                known,
                #[trigger] pushed[k].0[j],
            ) by {
                if k == levels.len() {
                    assert(pushed[k].0 == kids(known[m]));
                    assert(kids(known[m]).contains(pushed[k].0[j]));
                } else {
                    assert(pushed[k] == levels[k]);
                }
            }
            lemma_advance_keeps_only_pending(pushed);
            lemma_completion_writes_only_done_tasks(pushed);
            assert forall|k: int, j: int|
                0 <= k < next.0.len() && 0 <= j < next.0[k].0.len() implies read_under(
                kids,
                known,
                #[trigger] next.0[k].0[j],
            ) by {
                let x = next.0[k].0[j];
                assert(pending_in(pushed, x));
                let (k2, j2) = choose|k2: int, j2: int|
                    0 <= k2 < pushed.len() && 0 <= j2 < pushed[k2].0.len() && #[trigger] pushed[k2].0[j2]
                        == x;
                assert(read_under(kids, known, pushed[k2].0[j2]));
            }
            if let CompletionStep::WriteTask { task } = next.1 {
                let (k, j) = choose|k: int, j: int|
                    0 <= k < pushed.len() && 0 <= j < pushed[k].0.len() && task == #[trigger] as_completed(
                        pushed[k].0[j],
                        pushed[k].1,
                        pushed[k].1,
                    );
                assert(completes(task, pushed[k].0[j]));
                assert(read_under(kids, known, pushed[k].0[j]));
            }
            lemma_run_reads_below(kids, stamps, next.0, next.1, (fuel - 1) as nat, w, known);
        },
        CompletionStep::WriteTask { task } => {
            let read = CompletionStep::ReadChildren { parent_id: task.id };
            let rest = run_writes(kids, stamps, levels, read, (fuel - 1) as nat).unwrap();
            let known2 = known.push(task.id@);
            assert forall|k: int, j: int|
                0 <= k < levels.len() && 0 <= j < levels[k].0.len() implies read_under(
                kids,
                known2,
                #[trigger] levels[k].0[j],
            ) by {
                assert(read_under(kids, known, levels[k].0[j]));
                let m = choose|m: int| 0 <= m < known.len() && #[trigger] kids(known[m]).contains(levels[k].0[j]);
                assert(known2[m] == known[m]);
            }
            assert(known2[known.len() as int] == task.id@);
            lemma_run_reads_below(kids, stamps, levels, read, (fuel - 1) as nat, rest, known2);
            assert(w == seq![task] + rest);
            assert forall|i: int| 0 <= i < w.len() implies #[trigger] stored_below(kids, known, w, i) by {
                if i == 0 {
                    let c = choose|c: Task| completes(task, c) && read_under(kids, known, c);
                    assert(known + written_ids(w.take(0)) =~= known);
                    assert(completes(w[0], c) && read_under(kids, known + written_ids(w.take(0)), c));
                } else {
                    let j = i - 1;
                    assert(w[i] == rest[j]);
                    assert(stored_below(kids, known2, rest, j));
                    let c = choose|c: Task|
                        completes(rest[j], c) && read_under(kids, known2 + written_ids(rest.take(j)), c);
                    assert(known + written_ids(w.take(i)) =~= known2 + written_ids(rest.take(i - 1)));
                    assert(completes(w[i], c) && read_under(kids, known + written_ids(w.take(i)), c));
                }
            }
        },
    }
}

/// The completion walk from `root` stores only tasks below it: each task it stores is a
/// child of `root`, or of a task it stored before, marked done.
pub proof fn lemma_completion_stores_only_tasks_below(
    kids: spec_fn(Seq<char>) -> Seq<Task>,
    stamps: spec_fn(Seq<char>) -> String,
    root: String,
    fuel: nat,
    w: Seq<Task>,
)
    requires
        run_writes(kids, stamps, Seq::empty(), CompletionStep::ReadChildren { parent_id: root }, fuel)
            == Some(w),
    ensures
        forall|i: int| 0 <= i < w.len() ==> #[trigger] stored_below(kids, seq![root@], w, i),
{
    let known = seq![root@];
    assert(known[0] == root@);
    lemma_run_reads_below(
        kids,
        stamps,
        Seq::empty(),
        CompletionStep::ReadChildren { parent_id: root },
        fuel,
        w,
        known,
    );
}

} // verus!
