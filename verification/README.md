# todo_app_core

The core of a desktop/mobile task manager, written in Verus.

- `src/` is the verified library:
  - `features::task::models` — task records, the text forms of status and priority
    (`as_str`, case-insensitive `from_str`), task creation and status-change requests.
  - `features::task::db` — how the status and priority columns read back.
  - `features::task::rules` — the rules between tasks, as walks that name the next
    database read or write: settling a parent's status from its children (and going on
    upward), completing the children of a done task depth first, and picking the active
    task of a chain.
  - `features::task::commands` — the status-change and task-creation commands, as walks
    in the same style: read, restamp and store, complete the children, check the parent.
  - `features::task::laws` — what a whole completion walk does: every child of the done
    task, and every child of each task the walk marks, ends done; it stores only children of
    the done task or of tasks it stored before; running it again writes nothing.
  - `message` — the messages between the user interface and the back end.
  - `ui` — what a task list row shows, how the task form becomes a command, and the texts
    of failure reports.
  - `text`, `clock` — the calls into std's case folding and clock, chrono's formatting and
    uuid.
- `app/` is the program around it: the SQLite database (r2d2 pool, rusqlite queries),
  the loops that run the library's walks against it, the slint window, the logic and
  scheduler threads, the serde forms of the task types, and the mobile entry points.
- `tests/` exercise the library, including the walks against an in-memory store.
