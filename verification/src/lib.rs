//! Core of a task manager: task records, their text forms, the rules that keep parent
//! tasks, child tasks and task chains consistent, and the messages that pass between the
//! user interface and the back end.

pub mod clock;
pub mod features;
pub mod text;
pub mod message;
pub mod ui;
