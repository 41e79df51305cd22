//! Messages between the user interface and the back end: the commands the interface sends,
//! the events the back end's own timers and watchers raise, and what the back end sends back.
use vstd::prelude::*;
use std::collections::HashMap;
use crate::features::task::models::Task;

verus! {

/// A request from the user interface to the back end.
#[derive(Debug)]
pub enum UiCommand {
    Ping,
    GetSettings,
    UpdateSetting { key: String, value: String },
    /// Rebuild the cached database from the stored task files.
    RebuildDatabase,
    GetTasks,
    CreateTask {
        title: String,
        parent_id: Option<String>,
        chain_id: Option<String>,
        chain_order: Option<i64>,
    },
    UpdateTask(Task),
    UpdateTaskStatus { id: String, status: String },
    DeleteTask { id: String },
}

/// An event raised in the background, not by the user.
#[derive(Debug)]
pub enum BackgroundEvent {
    FileChanged { path: String },
    SchedulerTick,
    SyncCompleted { device_id: Option<String> },
}

/// Anything the back end's logic handles.
#[derive(Debug)]
pub enum BackendMessage {
    Ui(UiCommand),
    Background(BackgroundEvent),
}

/// What the back end sends back to the user interface.
#[derive(Debug, Clone)]
pub enum LogicEvent {
    Pong,
    SettingsLoaded(HashMap<String, String>),
    DatabaseRebuilt,
    ErrorOccurred(String),
    TasksLoaded(Vec<Task>),
    TaskCreated(Task),
    TaskUpdated(Task),
    TaskDeleted(String),
}

} // verus!
