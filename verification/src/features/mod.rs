//! Features of the application, one module each.

pub mod task;
