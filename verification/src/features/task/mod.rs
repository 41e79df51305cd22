//! Tasks: their records, how their columns read back, and the rules between them.

pub mod commands;
pub mod db;
pub mod models;
pub mod rules;
pub mod laws;
