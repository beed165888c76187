//! Property and pin resolution for entity editing, together with the
//! decisions that the editor shell makes about game-file search and
//! file-system notifications.

pub mod blueprint;
pub mod browser;
pub mod cppt;
pub mod entity;
pub mod guarantees;
pub mod hash;
pub mod laws;
pub mod model;
pub mod progress;
pub mod query;
pub mod resolve;
pub mod rows;
pub mod shell;
pub mod stability;
pub mod store;
pub mod text;
pub mod unique;

