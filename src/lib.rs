//! Authorization core of a task-management service: users and roles, tasks
//! with a visibility, per-(user, task) access grants, typed attachments, and
//! the rules that decide who may read or change what.
//!
//! The whole persistent state lives in [`store::Store`]; every operation is a
//! method on it with a contract over the store's tables.

pub mod enums;
pub mod error;
pub mod models;
pub mod store;
pub mod authz;
pub mod text;
pub mod tasks;
pub mod accesses;
pub mod attachments;
pub mod service;
pub mod views;
pub mod laws;
pub mod users;
pub mod roles;
pub mod settings;
