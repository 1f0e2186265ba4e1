//! Shapes in which rows are handed to clients.
pub mod access;
pub mod attachment;
pub mod auth;
pub mod role;
pub mod task;
pub mod user;
