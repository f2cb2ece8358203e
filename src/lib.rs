//! Session handling and task storage for a small HTTP service: bearer-token
//! parsing and resolution, account lifecycle, and the task table with its
//! full-replace, partial (tri-state) and soft-delete updates.
pub mod auth;
pub mod demo;
pub mod status;
pub mod tasks;
