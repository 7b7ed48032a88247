//! Plan Mode: a checklist that forces reasoning about the happy path, the
//! negative cases and the boundary conditions of each item.
//!
//! A task is done only when all plan items are satisfied with evidence.
pub mod schema;
pub mod evidence;
pub mod verification;
pub mod report;
pub mod storage;
pub mod gate;
pub mod tools;
