//! Conventional-commit message composition.

pub mod command;
pub mod commit_type;
pub mod compose;
pub mod record;
pub mod runner;
pub mod session;
pub mod styling;
pub mod text;
