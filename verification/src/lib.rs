//! A personal Jira workflow layer: the board, the local store and the
//! queue of pending Jira updates, with their rules stated and proved.

pub mod text;
pub mod models;
pub mod jira;
pub mod storage;
pub mod board;
pub mod sync;
pub mod error_log;
pub mod controls;
