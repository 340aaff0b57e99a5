//! A personal note manager: notes carry tags and projects written inline as
//! `#tag` and `+project`, a query engine searches and ranks them, and an
//! interactive session controller moves between capture, viewing, editing,
//! filtering, deletion and rewriting modes.

pub mod text;
pub mod note;
pub mod query;
pub mod search;
pub mod config;
pub mod session;
pub mod assist;
