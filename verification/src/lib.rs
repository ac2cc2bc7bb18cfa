//! Live query matching: a watched `SELECT` is analysed and rewritten into
//! per-table probe statements over a shadow table, and row-level changes are
//! turned into `Upsert` / `Delete` deltas for subscribers.

pub mod aliases;
pub mod analysis;
pub mod analyze;
pub mod ast;
pub mod channel;
pub mod error;
pub mod ident;
pub mod matcher;
pub mod ordered;
pub mod rewrite;
pub mod runtime;
pub mod schema;
pub mod sql;
pub mod subscriber;
pub mod text;
pub mod values;
