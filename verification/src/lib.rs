//! State engine of a small habit tracker: habits with a per-day ledger, a
//! command interpreter, and the application state that commands act on.

pub mod app;
pub mod clock;
pub mod command;
pub mod habit;
pub mod text;
