//! Kimai Timer (kt): a seriously simple time tracker.
//!
//! The library holds the logic of the `kt` command-line tool: the persisted store of tasks and
//! time intervals, the decisions of each subcommand, the parsing of dates and times given on the
//! command line, and the aggregation of intervals into per-day totals for the log table.
//! File access, terminal prompts and printing live in the application around it.

pub mod text;
pub mod clock;
pub mod calendar;
pub mod time_ext;
pub mod wrappers;
pub mod store;
pub mod error;
pub mod cmd;
pub mod cli;
