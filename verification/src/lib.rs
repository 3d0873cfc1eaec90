//! Rexer keeps the plugins and themes of a Redmine installation in line with
//! a declaration: it works out what has to be fetched, replaced and removed,
//! directs the fetch of each source from git, and keeps a record of what is
//! installed.
//!
//! The library decides and never touches the disk, the network or a process.
//! Whoever uses it performs what it asks for and reports how that went:
//!
//! - [`extension`] holds the declaration, the sources and the record;
//! - [`diff`] compares a declaration with a record, name by name;
//! - [`reconcile`] turns the difference into steps and the steps' outcomes
//!   into the next record, and [`convergence`] proves what a run leaves behind;
//! - [`git`] directs one fetch, operation by operation, with a second
//!   strategy to fall back on;
//! - [`store`] and [`config`] say which files hold what, and in which order
//!   they are written; [`command`] builds the command lines to run;
//! - [`report`] and [`commands`] are what the commands of the tool show and do,
//!   [`cli`] what its switches mean, and [`error`] what can go wrong.

pub mod cli;
mod clock;
pub mod command;
pub mod commands;
pub mod config;
pub mod convergence;
pub mod diff;
pub mod error;
pub mod extension;
pub mod git;
pub mod reconcile;
pub mod report;
pub mod store;
pub mod text;
