//! Verified core logic of the `pna` command-line archiver: access-control
//! entries, argument value parsers, permission modes, path rewriting and
//! time filtering.

pub mod chunk;
pub mod cli;
pub mod command;
pub mod text;
pub mod time;
