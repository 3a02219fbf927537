//! The command-line tool: exit codes, errors, configuration files and the
//! checks of `missive sanity`.

pub mod exit_code;
pub mod error;
pub mod config_gen;
pub mod sanity;
pub mod setup;
pub mod command;
