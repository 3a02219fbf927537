//! The command line: its subcommands, and the exit status of a run.

use vstd::prelude::*;

use crate::cli::error::{cli_exit_code, CliError};
use crate::cli::exit_code::ExitCode;

verus! {

/// The command line of `missive`.
#[derive(Debug, Clone, PartialEq, Eq)]
pub struct Cli {
    /// The configuration file given with `--config`.
    pub config: Option<String>,
    /// The subcommand; `serve` where none is given.
    pub command: Option<Command>,
}

/// The subcommands.
#[derive(Debug, Clone, PartialEq, Eq)]
pub enum Command {
    /// Start the web server.
    Serve,
    /// The interactive first-run setup.
    Setup,
    /// Check the configuration without starting the server.
    Sanity,
    /// Write a starter configuration file, or print it where no output is given.
    Config { output: Option<String> },
}

/// The subcommand to run: the one given, else `serve`.
pub fn command_to_run(cli: Cli) -> (r: Command)
    ensures
        r == (match cli.command {
            Some(c) => c,
            None => Command::Serve,
        }),
{
    match cli.command {
        Some(c) => c,
        None => Command::Serve,
    }
}

/// The exit status of a run: success, or the exit code of the error.
pub fn exit_status(result: &Result<(), CliError>) -> (r: ExitCode)
    ensures
        r == (match result {
            Ok(()) => ExitCode::SUCCESS,
            Err(e) => cli_exit_code(*e),
        }),
{
    match result {
        Ok(()) => ExitCode::SUCCESS,
        Err(e) => e.exit_code(),
    }
}

} // verus!
