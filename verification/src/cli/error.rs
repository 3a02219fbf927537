//! Errors of the command-line tool and the exit code of each.

use vstd::prelude::*;

use crate::cli::exit_code::ExitCode;
use crate::text::append_str;

verus! {

/// What can make a command fail.
#[derive(Debug)]
pub enum CliError {
    /// The configuration file could not be read or parsed.
    ConfigRead { path: String, message: String },
    /// The configuration is invalid.
    ConfigInvalid { message: String },
    /// A file operation failed.
    Io { operation: String, message: String },
    /// The user cancelled the interactive setup.
    SetupCancelled,
    /// The web server failed to start.
    ServeFailed { message: String },
}

/// The message of an error.
pub open spec fn cli_error_text(e: CliError) -> Seq<char> {
    match e {
        CliError::ConfigRead { path, message } => "failed to read config at '"@ + path@ + "': "@
            + message@,
        CliError::ConfigInvalid { message } => "invalid configuration: "@ + message@,
        CliError::Io { operation, message } => "I/O error during "@ + operation@ + ": "@ + message@,
        CliError::SetupCancelled => "setup cancelled by user"@,
        CliError::ServeFailed { message } => "server failed to start: "@ + message@,
    }
}

/// The exit code of an error: configuration problems, file problems, a
/// cancelled setup and a failed server each have their own.
pub open spec fn cli_exit_code(e: CliError) -> ExitCode {
    match e {
        CliError::ConfigRead { .. } | CliError::ConfigInvalid { .. } => ExitCode::CONFIG_ERROR,
        CliError::Io { .. } => ExitCode::IO_ERROR,
        CliError::SetupCancelled => ExitCode::SETUP_CANCELLED,
        CliError::ServeFailed { .. } => ExitCode::SERVE_FAILED,
    }
}

impl CliError {
    /// The message of the error, as `Display` prints it.
    pub fn to_string(&self) -> (r: String)
        ensures
            r@ == cli_error_text(*self),
    {
        let mut out = String::new();
        match self {
            CliError::ConfigRead { path, message } => {
                append_str(&mut out, "failed to read config at '");
                append_str(&mut out, path.as_str());
                append_str(&mut out, "': ");
                append_str(&mut out, message.as_str());
            },
            CliError::ConfigInvalid { message } => {
                append_str(&mut out, "invalid configuration: ");
                append_str(&mut out, message.as_str());
            },
            CliError::Io { operation, message } => {
                append_str(&mut out, "I/O error during ");
                append_str(&mut out, operation.as_str());
                append_str(&mut out, ": ");
                append_str(&mut out, message.as_str());
            },
            CliError::SetupCancelled => {
                append_str(&mut out, "setup cancelled by user");
            },
            CliError::ServeFailed { message } => {
                append_str(&mut out, "server failed to start: ");
                append_str(&mut out, message.as_str());
            },
        }
        out
    }

    /// The exit code of the error.
    pub fn exit_code(&self) -> (r: ExitCode)
        ensures
            r == cli_exit_code(*self),
    {
        match self {
            CliError::ConfigRead { .. } | CliError::ConfigInvalid { .. } => ExitCode::CONFIG_ERROR,
            CliError::Io { .. } => ExitCode::IO_ERROR,
            CliError::SetupCancelled => ExitCode::SETUP_CANCELLED,
            CliError::ServeFailed { .. } => ExitCode::SERVE_FAILED,
        }
    }
}

/// No error exits with the status of success.
pub proof fn lemma_errors_do_not_exit_successfully(e: CliError)
    ensures
        cli_exit_code(e).value() != 0,
{
}

} // verus!
