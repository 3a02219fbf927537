//! Process exit codes of the command-line tool.

use vstd::prelude::*;

use crate::text::decimal;
use crate::text::decimal_chars;
use crate::text::from_chars;

verus! {

/// The status the process exits with.  The variants carry the names of the
/// constants that callers use.
#[allow(non_camel_case_types)]
#[derive(Debug, Clone, Copy, PartialEq, Eq, Structural)]
pub enum ExitCode {
    /// Successful execution.
    SUCCESS,
    /// The configuration file is missing, unreadable, or holds invalid values.
    CONFIG_ERROR,
    /// The user cancelled the interactive setup.
    SETUP_CANCELLED,
    /// A file operation failed.
    IO_ERROR,
    /// The web server failed to start or crashed.
    SERVE_FAILED,
}

impl ExitCode {
    /// The raw status: 0 for success, then 1 to 4 in the order above.
    pub open spec fn value(self) -> u8 {
        match self {
            ExitCode::SUCCESS => 0,
            ExitCode::CONFIG_ERROR => 1,
            ExitCode::SETUP_CANCELLED => 2,
            ExitCode::IO_ERROR => 3,
            ExitCode::SERVE_FAILED => 4,
        }
    }

    /// The raw exit status.
    pub fn code(self) -> (r: u8)
        ensures
            r == self.value(),
    {
        match self {
            ExitCode::SUCCESS => 0,
            ExitCode::CONFIG_ERROR => 1,
            ExitCode::SETUP_CANCELLED => 2,
            ExitCode::IO_ERROR => 3,
            ExitCode::SERVE_FAILED => 4,
        }
    }

    /// The status in decimal, as `Display` prints it.
    pub fn to_string(&self) -> (r: String)
        ensures
            r@ == decimal(self.value() as nat),
    {
        from_chars(&decimal_chars(self.code() as u64))
    }
}

/// Different exit codes exit with different statuses.
pub proof fn lemma_exit_codes_distinct(a: ExitCode, b: ExitCode)
    ensures
        a != b ==> a.value() != b.value(),
{
}

} // verus!
