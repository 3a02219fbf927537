//! The decisions of the interactive setup wizard: what its prompts accept,
//! what they turn the answers into, and when the wizard stops.

use vstd::prelude::*;

use crate::cli::config_gen::SessionStorageKind;
use crate::cli::error::CliError;
use crate::cli::sanity::{CheckStatus, JmapSanityResult};
use crate::jmap::{url_problem, JmapUrl};
use crate::text::{append_str, parse_uint, parse_uint_chars, to_chars};

verus! {

/// The refusal where standard input is not a terminal.
pub fn not_a_terminal_error() -> (r: CliError)
    ensures
        r matches CliError::ConfigInvalid { message } && message@
            == "setup requires an interactive terminal; create config.toml manually or use `missive config --output config.toml`"@,
{
    CliError::ConfigInvalid {
        message: "setup requires an interactive terminal; create config.toml manually or use `missive config --output config.toml`".to_owned(),
    }
}

/// What the URL prompt accepts: what `JmapUrl::parse` accepts; otherwise
/// the parse error's message.
pub fn validate_jmap_url_input(input: &str) -> (r: Result<(), String>)
    ensures
        match r {
            Ok(()) => url_problem(input@) is None,
            Err(m) => url_problem(input@) matches Some(p) && m@ == "invalid JMAP URL: "@ + p,
        },
{
    match JmapUrl::parse(input) {
        Ok(_) => Ok(()),
        Err(e) => Err(e.to_string()),
    }
}

/// The error where the URL entered cannot be parsed for the connectivity check.
pub fn setup_url_error(input: &str) -> (r: Result<JmapUrl, CliError>)
    ensures
        match r {
            Ok(u) => url_problem(input@) is None && u@ == input@,
            Err(e) => url_problem(input@) matches Some(p) && (e matches CliError::ConfigInvalid { message }
                && message@ == "JMAP URL: "@ + ("invalid JMAP URL: "@ + p)),
        },
{
    match JmapUrl::parse(input) {
        Ok(u) => Ok(u),
        Err(e) => {
            let mut message = "JMAP URL: ".to_owned();
            append_str(&mut message, e.to_string().as_str());
            Err(CliError::ConfigInvalid { message })
        },
    }
}

/// What the port prompt accepts: a `u16`.
pub fn validate_port_input(input: &str) -> (r: Result<(), String>)
    ensures
        match r {
            Ok(()) => parse_uint(input@, u16::MAX as nat) is Some,
            Err(m) => parse_uint(input@, u16::MAX as nat) is None && m@
                == "enter a valid port number (1-65535)"@,
        },
{
    match parse_uint_chars(&to_chars(input), 0xffff) {
        Some(_) => Ok(()),
        None => Err("enter a valid port number (1-65535)".to_owned()),
    }
}

/// The port entered.
pub fn parse_port(input: &str) -> (r: Result<u16, CliError>)
    ensures
        match r {
            Ok(p) => parse_uint(input@, u16::MAX as nat) == Some(p as nat),
            Err(e) => parse_uint(input@, u16::MAX as nat) is None && (e matches CliError::ConfigInvalid {
                message,
            } && message@ == "invalid port: "@ + input@),
        },
{
    match parse_uint_chars(&to_chars(input), 0xffff) {
        Some(p) => Ok(p as u16),
        None => {
            let mut message = "invalid port: ".to_owned();
            append_str(&mut message, input);
            Err(CliError::ConfigInvalid { message })
        },
    }
}

/// What the page size prompt accepts: a number from 1 to 1000.
pub fn validate_page_size_input(input: &str) -> (r: Result<(), String>)
    ensures
        match parse_uint(input@, usize::MAX as nat) {
            Some(n) => if 1 <= n <= 1000 {
                r is Ok
            } else {
                r matches Err(m) && m@ == "enter a value between 1 and 1000"@
            },
            None => r matches Err(m) && m@ == "enter a valid number"@,
        },
{
    match parse_uint_chars(&to_chars(input), usize::MAX as u64) {
        Some(n) => if 1 <= n && n <= 1000 {
            Ok(())
        } else {
            Err("enter a value between 1 and 1000".to_owned())
        },
        None => Err("enter a valid number".to_owned()),
    }
}

/// The page size entered.
pub fn parse_page_size(input: &str) -> (r: Result<usize, CliError>)
    ensures
        match r {
            Ok(n) => parse_uint(input@, usize::MAX as nat) == Some(n as nat),
            Err(e) => parse_uint(input@, usize::MAX as nat) is None && (e matches CliError::ConfigInvalid {
                message,
            } && message@ == "invalid page size: "@ + input@),
        },
{
    match parse_uint_chars(&to_chars(input), usize::MAX as u64) {
        Some(n) => Ok(n as usize),
        None => {
            let mut message = "invalid page size: ".to_owned();
            append_str(&mut message, input);
            Err(CliError::ConfigInvalid { message })
        },
    }
}

/// The choices of the session storage prompt, the first being the default.
pub fn session_storage_items() -> (r: [&'static str; 2])
    ensures
        r@[0]@ == "Memory (default, single-instance)"@,
        r@[1]@ == "Redis (persistent, multi-instance)"@,
{
    ["Memory (default, single-instance)", "Redis (persistent, multi-instance)"]
}

/// The storage of the chosen item: the first is memory, any other Redis.
pub fn session_storage_choice(selection: usize) -> (r: SessionStorageKind)
    ensures
        r == (if selection == 0 {
            SessionStorageKind::Memory
        } else {
            SessionStorageKind::Redis
        }),
{
    if selection == 0 {
        SessionStorageKind::Memory
    } else {
        SessionStorageKind::Redis
    }
}

/// Some account check failed: the connection, a fetch, or a required role.
pub open spec fn account_checks_failed(r: JmapSanityResult) -> bool {
    ||| r.connection !is Passed
    ||| r.mailbox_fetch !is Passed
    ||| r.identity_fetch !is Passed
    ||| exists|i: int|
        0 <= i < r.required_mailboxes@.len() && (#[trigger] r.required_mailboxes@[i]).status !is Passed
}

pub fn jmap_checks_failed(result: &JmapSanityResult) -> (r: bool)
    ensures
        r == account_checks_failed(*result),
{
    if !result.connection.passed() || !result.mailbox_fetch.passed() || !result.identity_fetch.passed() {
        return true;
    }
    let mut i: usize = 0;
    while i < result.required_mailboxes.len()
        invariant
            i <= result.required_mailboxes@.len(),
            forall|k: int| 0 <= k < i ==> (#[trigger] result.required_mailboxes@[k]).status is Passed,
        decreases result.required_mailboxes@.len() - i,
    {
        if !result.required_mailboxes[i].status.passed() {
            return true;
        }
        i = i + 1;
    }
    false
}

/// Whether the wizard goes on after a yes-or-no question that can stop it
/// (continue despite failed checks, overwrite an existing file): a no
/// cancels the setup.
pub fn continue_or_cancel(answer: bool) -> (r: Result<(), CliError>)
    ensures
        answer <==> r is Ok,
        r matches Err(e) ==> e matches CliError::SetupCancelled,
{
    if answer {
        Ok(())
    } else {
        Err(CliError::SetupCancelled)
    }
}

} // verus!
