//! `missive sanity`: checks of the configuration and of the JMAP account,
//! and the report printed for them.

use vstd::prelude::*;

use crate::cli::config_gen::{storage_named, SessionStorageKind};
use crate::cli::error::CliError;
use crate::error::{error_text, MissiveError};
use crate::jmap::{url_problem, IdentityInfo, JmapUrl, MailboxInfo};
use crate::text::{
    ov, append_str, chars_eq_ignore_case, decimal, decimal_chars, eq_ignore_case, from_chars, to_chars,
};

verus! {

// ---------------------------------------------------------------------------
// Check results
// ---------------------------------------------------------------------------

/// Whether a check passed, with the reason where it did not.
#[derive(Debug, Clone, PartialEq, Eq)]
pub enum CheckStatus {
    Passed,
    Failed { message: String },
}

impl CheckStatus {
    pub fn passed(&self) -> (r: bool)
        ensures
            r == (*self is Passed),
    {
        match self {
            CheckStatus::Passed => true,
            CheckStatus::Failed { .. } => false,
        }
    }
}

/// One check of the configuration.
#[derive(Debug, Clone)]
pub struct CheckResult {
    /// What was checked, such as `jmap_url`.
    pub name: String,
    pub passed: bool,
    /// What was found.
    pub message: String,
}

/// The check of one mailbox role that the application needs.
#[derive(Debug, Clone)]
pub struct MailboxCheck {
    pub role: String,
    pub status: CheckStatus,
}

/// The checks made against the JMAP account.
#[derive(Debug, Clone)]
pub struct JmapSanityResult {
    pub connection: CheckStatus,
    pub mailbox_fetch: CheckStatus,
    pub identity_fetch: CheckStatus,
    pub required_mailboxes: Vec<MailboxCheck>,
    pub identity_count: usize,
}

/// All checks of the configuration.
#[derive(Debug, Clone)]
pub struct SanityReport {
    pub checks: Vec<CheckResult>,
}

/// The number of checks that failed.
pub open spec fn failures(checks: Seq<CheckResult>) -> nat
    decreases checks.len(),
{
    if checks.len() == 0 {
        0
    } else {
        failures(checks.drop_last()) + if checks.last().passed {
            0nat
        } else {
            1nat
        }
    }
}

impl SanityReport {
    /// Whether every check passed.
    pub fn all_passed(&self) -> (r: bool)
        ensures
            r == (forall|i: int| 0 <= i < self.checks@.len() ==> (#[trigger] self.checks@[i]).passed),
    {
        let mut i: usize = 0;
        while i < self.checks.len()
            invariant
                i <= self.checks@.len(),
                forall|k: int| 0 <= k < i ==> (#[trigger] self.checks@[k]).passed,
            decreases self.checks@.len() - i,
        {
            if !self.checks[i].passed {
                return false;
            }
            i = i + 1;
        }
        true
    }

    /// The number of checks that failed.
    pub fn failure_count(&self) -> (r: usize)
        ensures
            r == failures(self.checks@),
    {
        let mut count: usize = 0;
        let mut i: usize = 0;
        while i < self.checks.len()
            invariant
                i <= self.checks@.len(),
                count == failures(self.checks@.take(i as int)),
                count <= i,
            decreases self.checks@.len() - i,
        {
            assert(self.checks@.take(i + 1).drop_last() =~= self.checks@.take(i as int));
            if !self.checks[i].passed {
                count = count + 1;
            }
            i = i + 1;
        }
        assert(self.checks@.take(self.checks@.len() as int) =~= self.checks@);
        count
    }
}

/// A report passes exactly where it counts no failure.
pub proof fn lemma_all_passed_iff_no_failures(checks: Seq<CheckResult>)
    ensures
        (forall|i: int| 0 <= i < checks.len() ==> (#[trigger] checks[i]).passed) <==> failures(checks) == 0,
    decreases checks.len(),
{
    if checks.len() > 0 {
        lemma_all_passed_iff_no_failures(checks.drop_last());
        if forall|i: int| 0 <= i < checks.len() ==> (#[trigger] checks[i]).passed {
            assert forall|i: int| 0 <= i < checks.drop_last().len() implies (
            #[trigger] checks.drop_last()[i]).passed by {
                assert(checks.drop_last()[i] == checks[i]);
            }
        }
        if failures(checks) == 0 {
            assert forall|i: int| 0 <= i < checks.len() implies (#[trigger] checks[i]).passed by {
                if i < checks.len() - 1 {
                    assert(checks.drop_last()[i] == checks[i]);
                }
            }
        }
    }
}

// ---------------------------------------------------------------------------
// The configuration
// ---------------------------------------------------------------------------

/// What `missive sanity` checks of the configuration.
#[derive(Debug, Clone)]
pub struct ServiceConfig {
    pub jmap_url: JmapUrl,
    pub page_size: usize,
    pub service_port: u16,
    pub session_storage: SessionStorageKind,
    pub redis_url: Option<String>,
}

impl ServiceConfig {
    /// A configuration with in-memory sessions.
    pub fn new(jmap_url: JmapUrl, service_port: u16, page_size: usize) -> (r: Self)
        ensures
            r.jmap_url@ == jmap_url@,
            r.service_port == service_port,
            r.page_size == page_size,
            r.session_storage == SessionStorageKind::Memory,
            r.redis_url is None,
    {
        ServiceConfig {
            jmap_url,
            page_size,
            service_port,
            session_storage: SessionStorageKind::Memory,
            redis_url: None,
        }
    }
}

/// The settings a configuration file gives, each where it is present with
/// the right type: `jmap_url` and `page_size` at the top, `port` under
/// `[service]`, `storage` and `redis_url` under `[session]`.
#[derive(Debug, Clone)]
pub struct ConfigFileValues {
    pub jmap_url: Option<String>,
    pub page_size: Option<i64>,
    pub service_port: Option<i64>,
    pub session_storage: Option<SessionStorageKind>,
    pub redis_url: Option<String>,
}

/// The configuration with the settings of a configuration file applied over
/// it; a number is taken as the integer type holds it (`as`).
pub fn apply_config_file(config: ServiceConfig, values: &ConfigFileValues) -> (r: ServiceConfig)
    ensures
        r.jmap_url@ == (match values.jmap_url {
            Some(u) => u@,
            None => config.jmap_url@,
        }),
        r.page_size == (match values.page_size {
            Some(n) => n as usize,
            None => config.page_size,
        }),
        r.service_port == (match values.service_port {
            Some(n) => n as u16,
            None => config.service_port,
        }),
        r.session_storage == (match values.session_storage {
            Some(k) => k,
            None => config.session_storage,
        }),
        ov(r.redis_url) == (match values.redis_url {
            Some(u) => Some(u@),
            None => ov(config.redis_url),
        }),
{
    let mut r = config;
    if let Some(u) = &values.jmap_url {
        r.jmap_url = JmapUrl::from(u.clone());
    }
    if let Some(n) = values.page_size {
        r.page_size = n as usize;
    }
    if let Some(n) = values.service_port {
        r.service_port = n as u16;
    }
    if let Some(k) = values.session_storage {
        r.session_storage = k;
    }
    if let Some(u) = &values.redis_url {
        r.redis_url = Some(u.clone());
    }
    r
}

// ---------------------------------------------------------------------------
// Reading the configuration file
// ---------------------------------------------------------------------------

/// Whether `text` parses as a TOML table (`text.parse::<toml::Table>()`).
pub uninterp spec fn toml_parses(text: Seq<char>) -> bool;

/// The message of the error `toml` reports where `text` does not parse.
pub uninterp spec fn toml_error_message(text: Seq<char>) -> Seq<char>;

/// Whether the table parsed from `text` has the key at its top.
pub uninterp spec fn toml_top_present(text: Seq<char>, key: Seq<char>) -> bool;

/// The string the table parsed from `text` holds under `key` at its top,
/// where it holds a string there.
pub uninterp spec fn toml_top_str(text: Seq<char>, key: Seq<char>) -> Option<Seq<char>>;

/// The integer the table parsed from `text` holds under `key` at its top.
pub uninterp spec fn toml_top_int(text: Seq<char>, key: Seq<char>) -> Option<i64>;

/// The string the table parsed from `text` holds under `key` in its
/// sub-table `table`.
pub uninterp spec fn toml_table_str(text: Seq<char>, table: Seq<char>, key: Seq<char>) -> Option<Seq<char>>;

/// The integer the table parsed from `text` holds under `key` in its
/// sub-table `table`.
pub uninterp spec fn toml_table_int(text: Seq<char>, table: Seq<char>, key: Seq<char>) -> Option<i64>;

/// `text.parse::<toml::Table>()`: nothing where it parses, the error's
/// message where it does not.
#[verifier::external_body]
fn toml_check(text: &str) -> (r: Option<String>)
    ensures
        r is None <==> toml_parses(text@),
        r matches Some(m) ==> m@ == toml_error_message(text@),
{
    match text.parse::<toml::Table>() {
        Ok(_) => None,
        Err(e) => Some(e.to_string()),
    }
}

/// `text.parse::<toml::Table>()`, then `contains_key(key)`.
#[verifier::external_body]
fn toml_has_top(text: &str, key: &str) -> (r: bool)
    ensures
        r == toml_top_present(text@, key@),
{
    match text.parse::<toml::Table>() {
        Ok(t) => t.contains_key(key),
        Err(_) => false,
    }
}

/// `text.parse::<toml::Table>()`, then `get(key)` and `as_str()`.
#[verifier::external_body]
fn toml_top_string(text: &str, key: &str) -> (r: Option<String>)
    ensures
        ov(r) == toml_top_str(text@, key@),
{
    text.parse::<toml::Table>().ok()?.get(key)?.as_str().map(str::to_string)
}

/// `text.parse::<toml::Table>()`, then `get(key)` and `as_integer()`.
#[verifier::external_body]
fn toml_top_integer(text: &str, key: &str) -> (r: Option<i64>)
    ensures
        r == toml_top_int(text@, key@),
{
    text.parse::<toml::Table>().ok()?.get(key)?.as_integer()
}

/// `text.parse::<toml::Table>()`, then `get(table)`, `as_table()`,
/// `get(key)` and `as_str()`.
#[verifier::external_body]
fn toml_table_string(text: &str, table: &str, key: &str) -> (r: Option<String>)
    ensures
        ov(r) == toml_table_str(text@, table@, key@),
{
    text.parse::<toml::Table>().ok()?.get(table)?.as_table()?.get(key)?.as_str().map(str::to_string)
}

/// `text.parse::<toml::Table>()`, then `get(table)`, `as_table()`,
/// `get(key)` and `as_integer()`.
#[verifier::external_body]
fn toml_table_integer(text: &str, table: &str, key: &str) -> (r: Option<i64>)
    ensures
        r == toml_table_int(text@, table@, key@),
{
    text.parse::<toml::Table>().ok()?.get(table)?.as_table()?.get(key)?.as_integer()
}

/// The JMAP URL a configuration file gives: the one at the top where the
/// key is there, else the one under `[service]`.
pub open spec fn file_jmap_url(text: Seq<char>) -> Option<Seq<char>> {
    if toml_top_present(text, "jmap_url"@) {
        toml_top_str(text, "jmap_url"@)
    } else {
        toml_table_str(text, "service"@, "jmap_url"@)
    }
}

/// The configuration file `path` holding `text` names a storage that does
/// not exist.
pub open spec fn unknown_storage(text: Seq<char>) -> bool {
    toml_table_str(text, "session"@, "storage"@) matches Some(n) && storage_named(n) is None
}

/// The settings of the configuration file `path`, whose text is `text`.
/// Fails where the text is not TOML, and where `[session]` names a storage
/// other than `memory` or `redis`.
pub fn config_file_values(path: &str, text: &str) -> (r: Result<ConfigFileValues, CliError>)
    ensures
        r is Ok <==> toml_parses(text@) && !unknown_storage(text@),
        r matches Ok(v) ==> {
            &&& ov(v.jmap_url) == file_jmap_url(text@)
            &&& v.page_size == toml_top_int(text@, "page_size"@)
            &&& v.service_port == toml_table_int(text@, "service"@, "port"@)
            &&& v.session_storage == (match toml_table_str(text@, "session"@, "storage"@) {
                Some(n) => storage_named(n),
                None => None,
            })
            &&& ov(v.redis_url) == toml_table_str(text@, "session"@, "redis_url"@)
        },
        r matches Err(e) ==> (e matches CliError::ConfigRead { path: p, message } && p@ == path@ && (
        if !toml_parses(text@) {
            message@ == toml_error_message(text@)
        } else {
            toml_table_str(text@, "session"@, "storage"@) matches Some(n) && message@
                == "unknown session storage '"@ + n + "'"@
        })),
{
    if let Some(message) = toml_check(text) {
        return Err(CliError::ConfigRead { path: path.to_owned(), message });
    }
    let jmap_url = if toml_has_top(text, "jmap_url") {
        toml_top_string(text, "jmap_url")
    } else {
        toml_table_string(text, "service", "jmap_url")
    };
    let storage_name = toml_table_string(text, "session", "storage");
    let session_storage = match &storage_name {
        Some(n) => match SessionStorageKind::from_name(n.as_str()) {
            Some(k) => Some(k),
            None => {
                let mut message = "unknown session storage '".to_owned();
                append_str(&mut message, n.as_str());
                append_str(&mut message, "'");
                return Err(CliError::ConfigRead { path: path.to_owned(), message });
            },
        },
        None => None,
    };
    Ok(
        ConfigFileValues {
            jmap_url,
            page_size: toml_top_integer(text, "page_size"),
            service_port: toml_table_integer(text, "service", "port"),
            session_storage,
            redis_url: toml_table_string(text, "session", "redis_url"),
        },
    )
}

/// The check of the server URL: it must be set and have a scheme and host.
pub open spec fn jmap_url_check(url: Seq<char>, c: CheckResult) -> bool {
    &&& c.name@ == "jmap_url"@
    &&& if url.len() == 0 {
        !c.passed && c.message@ == "JMAP URL is empty; set jmap_url in config.toml or ACTON_JMAP_URL env var"@
    } else {
        match url_problem(url) {
            None => c.passed && c.message@ == "JMAP URL is valid: "@ + url,
            Some(p) => !c.passed && c.message@ == "JMAP URL is invalid: "@ + ("invalid JMAP URL: "@ + p),
        }
    }
}

fn check_jmap_url(url: &JmapUrl) -> (r: CheckResult)
    ensures
        jmap_url_check(url@, r),
{
    let name = "jmap_url".to_owned();
    if url.is_empty() {
        return CheckResult {
            name,
            passed: false,
            message: "JMAP URL is empty; set jmap_url in config.toml or ACTON_JMAP_URL env var".to_owned(),
        };
    }
    match url.validate() {
        Ok(()) => {
            let mut message = "JMAP URL is valid: ".to_owned();
            append_str(&mut message, url.as_str());
            CheckResult { name, passed: true, message }
        },
        Err(e) => {
            let mut message = "JMAP URL is invalid: ".to_owned();
            append_str(&mut message, e.to_string().as_str());
            CheckResult { name, passed: false, message }
        },
    }
}

/// The check of the port: 0 would let the system pick any port.
pub open spec fn port_check(port: u16, c: CheckResult) -> bool {
    &&& c.name@ == "service_port"@
    &&& c.passed == (port != 0)
    &&& c.message@ == if port == 0 {
        "service port is 0; this will cause the OS to assign a random port"@
    } else {
        "service port is "@ + decimal(port as nat)
    }
}

fn check_service_port(port: u16) -> (r: CheckResult)
    ensures
        port_check(port, r),
{
    let name = "service_port".to_owned();
    if port == 0 {
        return CheckResult {
            name,
            passed: false,
            message: "service port is 0; this will cause the OS to assign a random port".to_owned(),
        };
    }
    let mut message = "service port is ".to_owned();
    append_str(&mut message, from_chars(&decimal_chars(port as u64)).as_str());
    CheckResult { name, passed: true, message }
}

/// The check of the page size: from 1 to 1000.
pub open spec fn page_size_check(size: usize, c: CheckResult) -> bool {
    &&& c.name@ == "page_size"@
    &&& c.passed == (1 <= size <= 1000)
    &&& c.message@ == if size == 0 {
        "page_size is 0; must be at least 1"@
    } else if size > 1000 {
        "page_size is "@ + decimal(size as nat) + "; values above 1000 may cause JMAP server timeouts"@
    } else {
        "page_size is "@ + decimal(size as nat)
    }
}

fn check_page_size(size: usize) -> (r: CheckResult)
    ensures
        page_size_check(size, r),
{
    let name = "page_size".to_owned();
    if size == 0 {
        return CheckResult { name, passed: false, message: "page_size is 0; must be at least 1".to_owned() };
    }
    let mut message = "page_size is ".to_owned();
    append_str(&mut message, from_chars(&decimal_chars(size as u64)).as_str());
    if size > 1000 {
        append_str(&mut message, "; values above 1000 may cause JMAP server timeouts");
        return CheckResult { name, passed: false, message };
    }
    CheckResult { name, passed: true, message }
}

/// The check of the session storage: Redis needs a URL.
pub open spec fn session_check(kind: SessionStorageKind, redis_url: Option<String>, c: CheckResult) -> bool {
    &&& c.name@ == "session"@
    &&& match kind {
        SessionStorageKind::Memory => c.passed && c.message@ == "using in-memory session storage"@,
        SessionStorageKind::Redis => if redis_url is None {
            !c.passed && c.message@
                == "session storage is 'redis' but redis_url is not set; add [session] redis_url to config"@
        } else {
            c.passed && c.message@ == "using Redis session storage"@
        },
    }
}

fn check_session_config(kind: SessionStorageKind, redis_url: &Option<String>) -> (r: CheckResult)
    ensures
        session_check(kind, *redis_url, r),
{
    let name = "session".to_owned();
    match kind {
        SessionStorageKind::Memory => CheckResult {
            name,
            passed: true,
            message: "using in-memory session storage".to_owned(),
        },
        SessionStorageKind::Redis => if redis_url.is_none() {
            CheckResult {
                name,
                passed: false,
                message: "session storage is 'redis' but redis_url is not set; add [session] redis_url to config".to_owned(),
            }
        } else {
            CheckResult { name, passed: true, message: "using Redis session storage".to_owned() }
        },
    }
}

/// The four checks of a configuration, in order: URL, port, page size, sessions.
pub open spec fn config_report(c: ServiceConfig, r: SanityReport) -> bool {
    &&& r.checks@.len() == 4
    &&& jmap_url_check(c.jmap_url@, r.checks@[0])
    &&& port_check(c.service_port, r.checks@[1])
    &&& page_size_check(c.page_size, r.checks@[2])
    &&& session_check(c.session_storage, c.redis_url, r.checks@[3])
}

pub fn check_config(config: &ServiceConfig) -> (r: SanityReport)
    ensures
        config_report(*config, r),
{
    let mut checks: Vec<CheckResult> = Vec::new();
    checks.push(check_jmap_url(&config.jmap_url));
    checks.push(check_service_port(config.service_port));
    checks.push(check_page_size(config.page_size));
    checks.push(check_session_config(config.session_storage, &config.redis_url));
    SanityReport { checks }
}

/// The outcome of `missive sanity`: success where every check passed, else
/// an invalid configuration naming how many failed.
pub fn sanity_outcome(report: &SanityReport) -> (r: Result<(), CliError>)
    ensures
        match r {
            Ok(()) => failures(report.checks@) == 0,
            Err(e) => failures(report.checks@) > 0 && (e matches CliError::ConfigInvalid { message }
                && message@ == decimal(failures(report.checks@)) + " check(s) failed"@),
        },
{
    proof {
        lemma_all_passed_iff_no_failures(report.checks@);
    }
    if report.all_passed() {
        Ok(())
    } else {
        let mut message = from_chars(&decimal_chars(report.failure_count() as u64));
        append_str(&mut message, " check(s) failed");
        Err(CliError::ConfigInvalid { message })
    }
}

// ---------------------------------------------------------------------------
// The JMAP account
// ---------------------------------------------------------------------------

/// The mailbox roles the application needs.
pub open spec fn required_roles() -> Seq<Seq<char>> {
    seq!["inbox"@, "drafts"@, "sent"@, "trash"@]
}

fn required_role_names() -> (r: [&'static str; 4])
    ensures
        r@.map_values(|s: &str| s@) == required_roles(),
{
    let r = ["inbox", "drafts", "sent", "trash"];
    assert(r@.map_values(|s: &str| s@) =~= required_roles());
    r
}

/// Some mailbox has the role, compared without ASCII case.
pub open spec fn has_role(mailboxes: Seq<MailboxInfo>, role: Seq<char>) -> bool {
    exists|i: int| 0 <= i < mailboxes.len() && eq_ignore_case(#[trigger] mailboxes[i].role@, role)
}

/// The check of each required role, in order.
pub open spec fn role_checks(mailboxes: Seq<MailboxInfo>, checks: Seq<MailboxCheck>) -> bool {
    &&& checks.len() == 4
    &&& forall|k: int|
        0 <= k < 4 ==> {
            let role = required_roles()[k];
            &&& (#[trigger] checks[k]).role@ == role
            &&& if has_role(mailboxes, role) {
                checks[k].status is Passed
            } else {
                checks[k].status matches CheckStatus::Failed { message } && message@
                    == "no mailbox with role '"@ + role + "' found on server"@
            }
        }
}

fn find_role(mailboxes: &[MailboxInfo], role: &str) -> (r: bool)
    ensures
        r == has_role(mailboxes@, role@),
{
    let target = to_chars(role);
    let mut i: usize = 0;
    while i < mailboxes.len()
        invariant
            i <= mailboxes@.len(),
            target@ == role@,
            forall|k: int| 0 <= k < i ==> !eq_ignore_case(#[trigger] mailboxes@[k].role@, role@),
        decreases mailboxes@.len() - i,
    {
        if chars_eq_ignore_case(&to_chars(mailboxes[i].role.as_str()), &target) {
            return true;
        }
        i = i + 1;
    }
    false
}

/// The check of each mailbox role the application needs.
pub fn check_required_mailboxes(mailboxes: &[MailboxInfo]) -> (r: Vec<MailboxCheck>)
    ensures
        role_checks(mailboxes@, r@),
{
    let roles = required_role_names();
    let mut out: Vec<MailboxCheck> = Vec::new();
    let mut k: usize = 0;
    while k < 4
        invariant
            k <= 4,
            roles@.map_values(|s: &str| s@) == required_roles(),
            out@.len() == k,
            forall|q: int|
                0 <= q < k ==> {
                    let role = required_roles()[q];
                    &&& (#[trigger] out@[q]).role@ == role
                    &&& if has_role(mailboxes@, role) {
                        out@[q].status is Passed
                    } else {
                        out@[q].status matches CheckStatus::Failed { message } && message@
                            == "no mailbox with role '"@ + role + "' found on server"@
                    }
                },
        decreases 4 - k,
    {
        let role = roles[k];
        assert(role@ == required_roles()[k as int]);
        let status = if find_role(mailboxes, role) {
            CheckStatus::Passed
        } else {
            let mut message = "no mailbox with role '".to_owned();
            append_str(&mut message, role);
            append_str(&mut message, "' found on server");
            CheckStatus::Failed { message }
        };
        out.push(MailboxCheck { role: role.to_owned(), status });
        k = k + 1;
    }
    out
}

/// Every required role, failed for the same reason.
pub open spec fn roles_skipped(checks: Seq<MailboxCheck>, reason: Seq<char>) -> bool {
    &&& checks.len() == 4
    &&& forall|k: int|
        0 <= k < 4 ==> (#[trigger] checks[k]).role@ == required_roles()[k] && (
        checks[k].status matches CheckStatus::Failed { message } && message@ == reason)
}

fn skipped_roles(reason: &str) -> (r: Vec<MailboxCheck>)
    ensures
        roles_skipped(r@, reason@),
{
    let roles = required_role_names();
    let mut out: Vec<MailboxCheck> = Vec::new();
    let mut k: usize = 0;
    while k < 4
        invariant
            k <= 4,
            roles@.map_values(|s: &str| s@) == required_roles(),
            out@.len() == k,
            forall|q: int|
                0 <= q < k ==> (#[trigger] out@[q]).role@ == required_roles()[q] && (
                out@[q].status matches CheckStatus::Failed { message } && message@ == reason@),
        decreases 4 - k,
    {
        let role = roles[k];
        assert(role@ == required_roles()[k as int]);
        out.push(MailboxCheck { role: role.to_owned(), status: CheckStatus::Failed { message: reason.to_owned() } });
        k = k + 1;
    }
    out
}

/// The result where the client could not connect: every later check is
/// skipped.
pub fn connection_failed_result(error: &MissiveError) -> (r: JmapSanityResult)
    ensures
        r.connection matches CheckStatus::Failed { message } && message@ == error_text(*error),
        r.mailbox_fetch matches CheckStatus::Failed { message } && message@ == "skipped (connection failed)"@,
        r.identity_fetch matches CheckStatus::Failed { message } && message@ == "skipped (connection failed)"@,
        roles_skipped(r.required_mailboxes@, "skipped (connection failed)"@),
        r.identity_count == 0,
{
    JmapSanityResult {
        connection: CheckStatus::Failed { message: error.to_string() },
        mailbox_fetch: CheckStatus::Failed { message: "skipped (connection failed)".to_owned() },
        identity_fetch: CheckStatus::Failed { message: "skipped (connection failed)".to_owned() },
        required_mailboxes: skipped_roles("skipped (connection failed)"),
        identity_count: 0,
    }
}

/// The result once connected, from what fetching the mailboxes and the
/// identities gave: the required roles are checked where the mailboxes
/// came, and at least one identity is needed.
pub fn connected_result(
    mailboxes: &Result<Vec<MailboxInfo>, MissiveError>,
    identities: &Result<Vec<IdentityInfo>, MissiveError>,
) -> (r: JmapSanityResult)
    ensures
        r.connection is Passed,
        match mailboxes {
            Ok(ms) => r.mailbox_fetch is Passed && role_checks(ms@, r.required_mailboxes@),
            Err(e) => (r.mailbox_fetch matches CheckStatus::Failed { message } && message@
                == error_text(*e)) && roles_skipped(
                r.required_mailboxes@,
                "skipped (mailbox fetch failed)"@,
            ),
        },
        match identities {
            Ok(ids) => if ids@.len() == 0 {
                (r.identity_fetch matches CheckStatus::Failed { message } && message@
                    == "no sending identities found on server"@) && r.identity_count == 0
            } else {
                r.identity_fetch is Passed && r.identity_count == ids@.len()
            },
            Err(e) => (r.identity_fetch matches CheckStatus::Failed { message } && message@
                == error_text(*e)) && r.identity_count == 0,
        },
{
    let (mailbox_fetch, required_mailboxes) = match mailboxes {
        Ok(ms) => (CheckStatus::Passed, check_required_mailboxes(ms.as_slice())),
        Err(e) => (
            CheckStatus::Failed { message: e.to_string() },
            skipped_roles("skipped (mailbox fetch failed)"),
        ),
    };
    let (identity_fetch, identity_count) = match identities {
        Ok(ids) => if ids.len() == 0 {
            (CheckStatus::Failed { message: "no sending identities found on server".to_owned() }, 0)
        } else {
            (CheckStatus::Passed, ids.len())
        },
        Err(e) => (CheckStatus::Failed { message: e.to_string() }, 0),
    };
    JmapSanityResult {
        connection: CheckStatus::Passed,
        mailbox_fetch,
        identity_fetch,
        required_mailboxes,
        identity_count,
    }
}

// ---------------------------------------------------------------------------
// What is printed
// ---------------------------------------------------------------------------

/// The printed line of a configuration check.
pub open spec fn check_line(c: CheckResult) -> Seq<char> {
    "["@ + (if c.passed {
        "PASS"@
    } else {
        "FAIL"@
    }) + "] "@ + c.name@ + ": "@ + c.message@
}

/// The printed lines of a report: one per check, a blank line, and the verdict.
pub open spec fn report_text(checks: Seq<CheckResult>) -> Seq<Seq<char>> {
    checks.map_values(|c: CheckResult| check_line(c)) + seq![
        Seq::empty(),
        if failures(checks) == 0 {
            "All "@ + decimal(checks.len()) + " checks passed. Configuration is valid."@
        } else {
            decimal(failures(checks)) + " of "@ + decimal(checks.len()) + " checks failed."@
        },
    ]
}

pub open spec fn line_views(v: Seq<String>) -> Seq<Seq<char>> {
    v.map_values(|s: String| s@)
}

fn number_text(n: usize) -> (r: String)
    ensures
        r@ == decimal(n as nat),
{
    from_chars(&decimal_chars(n as u64))
}

/// The lines that `missive sanity` prints for the report.
pub fn report_lines(report: &SanityReport) -> (r: Vec<String>)
    ensures
        line_views(r@) == report_text(report.checks@),
{
    let mut out: Vec<String> = Vec::new();
    let mut i: usize = 0;
    while i < report.checks.len()
        invariant
            i <= report.checks@.len(),
            line_views(out@) == report.checks@.take(i as int).map_values(|c: CheckResult| check_line(c)),
        decreases report.checks@.len() - i,
    {
        let c = &report.checks[i];
        let mut line = "[".to_owned();
        append_str(&mut line, if c.passed {
            "PASS"
        } else {
            "FAIL"
        });
        append_str(&mut line, "] ");
        append_str(&mut line, c.name.as_str());
        append_str(&mut line, ": ");
        append_str(&mut line, c.message.as_str());
        let ghost before = out@;
        out.push(line);
        assert(line_views(out@) =~= line_views(before).push(check_line(report.checks@[i as int])));
        assert(report.checks@.take(i + 1).map_values(|c: CheckResult| check_line(c)) =~= report.checks@.take(
            i as int,
        ).map_values(|c: CheckResult| check_line(c)).push(check_line(report.checks@[i as int])));
        i = i + 1;
    }
    assert(report.checks@.take(report.checks@.len() as int) =~= report.checks@);
    out.push(String::new());
    let total = number_text(report.checks.len());
    let verdict = if report.all_passed() {
        let mut v = "All ".to_owned();
        append_str(&mut v, total.as_str());
        append_str(&mut v, " checks passed. Configuration is valid.");
        v
    } else {
        let mut v = number_text(report.failure_count());
        append_str(&mut v, " of ");
        append_str(&mut v, total.as_str());
        append_str(&mut v, " checks failed.");
        v
    };
    proof {
        lemma_all_passed_iff_no_failures(report.checks@);
    }
    let ghost before = out@;
    out.push(verdict);
    assert(line_views(out@) =~= report_text(report.checks@));
    out
}

/// The printed line of a check of the account.
pub open spec fn status_line(label: Seq<char>, s: CheckStatus) -> Seq<char> {
    match s {
        CheckStatus::Passed => "  [PASS] "@ + label,
        CheckStatus::Failed { message } => "  [FAIL] "@ + label + ": "@ + message@,
    }
}

fn status_line_of(label: &str, s: &CheckStatus) -> (r: String)
    ensures
        r@ == status_line(label@, *s),
{
    match s {
        CheckStatus::Passed => {
            let mut line = "  [PASS] ".to_owned();
            append_str(&mut line, label);
            line
        },
        CheckStatus::Failed { message } => {
            let mut line = "  [FAIL] ".to_owned();
            append_str(&mut line, label);
            append_str(&mut line, ": ");
            append_str(&mut line, message.as_str());
            line
        },
    }
}

/// The printed lines of the account checks: connection, mailbox fetch,
/// each required role, identity fetch, and the number of identities found.
pub open spec fn jmap_report_text(r: JmapSanityResult) -> Seq<Seq<char>> {
    seq![status_line("Connection"@, r.connection), status_line("Mailbox/get"@, r.mailbox_fetch)]
        + r.required_mailboxes@.map_values(
        |m: MailboxCheck| status_line("Mailbox role '"@ + m.role@ + "'"@, m.status),
    ) + seq![status_line("Identity/get"@, r.identity_fetch)] + if r.identity_count > 0 {
        seq!["  Found "@ + decimal(r.identity_count as nat) + " sending identity(ies)"@]
    } else {
        Seq::empty()
    }
}

/// The lines printed for the account checks.
pub fn jmap_result_lines(result: &JmapSanityResult) -> (r: Vec<String>)
    ensures
        line_views(r@) == jmap_report_text(*result),
{
    let mut out: Vec<String> = Vec::new();
    out.push(status_line_of("Connection", &result.connection));
    out.push(status_line_of("Mailbox/get", &result.mailbox_fetch));
    let ghost head = line_views(out@);
    let ms = &result.required_mailboxes;
    let mut i: usize = 0;
    while i < ms.len()
        invariant
            i <= ms@.len(),
            line_views(out@) == head + ms@.take(i as int).map_values(
                |m: MailboxCheck| status_line("Mailbox role '"@ + m.role@ + "'"@, m.status),
            ),
        decreases ms@.len() - i,
    {
        let mut label = "Mailbox role '".to_owned();
        append_str(&mut label, ms[i].role.as_str());
        append_str(&mut label, "'");
        let line = status_line_of(label.as_str(), &ms[i].status);
        let ghost before = out@;
        out.push(line);
        assert(line_views(out@) =~= line_views(before).push(line@));
        assert(ms@.take(i + 1).map_values(
            |m: MailboxCheck| status_line("Mailbox role '"@ + m.role@ + "'"@, m.status),
        ) =~= ms@.take(i as int).map_values(
            |m: MailboxCheck| status_line("Mailbox role '"@ + m.role@ + "'"@, m.status),
        ).push(line@));
        i = i + 1;
    }
    assert(ms@.take(ms@.len() as int) =~= ms@);
    let ghost mid = out@;
    out.push(status_line_of("Identity/get", &result.identity_fetch));
    assert(line_views(out@) =~= line_views(mid).push(status_line("Identity/get"@, result.identity_fetch)));
    if result.identity_count > 0 {
        let mut line = "  Found ".to_owned();
        append_str(&mut line, number_text(result.identity_count).as_str());
        append_str(&mut line, " sending identity(ies)");
        let ghost before = out@;
        out.push(line);
        assert(line_views(out@) =~= line_views(before).push(line@));
    }
    assert(line_views(out@) =~= jmap_report_text(*result));
    out
}

} // verus!
