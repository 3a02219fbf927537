//! The mail side of JMAP: search queries, server URLs, mailboxes, messages
//! and addresses, and the decisions around sending and saving mail.

use vstd::prelude::*;

use crate::text::{
    append_str, comma_items, comma_items_chars, first_piece, first_piece_chars, find_str,
    find_str_chars, from_chars, join, join_chars, or_empty, second_piece, second_piece_chars,
    str_eq, to_chars, trim, trimmed, views, chars_lt, str_lower, lower_str, key_before, sort_order,
    char_from_ascii, extend, decimal, decimal_chars, words, words_chars, eq_ignore_case,
    chars_eq_ignore_case, lemma_trim_twice, is_ascii_text, ascii_lower_text,
};
use crate::error::{JmapErrorKind, MissiveError};
use crate::sanitize::{safe_email_html, sanitize_email_html};
use crate::text::ov;

pub use crate::ids::{BlobId, EmailId, IdentityId, MailboxId};
use crate::date::{
    date_time_text, format_date_time, local_date_time, local_ok, local_range, utc_range, LocalDateTime,
};

verus! {

// ---------------------------------------------------------------------------
// Search queries
// ---------------------------------------------------------------------------

/// A full-text search: never empty, never with surrounding white space.
#[derive(Debug, Clone, PartialEq, Eq)]
pub struct SearchQuery(String);

impl View for SearchQuery {
    type V = Seq<char>;

    closed spec fn view(&self) -> Seq<char> {
        self.0@
    }
}

impl SearchQuery {
    /// The trimmed query, or `None` where nothing but white space is left.
    pub fn new(s: &str) -> (r: Option<Self>)
        ensures
            r is None <==> trim(s@).len() == 0,
            r matches Some(q) ==> q@ == trim(s@),
            r matches Some(q) ==> q@.len() > 0 && trim(q@) == q@,
    {
        let t = trimmed(s);
        if t.len() == 0 {
            None
        } else {
            proof {
                lemma_trim_twice(s@);
            }
            Some(SearchQuery(from_chars(&t)))
        }
    }

    /// The text of the query.
    pub fn as_ref(&self) -> (r: &str)
        ensures
            r@ == self@,
    {
        self.0.as_str()
    }

    /// The text of the query, as `Display` prints it.
    pub fn to_string(&self) -> (r: String)
        ensures
            r@ == self@,
    {
        self.0.clone()
    }
}

// ---------------------------------------------------------------------------
// Server URLs
// ---------------------------------------------------------------------------

/// Why a JMAP server URL was refused.
#[derive(Debug, Clone, PartialEq, Eq)]
pub struct JmapUrlError(String);

impl View for JmapUrlError {
    type V = Seq<char>;

    closed spec fn view(&self) -> Seq<char> {
        self.0@
    }
}

impl JmapUrlError {
    /// The message, as `Display` prints it.
    pub fn to_string(&self) -> (r: String)
        ensures
            r@ == "invalid JMAP URL: "@ + self@,
    {
        let mut out = String::new();
        append_str(&mut out, "invalid JMAP URL: ");
        append_str(&mut out, self.0.as_str());
        out
    }
}

/// The host (and port) of a URL: what follows the first `://` up to the
/// next `://` or `/`; for text without `://`, what precedes the first `/`.
pub open spec fn url_host(s: Seq<char>) -> Seq<char> {
    let rest = match second_piece(s, "://"@) {
        Some(x) => x,
        None => s,
    };
    first_piece(rest, '/')
}

/// What is wrong with a server URL, if anything: an empty URL is accepted
/// (no server configured); any other needs a scheme and a host.
pub open spec fn url_problem(s: Seq<char>) -> Option<Seq<char>> {
    if s.len() == 0 {
        None
    } else if find_str(s, "://"@) is None {
        Some("URL must include a scheme (e.g., https://)"@)
    } else if url_host(s).len() == 0 {
        Some("URL must include a host"@)
    } else {
        None
    }
}

/// The URL of a JMAP server, or an empty URL where none is configured.
#[derive(Debug, Clone)]
pub struct JmapUrl(String);

impl View for JmapUrl {
    type V = Seq<char>;

    closed spec fn view(&self) -> Seq<char> {
        self.0@
    }
}

fn url_host_chars(v: &Vec<char>) -> (r: Vec<char>)
    ensures
        r@ == url_host(v@),
{
    let sep = to_chars("://");
    let rest = match second_piece_chars(v, &sep) {
        Some(x) => x,
        None => v.clone(),
    };
    first_piece_chars(&rest, '/')
}

impl JmapUrl {
    /// The URL, where it is empty or has a scheme and a host.
    pub fn parse(s: &str) -> (r: Result<Self, JmapUrlError>)
        ensures
            match r {
                Ok(u) => url_problem(s@) is None && u@ == s@,
                Err(e) => url_problem(s@) == Some(e@),
            },
    {
        let v = to_chars(s);
        if v.len() == 0 {
            return Ok(JmapUrl(String::new()));
        }
        let sep = to_chars("://");
        if find_str_chars(&v, &sep).is_none() {
            return Err(JmapUrlError("URL must include a scheme (e.g., https://)".to_owned()));
        }
        let host = url_host_chars(&v);
        if host.len() == 0 {
            return Err(JmapUrlError("URL must include a host".to_owned()));
        }
        Ok(JmapUrl(s.to_owned()))
    }

    /// Checks the URL as `parse` does.
    pub fn validate(&self) -> (r: Result<(), JmapUrlError>)
        ensures
            r is Ok <==> url_problem(self@) is None,
            r matches Err(e) ==> url_problem(self@) == Some(e@),
    {
        match JmapUrl::parse(self.0.as_str()) {
            Ok(_) => Ok(()),
            Err(e) => Err(e),
        }
    }

    /// The host the client may follow redirects to.
    pub fn host(&self) -> (r: String)
        ensures
            r@ == url_host(self@),
    {
        from_chars(&url_host_chars(&to_chars(self.0.as_str())))
    }

    pub fn as_str(&self) -> (r: &str)
        ensures
            r@ == self@,
    {
        self.0.as_str()
    }

    pub fn is_empty(&self) -> (r: bool)
        ensures
            r == (self@.len() == 0),
    {
        to_chars(self.0.as_str()).len() == 0
    }

    /// The URL as text, as `Display` prints it.
    pub fn to_string(&self) -> (r: String)
        ensures
            r@ == self@,
    {
        self.0.clone()
    }
}

impl Default for JmapUrl {
    fn default() -> (r: Self)
        ensures
            r@.len() == 0,
    {
        JmapUrl(String::new())
    }
}

impl From<String> for JmapUrl {
    fn from(s: String) -> (r: Self)
        ensures
            r@ == s@,
    {
        JmapUrl(s)
    }
}

impl vstd::std_specs::convert::FromSpecImpl<String> for JmapUrl {
    open spec fn obeys_from_spec() -> bool {
        false
    }

    open spec fn from_spec(v: String) -> Self {
        arbitrary()
    }
}

impl From<&str> for JmapUrl {
    fn from(s: &str) -> (r: Self)
        ensures
            r@ == s@,
    {
        JmapUrl(s.to_owned())
    }
}

impl vstd::std_specs::convert::FromSpecImpl<&str> for JmapUrl {
    open spec fn obeys_from_spec() -> bool {
        false
    }

    open spec fn from_spec(v: &str) -> Self {
        arbitrary()
    }
}

impl std::str::FromStr for JmapUrl {
    type Err = JmapUrlError;

    fn from_str(s: &str) -> (r: Result<Self, Self::Err>)
        ensures
            match r {
                Ok(u) => url_problem(s@) is None && u@ == s@,
                Err(e) => url_problem(s@) == Some(e@),
            },
    {
        JmapUrl::parse(s)
    }
}

/// A URL that `parse` accepts is either empty (no server configured) or
/// names a host.
pub proof fn lemma_parsed_url_has_host(s: Seq<char>)
    requires
        url_problem(s) is None,
    ensures
        s.len() == 0 || url_host(s).len() > 0,
{
}

/// Whether the text of a failed connection speaks of refused credentials.
pub open spec fn mentions_auth(message: Seq<char>) -> bool {
    ||| find_str(message, "401"@) is Some
    ||| find_str(message, "403"@) is Some
    ||| find_str(message, "auth"@) is Some
}

/// The error a failed connection to the server at `jmap_url` is reported
/// as, given the text of the failure: refused credentials where the text
/// names status 401 or 403 or speaks of `auth`, otherwise a failed
/// connection that names the URL.
pub fn connect_error(jmap_url: &JmapUrl, message: &str) -> (r: MissiveError)
    ensures
        mentions_auth(message@) ==> r == MissiveError::AuthFailed,
        !mentions_auth(message@) ==> (r matches MissiveError::Jmap(
            JmapErrorKind::ConnectionFailed { url, message: m },
        ) && url@ == jmap_url@ && m@ == message@),
{
    let m = to_chars(message);
    if find_str_chars(&m, &to_chars("401")).is_some() || find_str_chars(&m, &to_chars("403")).is_some()
        || find_str_chars(&m, &to_chars("auth")).is_some() {
        MissiveError::AuthFailed
    } else {
        MissiveError::Jmap(
            JmapErrorKind::ConnectionFailed { url: jmap_url.0.clone(), message: message.to_owned() },
        )
    }
}

// ---------------------------------------------------------------------------
// Views of mailboxes, messages and identities
// ---------------------------------------------------------------------------

/// A sending identity of the account.
#[derive(Debug, Clone)]
pub struct IdentityInfo {
    pub id: IdentityId,
    pub name: String,
    pub email: String,
}

/// A mailbox as the sidebar lists it.
#[derive(Debug, Clone)]
pub struct MailboxInfo {
    pub id: MailboxId,
    pub name: String,
    pub role: String,
    pub unread_count: usize,
}

impl MailboxInfo {
    /// A copy of the mailbox.
    pub fn duplicate(&self) -> (r: Self)
        ensures
            r == *self,
    {
        MailboxInfo {
            id: self.id.duplicate(),
            name: self.name.clone(),
            role: self.role.clone(),
            unread_count: self.unread_count,
        }
    }
}

/// A message as the message list shows it.
#[derive(Debug, Clone)]
pub struct EmailSummary {
    pub id: EmailId,
    pub from: String,
    pub subject: String,
    pub received_at: String,
    pub preview: String,
    pub is_unread: bool,
    pub has_attachment: bool,
}

/// A message as its page shows it.
#[derive(Debug, Clone)]
pub struct EmailDetail {
    pub id: EmailId,
    pub from: String,
    pub to: String,
    pub cc: String,
    pub subject: String,
    pub received_at: String,
    pub body_text: String,
    pub body_html: Option<String>,
    pub attachments: Vec<AttachmentInfo>,
    pub message_id: Vec<String>,
    pub references: Vec<String>,
    pub from_email: String,
    pub to_emails: String,
    pub cc_emails: String,
}

/// An attachment that can be downloaded.
#[derive(Debug, Clone)]
pub struct AttachmentInfo {
    pub blob_id: BlobId,
    pub name: String,
    pub size_display: String,
}

/// An address of a message: a display name where there is one, and the address.
#[derive(Debug, Clone, PartialEq, Eq)]
pub struct EmailAddress {
    pub name: Option<String>,
    pub email: String,
}

impl EmailAddress {
    pub fn email(&self) -> (r: &str)
        ensures
            r@ == self.email@,
    {
        self.email.as_str()
    }

    pub fn name(&self) -> (r: Option<&str>)
        ensures
            match r {
                Some(n) => self.name matches Some(x) && n@ == x@,
                None => self.name is None,
            },
    {
        match &self.name {
            Some(n) => Some(n.as_str()),
            None => None,
        }
    }
}

impl From<&str> for EmailAddress {
    /// An address without a display name.
    fn from(email: &str) -> (r: Self)
        ensures
            r.name is None,
            r.email@ == email@,
    {
        EmailAddress { name: None, email: email.to_owned() }
    }
}

impl vstd::std_specs::convert::FromSpecImpl<&str> for EmailAddress {
    open spec fn obeys_from_spec() -> bool {
        false
    }

    open spec fn from_spec(v: &str) -> Self {
        arbitrary()
    }
}

/// The role of a mailbox.
#[derive(Debug, Clone, PartialEq, Eq)]
pub enum Role {
    Archive,
    Drafts,
    Important,
    Inbox,
    Junk,
    Sent,
    Trash,
    Other(String),
    NoRole,
}

/// The name of a role: lower case for the standard roles, the name itself
/// for any other, nothing for no role.
pub open spec fn role_name(role: Role) -> Seq<char> {
    match role {
        Role::Inbox => "inbox"@,
        Role::Sent => "sent"@,
        Role::Drafts => "drafts"@,
        Role::Trash => "trash"@,
        Role::Junk => "junk"@,
        Role::Archive => "archive"@,
        Role::Important => "important"@,
        Role::Other(s) => s@,
        Role::NoRole => Seq::empty(),
    }
}

pub fn role_to_string(role: &Role) -> (r: String)
    ensures
        r@ == role_name(*role),
{
    match role {
        Role::Inbox => "inbox".to_owned(),
        Role::Sent => "sent".to_owned(),
        Role::Drafts => "drafts".to_owned(),
        Role::Trash => "trash".to_owned(),
        Role::Junk => "junk".to_owned(),
        Role::Archive => "archive".to_owned(),
        Role::Important => "important".to_owned(),
        Role::Other(s) => s.clone(),
        Role::NoRole => String::new(),
    }
}

/// Where a mailbox of the role is listed: inbox, drafts, sent, archive,
/// junk and trash first, in that order, then mailboxes without a role,
/// then the rest.
pub open spec fn role_priority(role: Seq<char>) -> u8 {
    if role == "inbox"@ {
        0
    } else if role == "drafts"@ {
        1
    } else if role == "sent"@ {
        2
    } else if role == "archive"@ {
        3
    } else if role == "junk"@ {
        4
    } else if role == "trash"@ {
        5
    } else if role.len() == 0 {
        6
    } else {
        7
    }
}

pub fn role_sort_priority(role: &str) -> (r: u8)
    ensures
        r == role_priority(role@),
{
    if str_eq(role, "inbox") {
        0
    } else if str_eq(role, "drafts") {
        1
    } else if str_eq(role, "sent") {
        2
    } else if str_eq(role, "archive") {
        3
    } else if str_eq(role, "junk") {
        4
    } else if str_eq(role, "trash") {
        5
    } else if to_chars(role).len() == 0 {
        6
    } else {
        7
    }
}

// ---------------------------------------------------------------------------
// Addresses
// ---------------------------------------------------------------------------

/// The recipients written in an address field: the trimmed, non-empty
/// pieces between commas.
pub fn parse_recipient_emails(input: &str) -> (r: Vec<String>)
    ensures
        r@.len() == comma_items(input@).len(),
        forall|i: int| 0 <= i < r@.len() ==> (#[trigger] r@[i])@ == comma_items(input@)[i],
{
    let items = comma_items_chars(input);
    let mut out: Vec<String> = Vec::new();
    let mut i: usize = 0;
    while i < items.len()
        invariant
            i <= items@.len(),
            views(items@) == comma_items(input@),
            out@.len() == i,
            forall|k: int| 0 <= k < i ==> (#[trigger] out@[k])@ == comma_items(input@)[k],
        decreases items@.len() - i,
    {
        assert(views(items@)[i as int] == items@[i as int]@);
        out.push(from_chars(&items[i]));
        i = i + 1;
    }
    out
}

/// The recipients of an address field, as addresses without display names.
pub fn parse_address_list(input: &str) -> (r: Vec<EmailAddress>)
    ensures
        r@.len() == comma_items(input@).len(),
        forall|i: int|
            0 <= i < r@.len() ==> (#[trigger] r@[i]).name is None && r@[i].email@ == comma_items(
                input@,
            )[i],
{
    let items = parse_recipient_emails(input);
    let mut out: Vec<EmailAddress> = Vec::new();
    let mut i: usize = 0;
    while i < items.len()
        invariant
            i <= items@.len(),
            items@.len() == comma_items(input@).len(),
            forall|k: int| 0 <= k < items@.len() ==> (#[trigger] items@[k])@ == comma_items(input@)[k],
            out@.len() == i,
            forall|k: int|
                0 <= k < i ==> (#[trigger] out@[k]).name is None && out@[k].email@ == comma_items(
                    input@,
                )[k],
        decreases items@.len() - i,
    {
        out.push(EmailAddress::from(items[i].as_str()));
        i = i + 1;
    }
    out
}

/// How an address is shown: its display name, or the address where the
/// name is missing or empty.
pub open spec fn shown_name(a: EmailAddress) -> Seq<char> {
    match a.name {
        Some(n) => if n@.len() > 0 {
            n@
        } else {
            a.email@
        },
        None => a.email@,
    }
}

/// The shown names of the addresses, joined by `, `.
pub open spec fn names_text(addresses: Option<Seq<EmailAddress>>) -> Seq<char> {
    match addresses {
        Some(a) => join(a.map_values(|x: EmailAddress| shown_name(x)), ", "@),
        None => Seq::empty(),
    }
}

/// The bare addresses, joined by `, `.
pub open spec fn emails_text(addresses: Option<Seq<EmailAddress>>) -> Seq<char> {
    match addresses {
        Some(a) => join(a.map_values(|x: EmailAddress| x.email@), ", "@),
        None => Seq::empty(),
    }
}

pub open spec fn slice_view(addresses: Option<&[EmailAddress]>) -> Option<Seq<EmailAddress>> {
    match addresses {
        Some(a) => Some(a@),
        None => None,
    }
}

/// The display names (or addresses) of a list of addresses, comma separated.
pub fn format_addresses(addresses: Option<&[EmailAddress]>) -> (r: String)
    ensures
        r@ == names_text(slice_view(addresses)),
{
    match addresses {
        None => String::new(),
        Some(a) => {
            let mut parts: Vec<Vec<char>> = Vec::new();
            let mut i: usize = 0;
            while i < a.len()
                invariant
                    i <= a@.len(),
                    views(parts@) == a@.take(i as int).map_values(|x: EmailAddress| shown_name(x)),
                decreases a@.len() - i,
            {
                let x = &a[i];
                let shown = match &x.name {
                    Some(n) => if to_chars(n.as_str()).len() > 0 {
                        to_chars(n.as_str())
                    } else {
                        to_chars(x.email.as_str())
                    },
                    None => to_chars(x.email.as_str()),
                };
                let ghost before = parts@;
                parts.push(shown);
                proof {
                    assert(a@.take(i + 1) =~= a@.take(i as int).push(a@[i as int]));
                    assert(views(parts@) =~= views(before).push(shown@));
                    assert(a@.take(i + 1).map_values(|x: EmailAddress| shown_name(x)) =~= a@.take(
                        i as int,
                    ).map_values(|x: EmailAddress| shown_name(x)).push(shown_name(a@[i as int])));
                }
                i = i + 1;
            }
            assert(a@.take(a@.len() as int) =~= a@);
            from_chars(&join_chars(&parts, &to_chars(", ")))
        },
    }
}

/// The bare addresses of a list of addresses, comma separated.
pub fn format_addresses_raw(addresses: Option<&[EmailAddress]>) -> (r: String)
    ensures
        r@ == emails_text(slice_view(addresses)),
{
    match addresses {
        None => String::new(),
        Some(a) => {
            let mut parts: Vec<Vec<char>> = Vec::new();
            let mut i: usize = 0;
            while i < a.len()
                invariant
                    i <= a@.len(),
                    views(parts@) == a@.take(i as int).map_values(|x: EmailAddress| x.email@),
                decreases a@.len() - i,
            {
                let shown = to_chars(a[i].email.as_str());
                let ghost before = parts@;
                parts.push(shown);
                proof {
                    assert(a@.take(i + 1) =~= a@.take(i as int).push(a@[i as int]));
                    assert(views(parts@) =~= views(before).push(shown@));
                    assert(a@.take(i + 1).map_values(|x: EmailAddress| x.email@) =~= a@.take(
                        i as int,
                    ).map_values(|x: EmailAddress| x.email@).push(a@[i as int].email@));
                }
                i = i + 1;
            }
            assert(a@.take(a@.len() as int) =~= a@);
            from_chars(&join_chars(&parts, &to_chars(", ")))
        },
    }
}

// ---------------------------------------------------------------------------
// The mailbox list
// ---------------------------------------------------------------------------

/// What the mailbox list reads of a mailbox that the server returned.
#[derive(Debug, Clone)]
pub struct MailboxEntry {
    pub id: Option<String>,
    pub name: Option<String>,
    pub role: Role,
    pub unread_emails: usize,
}

/// The sidebar view of a mailbox: a missing id is empty, a missing name is
/// `(unnamed)`.
pub open spec fn mailbox_view(e: MailboxEntry, m: MailboxInfo) -> bool {
    &&& m.id@ == or_empty(e.id)
    &&& m.name@ == (match e.name {
        Some(n) => n@,
        None => "(unnamed)"@,
    })
    &&& m.role@ == role_name(e.role)
    &&& m.unread_count == e.unread_emails
}

pub fn mailbox_info(e: &MailboxEntry) -> (r: MailboxInfo)
    ensures
        mailbox_view(*e, r),
{
    MailboxInfo {
        id: MailboxId::from_string(crate::text::clone_or_empty(&e.id)),
        name: match &e.name {
            Some(n) => n.clone(),
            None => "(unnamed)".to_owned(),
        },
        role: role_to_string(&e.role),
        unread_count: e.unread_emails,
    }
}

/// `a` is listed before `b`: by role, then by name in lower case.
pub open spec fn mailbox_before(a: MailboxInfo, b: MailboxInfo) -> bool {
    role_priority(a.role@) < role_priority(b.role@) || (role_priority(a.role@) == role_priority(
        b.role@,
    ) && chars_lt(str_lower(a.name@), str_lower(b.name@)))
}

/// `a` and `b` rank alike: same role priority, same name in lower case.
pub open spec fn same_rank(a: MailboxInfo, b: MailboxInfo) -> bool {
    role_priority(a.role@) == role_priority(b.role@) && str_lower(a.name@) == str_lower(b.name@)
}

/// `output` holds the mailboxes of `input` in list order, mailboxes that
/// rank alike in their order in `input`; `output[k]` is `input[p[k]]`.
pub open spec fn mailboxes_sorted_by(
    input: Seq<MailboxInfo>,
    output: Seq<MailboxInfo>,
    p: Seq<int>,
) -> bool {
    &&& output.len() == input.len()
    &&& p.len() == input.len()
    &&& forall|k: int| 0 <= k < p.len() ==> 0 <= #[trigger] p[k] < input.len() && output[k] == input[p[k]]
    &&& forall|a: int, b: int| 0 <= a < b < p.len() ==> #[trigger] p[a] != #[trigger] p[b]
    &&& forall|a: int, b: int|
        0 <= a < b < p.len() ==> mailbox_before(#[trigger] output[a], #[trigger] output[b]) || (
        same_rank(output[a], output[b]) && p[a] < p[b])
}

/// `output` is the stable sort of `input` into list order.
pub open spec fn mailboxes_sorted(input: Seq<MailboxInfo>, output: Seq<MailboxInfo>) -> bool {
    exists|p: Seq<int>| mailboxes_sorted_by(input, output, p)
}

proof fn lemma_lt_after_first(c1: char, c2: char, x: Seq<char>, y: Seq<char>)
    ensures
        chars_lt(seq![c1] + x, seq![c2] + y) == ((c1 as u32) < (c2 as u32) || (c1 == c2
            && chars_lt(x, y))),
        (seq![c1] + x == seq![c2] + y) ==> c1 == c2 && x == y,
{
    let a = seq![c1] + x;
    let b = seq![c2] + y;
    assert(a[0] == c1);
    assert(b[0] == c2);
    assert(a.drop_first() =~= x);
    assert(b.drop_first() =~= y);
    vstd::utf8::char_u32_cast(c1, c1 as u32);
    vstd::utf8::char_u32_cast(c2, c2 as u32);
}

/// The mailboxes in list order: inbox, drafts, sent, archive, junk, trash,
/// then those without a role, then the others; by name in lower case
/// within each, and otherwise in the order given.
pub fn sort_mailboxes(mailboxes: &Vec<MailboxInfo>) -> (r: Vec<MailboxInfo>)
    ensures
        mailboxes_sorted(mailboxes@, r@),
        forall|q: int|
            0 <= q < mailboxes@.len() && is_ascii_text((#[trigger] mailboxes@[q]).name@) ==> str_lower(
                mailboxes@[q].name@,
            ) == ascii_lower_text(mailboxes@[q].name@),
{
    let n = mailboxes.len();
    let mut keys: Vec<Vec<char>> = Vec::new();
    let mut k: usize = 0;
    while k < n
        invariant
            k <= n,
            n == mailboxes@.len(),
            keys@.len() == k,
            forall|q: int|
                0 <= q < k ==> (#[trigger] keys@[q])@.len() >= 1 && (keys@[q]@[0] as u32) == 48
                    + role_priority(mailboxes@[q].role@) && keys@[q]@.drop_first() == str_lower(
                    mailboxes@[q].name@,
                ),
            forall|q: int|
                0 <= q < k && is_ascii_text((#[trigger] mailboxes@[q]).name@) ==> str_lower(
                    mailboxes@[q].name@,
                ) == ascii_lower_text(mailboxes@[q].name@),
        decreases n - k,
    {
        let p = role_sort_priority(mailboxes[k].role.as_str());
        let mut key: Vec<char> = Vec::new();
        key.push(char_from_ascii(48 + p as u32));
        let lower = to_chars(lower_str(mailboxes[k].name.as_str()).as_str());
        extend(&mut key, &lower);
        assert(key@.drop_first() =~= lower@);
        keys.push(key);
        k = k + 1;
    }
    let perm = sort_order(&keys);
    let mut out: Vec<MailboxInfo> = Vec::new();
    let mut i: usize = 0;
    while i < n
        invariant
            i <= n,
            n == mailboxes@.len(),
            n == perm@.len(),
            forall|q: int| 0 <= q < n ==> (#[trigger] perm@[q]) < n,
            out@.len() == i,
            forall|q: int| 0 <= q < i ==> #[trigger] out@[q] == mailboxes@[perm@[q] as int],
        decreases n - i,
    {
        out.push(mailboxes[perm[i]].duplicate());
        i = i + 1;
    }
    proof {
        let pi = perm@.map_values(|x: usize| x as int);
        assert forall|a: int, b: int| 0 <= a < b < pi.len() implies mailbox_before(
            #[trigger] out@[a],
            #[trigger] out@[b],
        ) || (same_rank(out@[a], out@[b]) && pi[a] < pi[b]) by {
            let x = perm@[a] as int;
            let y = perm@[b] as int;
            assert(key_before(keys@, x, y));
            let kx = keys@[x]@;
            let ky = keys@[y]@;
            assert(kx =~= seq![kx[0]] + kx.drop_first());
            assert(ky =~= seq![ky[0]] + ky.drop_first());
            lemma_lt_after_first(kx[0], ky[0], kx.drop_first(), ky.drop_first());
        }
        assert forall|a: int, b: int| 0 <= a < b < pi.len() implies #[trigger] pi[a] != #[trigger] pi[b] by {
            assert(perm@[a] != perm@[b]);
        }
        assert(mailboxes_sorted_by(mailboxes@, out@, pi));
    }
    out
}

/// The mailboxes that the server listed, in list order.
pub fn mailboxes_from_entries(entries: &Vec<MailboxEntry>) -> (r: Vec<MailboxInfo>)
    ensures
        exists|views: Seq<MailboxInfo>|
            #![trigger mailboxes_sorted(views, r@)]
            views.len() == entries@.len() && (forall|i: int|
                0 <= i < entries@.len() ==> mailbox_view(entries@[i], #[trigger] views[i]))
                && mailboxes_sorted(views, r@),
{
    let mut infos: Vec<MailboxInfo> = Vec::new();
    let mut i: usize = 0;
    while i < entries.len()
        invariant
            i <= entries@.len(),
            infos@.len() == i,
            forall|k: int| 0 <= k < i ==> mailbox_view(entries@[k], #[trigger] infos@[k]),
        decreases entries@.len() - i,
    {
        infos.push(mailbox_info(&entries[i]));
        i = i + 1;
    }
    let r = sort_mailboxes(&infos);
    assert(mailboxes_sorted(infos@, r@));
    r
}

// ---------------------------------------------------------------------------
// Sizes of attachments
// ---------------------------------------------------------------------------

/// The spacing of the `f64` values around `n`: 1 below 2^53, doubling with
/// each further binary digit.
pub open spec fn f64_step(n: nat) -> nat
    decreases n,
{
    if n < 0x20_0000_0000_0000 {
        1
    } else {
        2 * f64_step(n / 2)
    }
}

/// `q` divided by `d`, rounded to the nearest integer, ties to even.
pub open spec fn round_half_even(x: nat, d: nat) -> nat
    recommends
        d > 0,
{
    let q = x / d;
    let r = x % d;
    if 2 * r > d || (2 * r == d && q % 2 == 1) {
        q + 1
    } else {
        q
    }
}

/// The value of `n as f64`: `n` rounded to the nearest multiple of its
/// `f64` spacing, ties to an even multiple.
pub open spec fn as_f64(n: nat) -> nat {
    round_half_even(n, f64_step(n)) * f64_step(n)
}

/// A count of tenths in the form `{:.1}` prints it.
pub open spec fn tenths_text(t: nat) -> Seq<char> {
    decimal(t / 10) + "."@ + decimal(t % 10)
}

/// How a size in bytes is shown: whole bytes below 1 KiB, else KiB or MiB
/// to one decimal (the size as an `f64` divided by 1024 or 1024², rounded
/// to the nearest tenth, ties to even).
pub open spec fn file_size_text(bytes: nat) -> Seq<char> {
    if bytes < 1024 {
        decimal(bytes) + " B"@
    } else if bytes < 1024 * 1024 {
        tenths_text(round_half_even(10 * bytes, 1024)) + " KB"@
    } else {
        tenths_text(round_half_even(10 * as_f64(bytes), 1024 * 1024)) + " MB"@
    }
}

proof fn lemma_f64_step_halves(n: nat, u: nat)
    requires
        u > 0,
        n / u >= 0x20_0000_0000_0000,
    ensures
        f64_step(n / u) == 2 * f64_step(n / (u * 2)),
        n / (u * 2) < n / u,
{
    vstd::arithmetic::div_mod::lemma_div_denominator(n as int, u as int, 2);
}

proof fn lemma_rounded_multiple_bound(n: nat, u: nat)
    requires
        1 <= u <= n,
    ensures
        round_half_even(n, u) * u <= 2 * n,
{
    let q = n / u;
    vstd::arithmetic::div_mod::lemma_fundamental_div_mod(n as int, u as int);
    assert(q * u <= n) by (nonlinear_arith)
        requires
            n == u * q + n % u,
            n % u >= 0,
    ;
    assert((q + 1) * u == q * u + u) by (nonlinear_arith);
}

fn round_half_even_u128(x: u128, d: u128) -> (r: u128)
    requires
        d > 0,
        x / d < u128::MAX,
    ensures
        r == round_half_even(x as nat, d as nat),
{
    let q = x / d;
    let rem = x % d;
    if rem > d - rem || (rem == d - rem && q % 2 == 1) {
        q + 1
    } else {
        q
    }
}

fn tenths_chars(t: u64) -> (r: Vec<char>)
    ensures
        r@ == tenths_text(t as nat),
{
    let mut out = decimal_chars(t / 10);
    extend(&mut out, &to_chars("."));
    extend(&mut out, &decimal_chars(t % 10));
    out
}

/// A size in bytes for people: `500 B`, `2.0 KB`, `1.5 MB`.
pub fn format_file_size(bytes: usize) -> (r: String)
    ensures
        r@ == file_size_text(bytes as nat),
{
    if bytes < 1024 {
        let mut out = decimal_chars(bytes as u64);
        extend(&mut out, &to_chars(" B"));
        return from_chars(&out);
    }
    if bytes < 1024 * 1024 {
        let t = round_half_even_u128(10 * bytes as u128, 1024);
        assert(t <= 10240);
        let mut out = tenths_chars(t as u64);
        extend(&mut out, &to_chars(" KB"));
        return from_chars(&out);
    }
    let n = bytes as u128;
    let mut u: u128 = 1;
    assert(n / 1 == n);
    while n / u >= 0x20_0000_0000_0000
        invariant
            1 <= u <= n,
            n == bytes,
            f64_step(n as nat) == u * f64_step((n / u) as nat),
        decreases n / u,
    {
        proof {
            lemma_f64_step_halves(n as nat, u as nat);
            assert(u * 0x20_0000_0000_0000 <= n) by (nonlinear_arith)
                requires
                    n / u >= 0x20_0000_0000_0000,
                    u >= 1,
            ;
            let nn: nat = n as nat;
            let uu: nat = u as nat;
            let next: nat = nn / (uu * 2);
            assert(f64_step(nn / uu) == 2 * f64_step(next));
            assert(uu * (2 * f64_step(next)) == (uu * 2) * f64_step(next)) by (nonlinear_arith);
        }
        u = u * 2;
    }
    assert(f64_step((n / u) as nat) == 1);
    assert(f64_step(n as nat) == u) by (nonlinear_arith)
        requires
            f64_step(n as nat) == u * f64_step((n / u) as nat),
            f64_step((n / u) as nat) == 1,
    ;
    proof {
        lemma_rounded_multiple_bound(n as nat, u as nat);
        assert(n / u <= n) by (nonlinear_arith)
            requires
                u >= 1,
        ;
    }
    let m = round_half_even_u128(n, u) * u;
    let t = round_half_even_u128(10 * m, 1024 * 1024);
    assert(t <= 10 * m) by (nonlinear_arith)
        requires
            t == round_half_even((10 * m) as nat, 1024 * 1024),
    ;
    let mut out = tenths_chars(t as u64);
    extend(&mut out, &to_chars(" MB"));
    from_chars(&out)
}

// ---------------------------------------------------------------------------
// When a message arrived
// ---------------------------------------------------------------------------

/// The moment in the format `fmt`.
pub open spec fn moment_text(t: LocalDateTime, fmt: Seq<char>) -> Seq<char> {
    date_time_text(t.year, t.month, t.day, t.hour, t.minute, fmt)
}

/// How the message list shows the moment `dt` at `now`: the time alone
/// for today, weekday and time within the last week, the day of the month
/// within the year, and the full date otherwise.
pub open spec fn received_text(dt: LocalDateTime, now: LocalDateTime) -> Seq<char> {
    if dt.year == now.year && dt.month == now.month && dt.day == now.day {
        trim(moment_text(dt, "%l:%M %p"@))
    } else if (now.timestamp as int) - (dt.timestamp as int) < 7 * 86400 {
        trim(moment_text(dt, "%a %l:%M %p"@))
    } else if moment_text(dt, "%Y"@) == moment_text(now, "%Y"@) {
        trim(moment_text(dt, "%b %e"@))
    } else {
        trim(moment_text(dt, "%b %e, %Y"@))
    }
}

/// How the message list shows the moment `dt` at `now`, where both are
/// moments of the calendar.
pub fn format_local_timestamp(dt: LocalDateTime, now: LocalDateTime) -> (r: String)
    ensures
        local_ok(dt) && local_ok(now) ==> r@ == received_text(dt, now),
{
    let text = if dt.year == now.year && dt.month == now.month && dt.day == now.day {
        format_date_time(dt, "%l:%M %p")
    } else if (now.timestamp as i128) - (dt.timestamp as i128) < 7 * 86400 {
        format_date_time(dt, "%a %l:%M %p")
    } else {
        let a = format_date_time(dt, "%Y");
        let b = format_date_time(now, "%Y");
        if str_eq(a.as_str(), b.as_str()) {
            format_date_time(dt, "%b %e")
        } else {
            format_date_time(dt, "%b %e, %Y")
        }
    };
    from_chars(&trimmed(text.as_str()))
}

/// `dt` is the local-clock moment that `chrono` makes of the Unix time `ts`.
pub open spec fn read_on_clock(ts: i64, dt: LocalDateTime) -> bool {
    &&& dt.timestamp == (if utc_range(ts) {
        ts
    } else {
        0
    })
    &&& local_range(ts) ==> local_ok(dt)
}

/// `text` shows the moment `dt` at `now` as the message list does, where
/// both are moments of the calendar.
pub open spec fn shown_at(dt: LocalDateTime, now: LocalDateTime, text: Seq<char>) -> bool {
    local_ok(dt) && local_ok(now) ==> text == received_text(dt, now)
}

/// How the message list shows a message received at Unix time `ts` when the
/// clock reads `now`.  Both are read on the local clock, whose time zone no
/// clause can name.
pub fn format_timestamp(ts: i64, now: i64) -> (r: String)
    ensures
        exists|dt: LocalDateTime, n: LocalDateTime|
            read_on_clock(ts, dt) && read_on_clock(now, n) && #[trigger] shown_at(dt, n, r@),
{
    let dt = local_date_time(ts);
    let n = local_date_time(now);
    let r = format_local_timestamp(dt, n);
    assert(shown_at(dt, n, r@));
    r
}

// ---------------------------------------------------------------------------
// Saving and sending mail
// ---------------------------------------------------------------------------

/// The message a reply or forward refers to.
#[derive(Debug, Clone, Default)]
pub struct ThreadingHeaders<'a> {
    pub in_reply_to: Option<&'a str>,
    pub references: Option<&'a str>,
}

/// What the compose form holds.
#[derive(Debug, Clone)]
pub struct EmailContent<'a> {
    pub from_email: &'a str,
    pub to: &'a str,
    pub cc: &'a str,
    pub subject: &'a str,
    pub body_text: &'a str,
    pub threading: &'a ThreadingHeaders<'a>,
}

/// A message to create in the Drafts mailbox, as plain text.
#[derive(Debug, Clone)]
pub struct NewEmail {
    pub mailbox_id: String,
    pub from: EmailAddress,
    pub to: Option<Vec<EmailAddress>>,
    pub cc: Option<Vec<EmailAddress>>,
    pub subject: String,
    pub body_text: String,
    /// Whether it carries the `$draft` keyword.
    pub is_draft: bool,
    pub in_reply_to: Option<Vec<String>>,
    pub references: Option<Vec<String>>,
}

/// The submission of a created message: its envelope, and the mailboxes it
/// moves between once sent.
#[derive(Debug, Clone)]
pub struct Submission {
    pub email_id: String,
    pub mail_from: String,
    pub rcpt_to: Vec<String>,
    /// Left on success.
    pub drafts_id: String,
    /// Entered on success.
    pub sent_id: String,
    /// Entered as well where the sender is among the recipients.
    pub inbox_id: Option<String>,
}

/// The id of the first mailbox with the role.
pub open spec fn role_mailbox(ms: Seq<MailboxInfo>, role: Seq<char>) -> Option<Seq<char>>
    decreases ms.len(),
{
    if ms.len() == 0 {
        None
    } else if ms[0].role@ == role {
        Some(ms[0].id@)
    } else {
        role_mailbox(ms.drop_first(), role)
    }
}

/// The id of the first mailbox with the role, or the error that none has it.
#[verifier::loop_isolation(false)]
pub fn mailbox_id_for_role(mailboxes: &Vec<MailboxInfo>, role: &str) -> (r: Result<String, MissiveError>)
    ensures
        match r {
            Ok(id) => role_mailbox(mailboxes@, role@) == Some(id@),
            Err(e) => role_mailbox(mailboxes@, role@) is None && (e matches MissiveError::Jmap(
                JmapErrorKind::NoMailbox { role: x },
            ) && x@ == role@),
        },
{
    let n = mailboxes.len();
    let mut i: usize = 0;
    assert(mailboxes@.subrange(0, n as int) =~= mailboxes@);
    while i < n
        invariant
            n == mailboxes@.len(),
            i <= n,
            role_mailbox(mailboxes@, role@) == role_mailbox(mailboxes@.subrange(i as int, n as int), role@),
        decreases n - i,
    {
        assert(mailboxes@.subrange(i as int, n as int)[0] == mailboxes@[i as int]);
        if str_eq(mailboxes[i].role.as_str(), role) {
            return Ok(mailboxes[i].id.to_string());
        }
        assert(mailboxes@.subrange(i as int, n as int).drop_first() =~= mailboxes@.subrange(i + 1, n as int));
        i = i + 1;
    }
    Err(MissiveError::Jmap(JmapErrorKind::NoMailbox { role: role.to_owned() }))
}

/// `r` is the address list written in the field `s`.
pub open spec fn address_list_of(r: Seq<EmailAddress>, s: Seq<char>) -> bool {
    &&& r.len() == comma_items(s).len()
    &&& forall|i: int| 0 <= i < r.len() ==> (#[trigger] r[i]).name is None && r[i].email@ == comma_items(s)[i]
}

/// The field's addresses where it has any.
pub open spec fn optional_list_of(r: Option<Vec<EmailAddress>>, s: Seq<char>) -> bool {
    if comma_items(s).len() == 0 {
        r is None
    } else {
        r matches Some(v) && address_list_of(v@, s)
    }
}

/// The message ids of a threading header: its words, where it is given
/// and not empty.
pub open spec fn thread_ids_of(h: Option<&str>) -> Option<Seq<Seq<char>>> {
    match h {
        Some(x) => if x@.len() > 0 {
            Some(words(x@))
        } else {
            None
        },
        None => None,
    }
}

pub open spec fn strings_view(v: Option<Vec<String>>) -> Option<Seq<Seq<char>>> {
    match v {
        Some(x) => Some(x@.map_values(|s: String| s@)),
        None => None,
    }
}

fn thread_ids(h: Option<&str>) -> (r: Option<Vec<String>>)
    ensures
        strings_view(r) == thread_ids_of(h),
{
    match h {
        None => None,
        Some(x) => {
            let v = to_chars(x);
            if v.len() == 0 {
                return None;
            }
            let ws = words_chars(&v);
            let mut out: Vec<String> = Vec::new();
            let mut i: usize = 0;
            while i < ws.len()
                invariant
                    i <= ws@.len(),
                    out@.map_values(|s: String| s@) == views(ws@).take(i as int),
                decreases ws@.len() - i,
            {
                let ghost before = out@;
                out.push(from_chars(&ws[i]));
                assert(out@.map_values(|s: String| s@) =~= before.map_values(|s: String| s@).push(
                    ws@[i as int]@,
                ));
                assert(views(ws@).take(i + 1) =~= views(ws@).take(i as int).push(views(ws@)[i as int]));
                i = i + 1;
            }
            assert(views(ws@).take(ws@.len() as int) =~= views(ws@));
            Some(out)
        },
    }
}

fn optional_list(s: &str) -> (r: Option<Vec<EmailAddress>>)
    ensures
        optional_list_of(r, s@),
{
    let v = parse_address_list(s);
    if v.len() == 0 {
        None
    } else {
        Some(v)
    }
}

/// The message that the form describes, placed in the mailbox `mailbox_id`.
pub open spec fn email_of(c: EmailContent, mailbox_id: Seq<char>, is_draft: bool, e: NewEmail) -> bool {
    &&& e.mailbox_id@ == mailbox_id
    &&& e.from.name is None && e.from.email@ == c.from_email@
    &&& e.subject@ == c.subject@
    &&& e.body_text@ == c.body_text@
    &&& e.is_draft == is_draft
    &&& optional_list_of(e.cc, c.cc@)
    &&& strings_view(e.in_reply_to) == thread_ids_of(c.threading.in_reply_to)
    &&& strings_view(e.references) == thread_ids_of(c.threading.references)
}

fn build_email(c: &EmailContent, mailbox_id: String, is_draft: bool, to: Option<Vec<EmailAddress>>) -> (r: NewEmail)
    ensures
        email_of(*c, mailbox_id@, is_draft, r),
        r.to == to,
{
    NewEmail {
        mailbox_id,
        from: EmailAddress::from(c.from_email),
        to,
        cc: optional_list(c.cc),
        subject: c.subject.to_owned(),
        body_text: c.body_text.to_owned(),
        is_draft,
        in_reply_to: thread_ids(c.threading.in_reply_to),
        references: thread_ids(c.threading.references),
    }
}

/// The draft to save: in the Drafts mailbox, with the `$draft` keyword, its
/// recipients where the form names any.  Fails where no mailbox has the
/// drafts role.
pub fn draft_email(mailboxes: &Vec<MailboxInfo>, content: &EmailContent) -> (r: Result<NewEmail, MissiveError>)
    ensures
        match r {
            Ok(e) => role_mailbox(mailboxes@, "drafts"@) == Some(e.mailbox_id@) && email_of(
                *content,
                e.mailbox_id@,
                true,
                e,
            ) && optional_list_of(e.to, content.to@),
            Err(e) => role_mailbox(mailboxes@, "drafts"@) is None && (e matches MissiveError::Jmap(
                JmapErrorKind::NoMailbox { role: x },
            ) && x@ == "drafts"@),
        },
{
    let drafts = match mailbox_id_for_role(mailboxes, "drafts") {
        Ok(id) => id,
        Err(e) => return Err(e),
    };
    let to = optional_list(content.to);
    Ok(build_email(content, drafts, true, to))
}

/// The recipients of a message to send, or the error that it has none.
pub fn require_recipients(to: &str) -> (r: Result<Vec<EmailAddress>, MissiveError>)
    ensures
        match r {
            Ok(v) => v@.len() > 0 && address_list_of(v@, to@),
            Err(e) => comma_items(to@).len() == 0 && e == MissiveError::Jmap(JmapErrorKind::NoRecipient),
        },
{
    let v = parse_address_list(to);
    if v.len() == 0 {
        Err(MissiveError::Jmap(JmapErrorKind::NoRecipient))
    } else {
        Ok(v)
    }
}

/// The message to send, created first in the Drafts mailbox, with the ids
/// of the Drafts and Sent mailboxes it moves between.  Fails where the form
/// names no recipient, then where no mailbox has the drafts role, then
/// where none has the sent role.
pub fn outgoing_email(mailboxes: &Vec<MailboxInfo>, content: &EmailContent) -> (r: Result<
    (NewEmail, String, String),
    MissiveError,
>)
    ensures
        match r {
            Ok((e, drafts, sent)) => {
                &&& comma_items(content.to@).len() > 0
                &&& role_mailbox(mailboxes@, "drafts"@) == Some(drafts@)
                &&& role_mailbox(mailboxes@, "sent"@) == Some(sent@)
                &&& email_of(*content, drafts@, false, e)
                &&& e.to matches Some(v) && address_list_of(v@, content.to@)
            },
            Err(e) => if comma_items(content.to@).len() == 0 {
                e == MissiveError::Jmap(JmapErrorKind::NoRecipient)
            } else if role_mailbox(mailboxes@, "drafts"@) is None {
                e matches MissiveError::Jmap(JmapErrorKind::NoMailbox { role: x }) && x@ == "drafts"@
            } else {
                role_mailbox(mailboxes@, "sent"@) is None && (e matches MissiveError::Jmap(
                    JmapErrorKind::NoMailbox { role: x },
                ) && x@ == "sent"@)
            },
        },
{
    let to = match require_recipients(content.to) {
        Ok(v) => v,
        Err(e) => return Err(e),
    };
    let drafts = match mailbox_id_for_role(mailboxes, "drafts") {
        Ok(id) => id,
        Err(e) => return Err(e),
    };
    let sent = match mailbox_id_for_role(mailboxes, "sent") {
        Ok(id) => id,
        Err(e) => return Err(e),
    };
    let d2 = drafts.clone();
    Ok((build_email(content, d2, false, Some(to)), drafts, sent))
}

/// The envelope recipients: those of the To field, then those of the Cc field.
pub open spec fn envelope_of(c: EmailContent) -> Seq<Seq<char>> {
    comma_items(c.to@) + comma_items(c.cc@)
}

/// Whether the sender is among the recipients, letters compared without case.
pub open spec fn self_addressed(c: EmailContent) -> bool {
    exists|i: int| 0 <= i < envelope_of(c).len() && eq_ignore_case(#[trigger] envelope_of(c)[i], c.from_email@)
}

/// The submission of the created message `email_id`; where the sender is a
/// recipient the message is filed in the inbox too, which fails where no
/// mailbox has the inbox role.
pub fn submission(
    mailboxes: &Vec<MailboxInfo>,
    content: &EmailContent,
    email_id: &str,
    drafts_id: String,
    sent_id: String,
) -> (r: Result<Submission, MissiveError>)
    ensures
        match r {
            Ok(s) => {
                &&& s.email_id@ == email_id@
                &&& s.mail_from@ == content.from_email@
                &&& s.rcpt_to@.map_values(|x: String| x@) == envelope_of(*content)
                &&& s.drafts_id == drafts_id
                &&& s.sent_id == sent_id
                &&& if self_addressed(*content) {
                    s.inbox_id matches Some(i) && role_mailbox(mailboxes@, "inbox"@) == Some(i@)
                } else {
                    s.inbox_id is None
                }
            },
            Err(e) => self_addressed(*content) && role_mailbox(mailboxes@, "inbox"@) is None && (
            e matches MissiveError::Jmap(JmapErrorKind::NoMailbox { role: x }) && x@ == "inbox"@),
        },
{
    let mut rcpt = parse_recipient_emails(content.to);
    let cc = parse_recipient_emails(content.cc);
    let ghost to_part = rcpt@;
    let mut k: usize = 0;
    while k < cc.len()
        invariant
            k <= cc@.len(),
            to_part.len() == comma_items(content.to@).len(),
            forall|q: int| 0 <= q < to_part.len() ==> (#[trigger] to_part[q])@ == comma_items(content.to@)[q],
            cc@.len() == comma_items(content.cc@).len(),
            forall|q: int| 0 <= q < cc@.len() ==> (#[trigger] cc@[q])@ == comma_items(content.cc@)[q],
            rcpt@.len() == to_part.len() + k,
            forall|q: int| 0 <= q < to_part.len() ==> rcpt@[q] == to_part[q],
            forall|q: int| 0 <= q < k ==> rcpt@[to_part.len() + q] == cc@[q],
        decreases cc@.len() - k,
    {
        rcpt.push(cc[k].clone());
        k = k + 1;
    }
    proof {
        let e = envelope_of(*content);
        let t = comma_items(content.to@);
        let m = rcpt@.map_values(|x: String| x@);
        assert forall|j: int| 0 <= j < rcpt@.len() implies #[trigger] m[j] == e[j] by {
            if j < t.len() {
                assert(rcpt@[j] == to_part[j]);
            } else {
                assert(rcpt@[j] == cc@[j - t.len()]);
            }
        }
        assert(m =~= e);
    }
    let from = to_chars(content.from_email);
    let mut found = false;
    let mut i: usize = 0;
    while i < rcpt.len()
        invariant
            i <= rcpt@.len(),
            from@ == content.from_email@,
            rcpt@.map_values(|x: String| x@) == envelope_of(*content),
            found <==> exists|q: int| 0 <= q < i && eq_ignore_case(#[trigger] envelope_of(*content)[q], from@),
        decreases rcpt@.len() - i,
    {
        assert(envelope_of(*content)[i as int] == rcpt@[i as int]@);
        if chars_eq_ignore_case(&to_chars(rcpt[i].as_str()), &from) {
            found = true;
        }
        i = i + 1;
    }
    let inbox_id = if found {
        match mailbox_id_for_role(mailboxes, "inbox") {
            Ok(id) => Some(id),
            Err(e) => return Err(e),
        }
    } else {
        None
    };
    Ok(
        Submission {
            email_id: email_id.to_owned(),
            mail_from: content.from_email.to_owned(),
            rcpt_to: rcpt,
            drafts_id,
            sent_id,
            inbox_id,
        },
    )
}

// ---------------------------------------------------------------------------
// Messages as the server returns them
// ---------------------------------------------------------------------------

/// A body part or attachment of a message.
#[derive(Debug, Clone)]
pub struct BodyPart {
    pub part_id: Option<String>,
    pub blob_id: Option<String>,
    pub name: Option<String>,
    pub size: usize,
    pub content_id: Option<String>,
}

/// What the mail views and the webhook read of a message that the server
/// returned; `body_values` maps part ids to the decoded text of the parts.
#[derive(Debug, Clone)]
pub struct EmailEntry {
    pub id: Option<String>,
    pub thread_id: Option<String>,
    pub from: Option<Vec<EmailAddress>>,
    pub to: Option<Vec<EmailAddress>>,
    pub cc: Option<Vec<EmailAddress>>,
    pub subject: Option<String>,
    pub received_at: Option<i64>,
    pub preview: Option<String>,
    /// The keywords that are set.
    pub keywords: Vec<String>,
    pub has_attachment: bool,
    pub size: usize,
    pub message_id: Option<Vec<String>>,
    pub references: Option<Vec<String>>,
    pub text_body: Option<Vec<BodyPart>>,
    pub html_body: Option<Vec<BodyPart>>,
    pub attachments: Option<Vec<BodyPart>>,
    pub body_values: Vec<(String, String)>,
}

pub open spec fn opt_vec_view<T>(v: Option<Vec<T>>) -> Option<Seq<T>> {
    match v {
        Some(x) => Some(x@),
        None => None,
    }
}

/// The text of the body part `id`, where the message carries it.
pub open spec fn body_value_of(values: Seq<(String, String)>, id: Seq<char>) -> Option<Seq<char>>
    decreases values.len(),
{
    if values.len() == 0 {
        None
    } else if values[0].0@ == id {
        Some(values[0].1@)
    } else {
        body_value_of(values.drop_first(), id)
    }
}

#[verifier::loop_isolation(false)]
fn body_value(values: &Vec<(String, String)>, id: &str) -> (r: Option<String>)
    ensures
        match r {
            Some(v) => body_value_of(values@, id@) == Some(v@),
            None => body_value_of(values@, id@) is None,
        },
{
    let n = values.len();
    let mut i: usize = 0;
    assert(values@.subrange(0, n as int) =~= values@);
    while i < n
        invariant
            n == values@.len(),
            i <= n,
            body_value_of(values@, id@) == body_value_of(values@.subrange(i as int, n as int), id@),
        decreases n - i,
    {
        assert(values@.subrange(i as int, n as int)[0] == values@[i as int]);
        if str_eq(values[i].0.as_str(), id) {
            return Some(values[i].1.clone());
        }
        assert(values@.subrange(i as int, n as int).drop_first() =~= values@.subrange(i + 1, n as int));
        i = i + 1;
    }
    None
}

/// The text of the first part that has an id and a value.
pub open spec fn first_text_of(parts: Seq<BodyPart>, values: Seq<(String, String)>) -> Option<Seq<char>>
    decreases parts.len(),
{
    if parts.len() == 0 {
        None
    } else {
        match parts[0].part_id {
            Some(pid) => match body_value_of(values, pid@) {
                Some(v) => Some(v),
                None => first_text_of(parts.drop_first(), values),
            },
            None => first_text_of(parts.drop_first(), values),
        }
    }
}

/// The text of the first part that has an id and a value that is not empty.
pub open spec fn first_nonempty_of(parts: Seq<BodyPart>, values: Seq<(String, String)>) -> Option<Seq<char>>
    decreases parts.len(),
{
    if parts.len() == 0 {
        None
    } else {
        match parts[0].part_id {
            Some(pid) => match body_value_of(values, pid@) {
                Some(v) => if v.len() > 0 {
                    Some(v)
                } else {
                    first_nonempty_of(parts.drop_first(), values)
                },
                None => first_nonempty_of(parts.drop_first(), values),
            },
            None => first_nonempty_of(parts.drop_first(), values),
        }
    }
}

#[verifier::loop_isolation(false)]
fn first_part_text(parts: &Vec<BodyPart>, values: &Vec<(String, String)>, skip_empty: bool) -> (r: Option<String>)
    ensures
        match r {
            Some(v) => (if skip_empty {
                first_nonempty_of(parts@, values@)
            } else {
                first_text_of(parts@, values@)
            }) == Some(v@),
            None => (if skip_empty {
                first_nonempty_of(parts@, values@)
            } else {
                first_text_of(parts@, values@)
            }) is None,
        },
{
    let n = parts.len();
    let mut i: usize = 0;
    assert(parts@.subrange(0, n as int) =~= parts@);
    while i < n
        invariant
            n == parts@.len(),
            i <= n,
            !skip_empty ==> first_text_of(parts@, values@) == first_text_of(
                parts@.subrange(i as int, n as int),
                values@,
            ),
            skip_empty ==> first_nonempty_of(parts@, values@) == first_nonempty_of(
                parts@.subrange(i as int, n as int),
                values@,
            ),
        decreases n - i,
    {
        let ghost rest = parts@.subrange(i as int, n as int);
        assert(rest[0] == parts@[i as int]);
        assert(rest.drop_first() =~= parts@.subrange(i + 1, n as int));
        if let Some(pid) = &parts[i].part_id {
            if let Some(v) = body_value(values, pid.as_str()) {
                if !skip_empty || to_chars(v.as_str()).len() > 0 {
                    return Some(v);
                }
            }
        }
        i = i + 1;
    }
    None
}

/// The plain-text body of a message: the first text part the message
/// carries a value for, or nothing.
pub open spec fn text_body_of(e: EmailEntry) -> Option<Seq<char>> {
    match e.text_body {
        Some(ps) => first_text_of(ps@, e.body_values@),
        None => None,
    }
}

/// The plain-text body of a message.
pub fn extract_text_body(e: &EmailEntry) -> (r: Option<String>)
    ensures
        match r {
            Some(v) => text_body_of(*e) == Some(v@),
            None => text_body_of(*e) is None,
        },
{
    match &e.text_body {
        Some(ps) => first_part_text(ps, &e.body_values, false),
        None => None,
    }
}

/// Each content id of an inline part that has a blob, with the blob of the
/// last such part for it, in the order the ids first appear.
pub open spec fn cids_of(parts: Seq<BodyPart>) -> Seq<(Seq<char>, Seq<char>)>
    decreases parts.len(),
{
    if parts.len() == 0 {
        Seq::empty()
    } else {
        let prev = cids_of(parts.drop_last());
        let p = parts.last();
        match (p.content_id, p.blob_id) {
            (Some(c), Some(b)) => put_pair(prev, c@, b@),
            _ => prev,
        }
    }
}

/// `m` with `k` bound to `v`: in place where `k` is there, else at the end.
pub open spec fn put_pair(m: Seq<(Seq<char>, Seq<char>)>, k: Seq<char>, v: Seq<char>) -> Seq<(Seq<char>, Seq<char>)>
    decreases m.len(),
{
    if m.len() == 0 {
        seq![(k, v)]
    } else if m[0].0 == k {
        m.update(0, (k, v))
    } else {
        seq![m[0]] + put_pair(m.drop_first(), k, v)
    }
}

pub open spec fn pair_views(m: Seq<(String, String)>) -> Seq<(Seq<char>, Seq<char>)> {
    m.map_values(|e: (String, String)| (e.0@, e.1@))
}

fn put_pair_vec(m: &mut Vec<(String, String)>, k: String, v: String)
    ensures
        pair_views(final(m)@) == put_pair(pair_views(old(m)@), k@, v@),
{
    let n = m.len();
    let mut i: usize = 0;
    assert(m@.skip(0) =~= m@);
    assert(pair_views(m@.take(0)) =~= Seq::<(Seq<char>, Seq<char>)>::empty());
    while i < n
        invariant
            n == m@.len(),
            i <= n,
            m@ == old(m)@,
            forall|q: int| 0 <= q < i ==> m@[q].0@ != k@,
            put_pair(pair_views(m@), k@, v@) == pair_views(m@.take(i as int)) + put_pair(
                pair_views(m@.skip(i as int)),
                k@,
                v@,
            ),
        decreases n - i,
    {
        let ghost rest = pair_views(m@.skip(i as int));
        assert(rest[0] == (m@[i as int].0@, m@[i as int].1@));
        if str_eq(m[i].0.as_str(), k.as_str()) {
            let ghost before = m@;
            m.set(i, (k, v));
            proof {
                assert(pair_views(m@) =~= pair_views(before.take(i as int)) + rest.update(0, (k@, v@)));
            }
            return;
        }
        proof {
            assert(pair_views(m@.skip(i as int)).drop_first() =~= pair_views(m@.skip(i + 1)));
            assert(pair_views(m@.take(i + 1)) =~= pair_views(m@.take(i as int)) + seq![rest[0]]);
        }
        i = i + 1;
    }
    let ghost before = m@;
    m.push((k, v));
    proof {
        assert(pair_views(before.skip(n as int)) =~= Seq::<(Seq<char>, Seq<char>)>::empty());
        assert(before.take(n as int) =~= before);
        assert(pair_views(m@) =~= pair_views(before) + seq![(k@, v@)]);
    }
}

/// The content ids of a message's inline parts, with their blobs.
pub fn build_cid_map(e: &EmailEntry) -> (r: Vec<(String, String)>)
    ensures
        pair_views(r@) == (match e.attachments {
            Some(ps) => cids_of(ps@),
            None => Seq::empty(),
        }),
{
    let mut out: Vec<(String, String)> = Vec::new();
    match &e.attachments {
        None => {
            assert(pair_views(out@) =~= Seq::<(Seq<char>, Seq<char>)>::empty());
        },
        Some(ps) => {
            let mut i: usize = 0;
            while i < ps.len()
                invariant
                    i <= ps@.len(),
                    pair_views(out@) == cids_of(ps@.take(i as int)),
                decreases ps@.len() - i,
            {
                assert(ps@.take(i + 1).drop_last() =~= ps@.take(i as int));
                assert(ps@.take(i + 1).last() == ps@[i as int]);
                match (&ps[i].content_id, &ps[i].blob_id) {
                    (Some(c), Some(b)) => put_pair_vec(&mut out, c.clone(), b.clone()),
                    _ => {},
                }
                i = i + 1;
            }
            assert(ps@.take(ps@.len() as int) =~= ps@);
        },
    }
    out
}

// ---------------------------------------------------------------------------
// Message views
// ---------------------------------------------------------------------------

pub open spec fn addresses_of(v: Option<Vec<EmailAddress>>) -> Option<Seq<EmailAddress>> {
    opt_vec_view(v)
}

fn as_slice_opt(v: &Option<Vec<EmailAddress>>) -> (r: Option<&[EmailAddress]>)
    ensures
        slice_view(r) == addresses_of(*v),
{
    match v {
        Some(x) => Some(x.as_slice()),
        None => None,
    }
}

/// The subject shown for a message: `(no subject)` where it has none.
pub open spec fn subject_of(e: EmailEntry) -> Seq<char> {
    match e.subject {
        Some(s) => s@,
        None => "(no subject)"@,
    }
}

fn subject_text(e: &EmailEntry) -> (r: String)
    ensures
        r@ == subject_of(*e),
{
    match &e.subject {
        Some(s) => s.clone(),
        None => "(no subject)".to_owned(),
    }
}

/// The message is unread: its `$seen` keyword is not set.
pub open spec fn unread(e: EmailEntry) -> bool {
    !e.keywords@.map_values(|k: String| k@).contains("$seen"@)
}

fn is_unread(e: &EmailEntry) -> (r: bool)
    ensures
        r == unread(*e),
{
    let mut i: usize = 0;
    while i < e.keywords.len()
        invariant
            i <= e.keywords@.len(),
            forall|k: int| 0 <= k < i ==> e.keywords@[k]@ != "$seen"@,
        decreases e.keywords@.len() - i,
    {
        if str_eq(e.keywords[i].as_str(), "$seen") {
            assert(e.keywords@.map_values(|k: String| k@)[i as int] == "$seen"@);
            return false;
        }
        i = i + 1;
    }
    let ghost kv = e.keywords@.map_values(|k: String| k@);
    assert forall|k: int| 0 <= k < kv.len() implies #[trigger] kv[k] != "$seen"@ by {
        assert(kv[k] == e.keywords@[k]@);
    }
    true
}

/// The list entry of a message received at the moment shown as `received_at`.
pub open spec fn summary_view(e: EmailEntry, received_at: Seq<char>, s: EmailSummary) -> bool {
    &&& s.id@ == or_empty(e.id)
    &&& s.from@ == names_text(addresses_of(e.from))
    &&& s.subject@ == subject_of(e)
    &&& s.received_at@ == received_at
    &&& s.preview@ == or_empty(e.preview)
    &&& s.is_unread == unread(e)
    &&& s.has_attachment == e.has_attachment
}

/// The list entry of a message, its arrival already written out.
pub fn email_summary_at(e: &EmailEntry, received_at: String) -> (r: EmailSummary)
    ensures
        summary_view(*e, received_at@, r),
{
    EmailSummary {
        id: EmailId::from_string(crate::text::clone_or_empty(&e.id)),
        from: format_addresses(as_slice_opt(&e.from)),
        subject: subject_text(e),
        received_at,
        preview: crate::text::clone_or_empty(&e.preview),
        is_unread: is_unread(e),
        has_attachment: e.has_attachment,
    }
}

/// When the message arrived, in Unix time; the epoch where the server did
/// not say.
pub open spec fn received_time(e: EmailEntry) -> i64 {
    match e.received_at {
        Some(t) => t,
        None => 0,
    }
}

/// The list entry of a message, its arrival shown as seen at Unix time `now`.
pub fn email_summary(e: &EmailEntry, now: i64) -> (r: EmailSummary)
    ensures
        summary_view(*e, r.received_at@, r),
        exists|dt: LocalDateTime, n: LocalDateTime|
            read_on_clock(received_time(*e), dt) && read_on_clock(now, n) && #[trigger] shown_at(
                dt,
                n,
                r.received_at@,
            ),
{
    let ts = match e.received_at {
        Some(t) => t,
        None => 0,
    };
    let dt = local_date_time(ts);
    let n = local_date_time(now);
    let shown = format_local_timestamp(dt, n);
    let r = email_summary_at(e, shown);
    assert(shown_at(dt, n, r.received_at@));
    r
}

/// An attachment is listed where it is not an inline part and has a blob.
pub open spec fn listed_attachments(ps: Seq<BodyPart>) -> Seq<BodyPart>
    decreases ps.len(),
{
    if ps.len() == 0 {
        Seq::empty()
    } else {
        let prev = listed_attachments(ps.drop_last());
        let p = ps.last();
        if p.content_id is None && p.blob_id is Some {
            prev.push(p)
        } else {
            prev
        }
    }
}

/// How a listed attachment is shown: `attachment` where it has no name.
pub open spec fn attachment_view(p: BodyPart, a: AttachmentInfo) -> bool {
    &&& p.blob_id matches Some(b) && a.blob_id@ == b@
    &&& a.name@ == (match p.name {
        Some(n) => n@,
        None => "attachment"@,
    })
    &&& a.size_display@ == file_size_text(p.size as nat)
}

fn attachment_list(parts: &Option<Vec<BodyPart>>) -> (r: Vec<AttachmentInfo>)
    ensures
        ({
            let listed = match *parts {
                Some(ps) => listed_attachments(ps@),
                None => Seq::empty(),
            };
            &&& r@.len() == listed.len()
            &&& forall|i: int| 0 <= i < r@.len() ==> attachment_view(listed[i], #[trigger] r@[i])
        }),
{
    let mut out: Vec<AttachmentInfo> = Vec::new();
    match parts {
        None => {},
        Some(ps) => {
            let mut i: usize = 0;
            while i < ps.len()
                invariant
                    i <= ps@.len(),
                    out@.len() == listed_attachments(ps@.take(i as int)).len(),
                    forall|k: int|
                        0 <= k < out@.len() ==> attachment_view(
                            listed_attachments(ps@.take(i as int))[k],
                            #[trigger] out@[k],
                        ),
                decreases ps@.len() - i,
            {
                assert(ps@.take(i + 1).drop_last() =~= ps@.take(i as int));
                assert(ps@.take(i + 1).last() == ps@[i as int]);
                let p = &ps[i];
                if p.content_id.is_none() {
                    if let Some(b) = &p.blob_id {
                        let name = match &p.name {
                            Some(n) => n.clone(),
                            None => "attachment".to_owned(),
                        };
                        out.push(
                            AttachmentInfo {
                                blob_id: BlobId::from_string(b.clone()),
                                name,
                                size_display: format_file_size(p.size),
                            },
                        );
                    }
                }
                i = i + 1;
            }
            assert(ps@.take(ps@.len() as int) =~= ps@);
        },
    }
    out
}

/// The HTML body of a message, made safe: the first HTML part with text,
/// with its inline images resolved.
pub open spec fn html_body_of(e: EmailEntry, cids: Seq<(String, String)>) -> Option<Seq<char>> {
    match e.html_body {
        Some(ps) => match first_nonempty_of(ps@, e.body_values@) {
            Some(raw) => Some(safe_email_html(raw, cids)),
            None => None,
        },
        None => None,
    }
}

/// The HTML body of a message, sanitized with its inline images resolved
/// through `cid_map`: the first HTML part whose text is not empty.
pub fn extract_html_body(e: &EmailEntry, cid_map: &Vec<(String, String)>) -> (r: Option<String>)
    ensures
        ov(r) == html_body_of(*e, cid_map@),
{
    match &e.html_body {
        Some(ps) => match first_part_text(ps, &e.body_values, true) {
            Some(raw) => Some(sanitize_email_html(raw.as_str(), cid_map)),
            None => None,
        },
        None => None,
    }
}

pub open spec fn strings_of(v: Option<Vec<String>>) -> Seq<String> {
    match v {
        Some(x) => x@,
        None => Seq::empty(),
    }
}

/// The page view of the message `id`, received at the moment shown as
/// `received_at`.
pub open spec fn detail_view(e: EmailEntry, id: Seq<char>, received_at: Seq<char>, d: EmailDetail) -> bool {
    &&& d.id@ == id
    &&& d.from@ == names_text(addresses_of(e.from))
    &&& d.to@ == names_text(addresses_of(e.to))
    &&& d.cc@ == names_text(addresses_of(e.cc))
    &&& d.subject@ == subject_of(e)
    &&& d.received_at@ == received_at
    &&& d.body_text@ == (match text_body_of(e) {
        Some(t) => t,
        None => Seq::empty(),
    })
    &&& (exists|cids: Seq<(String, String)>|
        pair_views(cids) == (match e.attachments {
            Some(ps) => cids_of(ps@),
            None => Seq::empty(),
        }) && ov(d.body_html) == #[trigger] html_body_of(e, cids))
    &&& ({
        let listed = match e.attachments {
            Some(ps) => listed_attachments(ps@),
            None => Seq::empty(),
        };
        &&& d.attachments@.len() == listed.len()
        &&& forall|i: int| 0 <= i < d.attachments@.len() ==> attachment_view(listed[i], #[trigger] d.attachments@[i])
    })
    &&& d.message_id@ == strings_of(e.message_id)
    &&& d.references@ == strings_of(e.references)
    &&& d.from_email@ == emails_text(addresses_of(e.from))
    &&& d.to_emails@ == emails_text(addresses_of(e.to))
    &&& d.cc_emails@ == emails_text(addresses_of(e.cc))
}

fn strings_or_empty(v: &Option<Vec<String>>) -> (r: Vec<String>)
    ensures
        r@ == strings_of(*v),
{
    match v {
        Some(x) => x.clone(),
        None => Vec::new(),
    }
}

/// The page view of a message, its arrival already written out.
pub fn email_detail_at(e: &EmailEntry, id: &EmailId, received_at: String) -> (r: EmailDetail)
    ensures
        detail_view(*e, id@, received_at@, r),
{
    let body_text = match extract_text_body(e) {
        Some(t) => t,
        None => String::new(),
    };
    let cid_map = build_cid_map(e);
    let body_html = extract_html_body(e, &cid_map);
    EmailDetail {
        id: id.duplicate(),
        from: format_addresses(as_slice_opt(&e.from)),
        to: format_addresses(as_slice_opt(&e.to)),
        cc: format_addresses(as_slice_opt(&e.cc)),
        subject: subject_text(e),
        received_at,
        body_text,
        body_html,
        attachments: attachment_list(&e.attachments),
        message_id: strings_or_empty(&e.message_id),
        references: strings_or_empty(&e.references),
        from_email: format_addresses_raw(as_slice_opt(&e.from)),
        to_emails: format_addresses_raw(as_slice_opt(&e.to)),
        cc_emails: format_addresses_raw(as_slice_opt(&e.cc)),
    }
}

/// The page view of a message, its arrival shown as seen at Unix time `now`.
pub fn email_detail(e: &EmailEntry, id: &EmailId, now: i64) -> (r: EmailDetail)
    ensures
        detail_view(*e, id@, r.received_at@, r),
        exists|dt: LocalDateTime, n: LocalDateTime|
            read_on_clock(received_time(*e), dt) && read_on_clock(now, n) && #[trigger] shown_at(
                dt,
                n,
                r.received_at@,
            ),
{
    let ts = match e.received_at {
        Some(t) => t,
        None => 0,
    };
    let dt = local_date_time(ts);
    let n = local_date_time(now);
    let shown = format_local_timestamp(dt, n);
    let r = email_detail_at(e, id, shown);
    assert(shown_at(dt, n, r.received_at@));
    r
}

} // verus!
