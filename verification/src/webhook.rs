//! The webhook: what is posted for each new, changed or deleted message,
//! how a post is signed, and how the worker backs off after failures.

use vstd::prelude::*;

use hmac::Mac;
use vstd::string::StringSliceAdditionalSpecFns;

use crate::jmap::{extract_text_body, text_body_of, EmailAddress, EmailEntry, slice_view};
use crate::push::{announces_mail, classify_email_change, PushNotification};
use crate::text::{append_str, ov};
use vstd::arithmetic::power2::{pow2, lemma_pow2, lemma_pow2_pos, lemma_pow2_unfold};

verus! {

// ---------------------------------------------------------------------------
// Payloads
// ---------------------------------------------------------------------------

/// An address in a payload.
#[derive(Debug, Clone)]
pub struct AddressPayload {
    pub name: Option<String>,
    pub email: String,
}

/// What is posted for a new or changed message.
#[derive(Debug, Clone)]
pub struct WebhookPayload {
    pub event: &'static str,
    pub email_id: String,
    pub message_id: Vec<String>,
    pub thread_id: Option<String>,
    pub subject: Option<String>,
    pub from: Vec<AddressPayload>,
    pub to: Vec<AddressPayload>,
    pub cc: Vec<AddressPayload>,
    pub preview: Option<String>,
    pub body_text: Option<String>,
    pub has_attachment: bool,
    pub received_at: Option<i64>,
    pub keywords: Vec<String>,
    pub size: usize,
}

/// What is posted for a deleted message.
#[derive(Debug, Clone)]
pub struct DeletedPayload {
    pub event: &'static str,
    pub email_id: String,
}

/// A post of either kind.
#[derive(Debug, Clone)]
pub enum WebhookEvent<'a> {
    Full(&'a WebhookPayload),
    Deleted(&'a DeletedPayload),
}

/// The payload form of an address.
pub open spec fn address_payload(a: EmailAddress, p: AddressPayload) -> bool {
    ov(p.name) == ov(a.name) && p.email@ == a.email@
}

/// The payload form of each address, in order; none for a missing list.
pub open spec fn addresses_payload(addrs: Option<Seq<EmailAddress>>, ps: Seq<AddressPayload>) -> bool {
    let a = match addrs {
        Some(x) => x,
        None => Seq::empty(),
    };
    &&& ps.len() == a.len()
    &&& forall|i: int| 0 <= i < ps.len() ==> address_payload(a[i], #[trigger] ps[i])
}

pub fn addresses_to_payload(addrs: Option<&[EmailAddress]>) -> (r: Vec<AddressPayload>)
    ensures
        addresses_payload(slice_view(addrs), r@),
{
    let mut out: Vec<AddressPayload> = Vec::new();
    match addrs {
        None => {},
        Some(a) => {
            let mut i: usize = 0;
            while i < a.len()
                invariant
                    i <= a@.len(),
                    out@.len() == i,
                    forall|k: int| 0 <= k < i ==> address_payload(a@[k], #[trigger] out@[k]),
                decreases a@.len() - i,
            {
                let name = match &a[i].name {
                    Some(n) => Some(n.clone()),
                    None => None,
                };
                out.push(AddressPayload { name, email: a[i].email.clone() });
                i = i + 1;
            }
        },
    }
    out
}

fn opt_slice(v: &Option<Vec<EmailAddress>>) -> (r: Option<&[EmailAddress]>)
    ensures
        slice_view(r) == (match *v {
            Some(x) => Some(x@),
            None => None::<Seq<EmailAddress>>,
        }),
{
    match v {
        Some(x) => Some(x.as_slice()),
        None => None,
    }
}

pub open spec fn opt_addresses(v: Option<Vec<EmailAddress>>) -> Option<Seq<EmailAddress>> {
    match v {
        Some(x) => Some(x@),
        None => None,
    }
}

/// The payload of a message for the event: its fields as the server gave
/// them, lists missing on the server empty, the text body only where asked for.
pub open spec fn payload_of(e: EmailEntry, include_body: bool, event: Seq<char>, p: WebhookPayload) -> bool {
    &&& p.event@ == event
    &&& e.id matches Some(id) && p.email_id@ == id@
    &&& p.message_id@ == (match e.message_id {
        Some(m) => m@,
        None => Seq::empty(),
    })
    &&& ov(p.thread_id) == ov(e.thread_id)
    &&& ov(p.subject) == ov(e.subject)
    &&& addresses_payload(opt_addresses(e.from), p.from@)
    &&& addresses_payload(opt_addresses(e.to), p.to@)
    &&& addresses_payload(opt_addresses(e.cc), p.cc@)
    &&& ov(p.preview) == ov(e.preview)
    &&& ov(p.body_text) == (if include_body {
        text_body_of(e)
    } else {
        None
    })
    &&& p.has_attachment == e.has_attachment
    &&& p.received_at == e.received_at
    &&& p.keywords@ == e.keywords@
    &&& p.size == e.size
}

fn clone_opt_string(o: &Option<String>) -> (r: Option<String>)
    ensures
        ov(r) == ov(*o),
{
    match o {
        Some(s) => Some(s.clone()),
        None => None,
    }
}

/// The payload of a message for the event; `None` for a message without an id.
pub fn email_to_webhook_payload(e: &EmailEntry, include_body: bool, event: &'static str) -> (r: Option<
    WebhookPayload,
>)
    ensures
        r is Some <==> e.id is Some,
        r matches Some(p) ==> payload_of(*e, include_body, event@, p),
{
    let email_id = match &e.id {
        Some(id) => id.clone(),
        None => return None,
    };
    let body_text = if include_body {
        extract_text_body(e)
    } else {
        None
    };
    Some(
        WebhookPayload {
            event,
            email_id,
            message_id: match &e.message_id {
                Some(m) => m.clone(),
                None => Vec::new(),
            },
            thread_id: clone_opt_string(&e.thread_id),
            subject: clone_opt_string(&e.subject),
            from: addresses_to_payload(opt_slice(&e.from)),
            to: addresses_to_payload(opt_slice(&e.to)),
            cc: addresses_to_payload(opt_slice(&e.cc)),
            preview: clone_opt_string(&e.preview),
            body_text,
            has_attachment: e.has_attachment,
            received_at: e.received_at,
            keywords: e.keywords.clone(),
            size: e.size,
        },
    )
}

/// The payload of a deleted message.
pub fn deleted_payload(email_id: &str) -> (r: DeletedPayload)
    ensures
        r.event@ == "email.deleted"@,
        r.email_id@ == email_id@,
{
    DeletedPayload { event: "email.deleted", email_id: email_id.to_owned() }
}

/// The properties of a message that the webhook asks for.
#[derive(Debug, Clone, Copy, PartialEq, Eq, Structural)]
pub enum EmailProperty {
    Id,
    ThreadId,
    MailboxIds,
    Keywords,
    Size,
    ReceivedAt,
    MessageId,
    From,
    To,
    Cc,
    Subject,
    Preview,
    HasAttachment,
    TextBody,
    BodyValues,
}

/// The properties the webhook fetches: the envelope and summary of a
/// message, and its text body where the body is included.
pub open spec fn webhook_properties(include_body: bool) -> Seq<EmailProperty> {
    seq![
        EmailProperty::Id,
        EmailProperty::ThreadId,
        EmailProperty::MailboxIds,
        EmailProperty::Keywords,
        EmailProperty::Size,
        EmailProperty::ReceivedAt,
        EmailProperty::MessageId,
        EmailProperty::From,
        EmailProperty::To,
        EmailProperty::Cc,
        EmailProperty::Subject,
        EmailProperty::Preview,
        EmailProperty::HasAttachment,
    ] + if include_body {
        seq![EmailProperty::TextBody, EmailProperty::BodyValues]
    } else {
        Seq::empty()
    }
}

pub fn webhook_email_properties(include_body: bool) -> (r: Vec<EmailProperty>)
    ensures
        r@ == webhook_properties(include_body),
{
    let mut props = vec![
        EmailProperty::Id,
        EmailProperty::ThreadId,
        EmailProperty::MailboxIds,
        EmailProperty::Keywords,
        EmailProperty::Size,
        EmailProperty::ReceivedAt,
        EmailProperty::MessageId,
        EmailProperty::From,
        EmailProperty::To,
        EmailProperty::Cc,
        EmailProperty::Subject,
        EmailProperty::Preview,
        EmailProperty::HasAttachment,
    ];
    if include_body {
        props.push(EmailProperty::TextBody);
        props.push(EmailProperty::BodyValues);
    }
    assert(props@ =~= webhook_properties(include_body));
    props
}

// ---------------------------------------------------------------------------
// Signatures
// ---------------------------------------------------------------------------

/// HMAC-SHA256 of `message` under `key`.
pub uninterp spec fn hmac_sha256(key: Seq<u8>, message: Seq<u8>) -> Seq<u8>;

/// `Hmac::<Sha256>::new_from_slice(key)`, `update(message)`, `finalize()`:
/// the 32-byte MAC.  A key of any length is accepted.
#[verifier::external_body]
fn hmac_sha256_of(key: &[u8], message: &[u8]) -> (r: Vec<u8>)
    ensures
        r@ == hmac_sha256(key@, message@),
        r@.len() == 32,
{
    let mut mac = hmac::Hmac::<sha2::Sha256>::new_from_slice(key).expect("HMAC takes keys of any length");
    mac.update(message);
    mac.finalize().into_bytes().to_vec()
}

/// The lower-case hexadecimal digit of `n` (below 16).
pub open spec fn hex_digit(n: nat) -> char {
    if n < 10 {
        (48 + n) as char
    } else {
        (87 + n) as char
    }
}

/// Bytes in lower-case hexadecimal, two digits each, high digit first.
pub open spec fn hex_of(b: Seq<u8>) -> Seq<char>
    decreases b.len(),
{
    if b.len() == 0 {
        Seq::empty()
    } else {
        hex_of(b.drop_last()) + seq![hex_digit((b.last() / 16) as nat), hex_digit((b.last() % 16) as nat)]
    }
}

/// `hex::encode`: the bytes in lower-case hexadecimal.
#[verifier::external_body]
fn hex_encode(bytes: &[u8]) -> (r: String)
    ensures
        r@ == hex_of(bytes@),
{
    hex::encode(bytes)
}

pub proof fn lemma_hex_len(b: Seq<u8>)
    ensures
        hex_of(b).len() == 2 * b.len(),
    decreases b.len(),
{
    if b.len() > 0 {
        lemma_hex_len(b.drop_last());
    }
}

/// The signature of a body under the secret: `sha256=` and the HMAC-SHA256
/// of the body, keyed with the secret's UTF-8 bytes, in hexadecimal.
pub open spec fn signature_of(body: Seq<u8>, secret: &str) -> Seq<char> {
    "sha256="@ + hex_of(hmac_sha256(secret.spec_bytes(), body))
}

pub fn sign_payload(body: &[u8], secret: &str) -> (r: String)
    ensures
        r@ == signature_of(body@, secret),
        r@.len() == 71,
{
    let mac = hmac_sha256_of(secret.as_bytes(), body);
    let mut out = "sha256=".to_owned();
    append_str(&mut out, hex_encode(mac.as_slice()).as_str());
    proof {
        lemma_hex_len(mac@);
        reveal_strlit("sha256=");
    }
    out
}

/// The header that signs a post: `X-Signature` with the signature of the
/// body, where a secret is configured; none otherwise.
pub fn signature_header(body: &[u8], secret: Option<&str>) -> (r: Option<(&'static str, String)>)
    ensures
        match secret {
            None => r is None,
            Some(k) => r matches Some((name, value)) && name@ == "X-Signature"@ && value@ == signature_of(
                body@,
                k,
            ),
        },
{
    match secret {
        None => None,
        Some(k) => Some(("X-Signature", sign_payload(body, k))),
    }
}

// ---------------------------------------------------------------------------
// The worker
// ---------------------------------------------------------------------------

/// The first wait before reopening the event source, in seconds.
pub fn initial_backoff() -> (r: u64)
    ensures
        r == 1,
{
    1
}

/// The longest wait, in seconds.
pub open spec fn max_backoff() -> u64 {
    60
}

/// The wait after `b` seconds: twice as long, at most a minute.
pub open spec fn doubled_backoff(b: u64) -> u64 {
    if 2 * b <= max_backoff() {
        (2 * b) as u64
    } else {
        max_backoff()
    }
}

pub fn next_backoff(backoff: u64) -> (r: u64)
    requires
        backoff <= u64::MAX / 2,
    ensures
        r == doubled_backoff(backoff),
{
    if backoff * 2 <= 60 {
        backoff * 2
    } else {
        60
    }
}

/// The wait stays between one second and one minute: it starts at one
/// second, a successful open resets it there, and each doubling is capped.
pub proof fn lemma_backoff_bounded(b: u64)
    requires
        1 <= b <= max_backoff(),
    ensures
        1 <= doubled_backoff(b) <= max_backoff(),
        b <= doubled_backoff(b),
{
}

/// The wait after `k` failures in a row since the last successful open.
pub open spec fn backoff_after(k: nat) -> u64
    decreases k,
{
    if k == 0 {
        1
    } else {
        doubled_backoff(backoff_after((k - 1) as nat))
    }
}

/// The waits between attempts to reopen the event source double from one
/// second, and stop growing at one minute: after `k` failures in a row the
/// worker waits `min(2^k, 60)` seconds.
pub proof fn lemma_backoff_sequence(k: nat)
    ensures
        backoff_after(k) == (if pow2(k) <= max_backoff() {
            pow2(k)
        } else {
            max_backoff() as nat
        }),
    decreases k,
{
    lemma_pow2_pos(k);
    if k == 0 {
        assert(pow2(0) == 1) by {
            lemma_pow2(0);
            reveal(vstd::arithmetic::power::pow);
        }
    } else {
        lemma_backoff_sequence((k - 1) as nat);
        lemma_pow2_unfold(k);
        lemma_pow2_pos((k - 1) as nat);
    }
}

/// Whether the worker fetches the changes after a notification: only for
/// changes of messages.
pub fn needs_changes(notification: &PushNotification) -> (r: bool)
    ensures
        r == announces_mail(*notification),
{
    classify_email_change(notification)
}

/// What the webhook worker hears.
#[derive(Debug, Clone)]
pub enum WorkerEvent {
    /// The event source opened.
    Opened,
    /// The event source could not be opened.
    OpenFailed,
    /// A notification arrived on the event source.
    Notification(PushNotification),
    /// The event source failed or ended.
    StreamEnded,
}

/// What the worker does next.
#[derive(Debug, Clone, Copy, PartialEq, Eq)]
pub enum WorkerAction {
    /// Ask the server for the changes since the last state, and post them.
    FetchChanges,
    /// Wait this many seconds, then open the event source again.
    Sleep(u64),
}

/// What the worker does after an event, and the wait it keeps.
#[derive(Debug, Clone)]
pub struct WorkerStep {
    /// The actions to take, in order.
    pub actions: Vec<WorkerAction>,
    /// The wait before the next attempt after a failure.
    pub backoff: u64,
}

/// An open resets the wait to one second; a failed open waits and doubles
/// the wait; a notification of changed messages leads to a fetch; the end
/// of the stream first fetches what was missed, then waits and doubles the
/// wait.
pub open spec fn worker_step_of(backoff: u64, e: WorkerEvent, s: WorkerStep) -> bool {
    match e {
        WorkerEvent::Opened => s.actions@ == Seq::<WorkerAction>::empty() && s.backoff == 1,
        WorkerEvent::OpenFailed => s.actions@ == seq![WorkerAction::Sleep(backoff)] && s.backoff
            == doubled_backoff(backoff),
        WorkerEvent::Notification(n) => s.backoff == backoff && s.actions@ == (if announces_mail(n) {
            seq![WorkerAction::FetchChanges]
        } else {
            Seq::empty()
        }),
        WorkerEvent::StreamEnded => s.actions@ == seq![WorkerAction::FetchChanges, WorkerAction::Sleep(backoff)]
            && s.backoff == doubled_backoff(backoff),
    }
}

pub fn worker_step(backoff: u64, event: &WorkerEvent) -> (r: WorkerStep)
    requires
        backoff <= u64::MAX / 2,
    ensures
        worker_step_of(backoff, *event, r),
{
    let mut actions: Vec<WorkerAction> = Vec::new();
    match event {
        WorkerEvent::Opened => {
            assert(actions@ =~= Seq::<WorkerAction>::empty());
            WorkerStep { actions, backoff: initial_backoff() }
        },
        WorkerEvent::OpenFailed => {
            actions.push(WorkerAction::Sleep(backoff));
            assert(actions@ =~= seq![WorkerAction::Sleep(backoff)]);
            WorkerStep { actions, backoff: next_backoff(backoff) }
        },
        WorkerEvent::Notification(n) => {
            if needs_changes(n) {
                actions.push(WorkerAction::FetchChanges);
                assert(actions@ =~= seq![WorkerAction::FetchChanges]);
            } else {
                assert(actions@ =~= Seq::<WorkerAction>::empty());
            }
            WorkerStep { actions, backoff }
        },
        WorkerEvent::StreamEnded => {
            actions.push(WorkerAction::FetchChanges);
            actions.push(WorkerAction::Sleep(backoff));
            assert(actions@ =~= seq![WorkerAction::FetchChanges, WorkerAction::Sleep(backoff)]);
            WorkerStep { actions, backoff: next_backoff(backoff) }
        },
    }
}

/// What to post after the changes since the last state: the created
/// messages as `email.received`, the updated ones as `email.updated`, and
/// the destroyed ones as `email.deleted`, each group only where not empty.
#[derive(Debug, Clone)]
pub struct ChangePosts {
    pub received: Option<Vec<String>>,
    pub updated: Option<Vec<String>>,
    pub deleted: Option<Vec<String>>,
}

pub open spec fn nonempty_group(v: Vec<String>, g: Option<Vec<String>>) -> bool {
    if v@.len() == 0 {
        g is None
    } else {
        g == Some(v)
    }
}

pub fn plan_change_posts(created: Vec<String>, updated: Vec<String>, destroyed: Vec<String>) -> (r: ChangePosts)
    ensures
        nonempty_group(created, r.received),
        nonempty_group(updated, r.updated),
        nonempty_group(destroyed, r.deleted),
{
    let received = if created.len() == 0 {
        None
    } else {
        Some(created)
    };
    let updated_group = if updated.len() == 0 {
        None
    } else {
        Some(updated)
    };
    let deleted = if destroyed.len() == 0 {
        None
    } else {
        Some(destroyed)
    };
    ChangePosts { received, updated: updated_group, deleted }
}

/// The message of a post the receiver did not accept.
pub fn rejected_post_message(status: u16, body: &str) -> (r: String)
    ensures
        r@ == "webhook POST returned "@ + crate::text::decimal(status as nat) + ": "@ + body@,
{
    let mut out = "webhook POST returned ".to_owned();
    append_str(&mut out, crate::text::from_chars(&crate::text::decimal_chars(status as u64)).as_str());
    append_str(&mut out, ": ");
    append_str(&mut out, body);
    out
}

} // verus!
