//! Push notifications from the JMAP server: which changes they announce,
//! and what the live-update stream and the webhook do about them.

use vstd::prelude::*;

use crate::error::{JmapErrorKind, MissiveError};

verus! {

/// The JMAP data types a state change can name.
#[derive(Debug, Clone, Copy, PartialEq, Eq, Hash, Structural)]
pub enum DataType {
    Email,
    EmailDelivery,
    EmailSubmission,
    Mailbox,
    Thread,
    Identity,
    Core,
    PushSubscription,
    SearchSnippet,
    VacationResponse,
    Mdn,
    Quota,
    SieveScript,
    Calendar,
    CalendarEvent,
    CalendarEventNotification,
    AddressBook,
    ContactCard,
    FileNode,
    Principal,
    ShareNotification,
    ParticipantIdentity,
    CalendarAlert,
}

/// The new states of one account, by data type.
#[derive(Debug, Clone)]
pub struct AccountChanges {
    pub account_id: String,
    pub changed: Vec<(DataType, String)>,
}

/// A state change: for each account, the data types whose state moved.
#[derive(Debug, Clone)]
pub struct Changes {
    pub accounts: Vec<AccountChanges>,
}

/// A push notification.
#[derive(Debug, Clone)]
pub enum PushNotification {
    StateChange(Changes),
    /// A calendar alert, which announces no change of state.
    CalendarAlert,
}

/// Some account's state of the type moved.
pub open spec fn changes_type(c: Changes, t: DataType) -> bool {
    exists|a: int, k: int|
        0 <= a < c.accounts@.len() && 0 <= k < c.accounts@[a].changed@.len()
            && (#[trigger] c.accounts@[a].changed@[k]).0 == t
}

impl Changes {
    /// Whether some account's state of the type moved.
    pub fn has_type(&self, t: DataType) -> (r: bool)
        ensures
            r == changes_type(*self, t),
    {
        let mut a: usize = 0;
        while a < self.accounts.len()
            invariant
                a <= self.accounts@.len(),
                forall|x: int, k: int|
                    0 <= x < a && 0 <= k < self.accounts@[x].changed@.len() ==> (
                    #[trigger] self.accounts@[x].changed@[k]).0 != t,
            decreases self.accounts@.len() - a,
        {
            let changed = &self.accounts[a].changed;
            let mut k: usize = 0;
            while k < changed.len()
                invariant
                    a < self.accounts@.len(),
                    changed@ == self.accounts@[a as int].changed@,
                    k <= changed@.len(),
                    forall|q: int| 0 <= q < k ==> (#[trigger] changed@[q]).0 != t,
                decreases changed@.len() - k,
            {
                if changed[k].0 == t {
                    assert(self.accounts@[a as int].changed@[k as int].0 == t);
                    return true;
                }
                k = k + 1;
            }
            a = a + 1;
        }
        false
    }
}

/// The notification announces a change of messages.
pub open spec fn announces_mail(n: PushNotification) -> bool {
    match n {
        PushNotification::StateChange(c) => changes_type(c, DataType::Email) || changes_type(
            c,
            DataType::EmailDelivery,
        ),
        _ => false,
    }
}

/// The notification announces a change of mailboxes.
pub open spec fn announces_mailboxes(n: PushNotification) -> bool {
    match n {
        PushNotification::StateChange(c) => changes_type(c, DataType::Mailbox),
        _ => false,
    }
}

/// Whether the notification announces a change of messages.
pub fn classify_email_change(notification: &PushNotification) -> (r: bool)
    ensures
        r == announces_mail(*notification),
{
    match notification {
        PushNotification::StateChange(c) => c.has_type(DataType::Email) || c.has_type(DataType::EmailDelivery),
        _ => false,
    }
}

/// The page events a notification triggers: `emailsUpdated` for a change
/// of messages, then `mailboxesUpdated` for a change of mailboxes.
pub open spec fn page_events(n: PushNotification) -> Seq<Seq<char>> {
    (if announces_mail(n) {
        seq!["emailsUpdated"@]
    } else {
        Seq::empty()
    }) + (if announces_mailboxes(n) {
        seq!["mailboxesUpdated"@]
    } else {
        Seq::empty()
    })
}

pub open spec fn names_view(v: Seq<&str>) -> Seq<Seq<char>> {
    v.map_values(|s: &str| s@)
}

/// The page events a notification triggers.
pub fn classify_push_notification(notification: &PushNotification) -> (r: Vec<&'static str>)
    ensures
        names_view(r@) == page_events(*notification),
{
    let mut events: Vec<&'static str> = Vec::new();
    let mail = classify_email_change(notification);
    let mailboxes = match notification {
        PushNotification::StateChange(c) => c.has_type(DataType::Mailbox),
        _ => false,
    };
    if mail {
        events.push("emailsUpdated");
    }
    if mailboxes {
        events.push("mailboxesUpdated");
    }
    assert(names_view(events@) =~= page_events(*notification));
    events
}

// ---------------------------------------------------------------------------
// The live-update stream
// ---------------------------------------------------------------------------

/// What the bridge from the JMAP event source to the page hears.
#[derive(Debug, Clone)]
pub enum BridgeEvent {
    Notification(PushNotification),
    /// The event source failed.
    StreamError,
    /// The event source ended.
    StreamEnded,
    /// The page went away.
    Shutdown,
}

/// An event sent to the page: its name and its data.
#[derive(Debug, Clone, Copy, PartialEq, Eq)]
pub struct PageEvent {
    pub name: &'static str,
    pub data: &'static str,
}

/// The page event named `name` carrying `data`.
pub open spec fn page_event_is(e: PageEvent, name: Seq<char>, data: Seq<char>) -> bool {
    e.name@ == name && e.data@ == data
}

/// The error a page's live updates end with where the event source cannot
/// be opened: a failed connection to `EventSource`, with the failure's text.
pub fn event_source_error(message: &str) -> (r: MissiveError)
    ensures
        r matches MissiveError::Jmap(JmapErrorKind::ConnectionFailed { url, message: m }) && url@
            == "EventSource"@ && m@ == message@,
{
    MissiveError::Jmap(JmapErrorKind::ConnectionFailed { url: "EventSource".to_owned(), message: message.to_owned() })
}

/// The event the page gets first, once the event source has opened:
/// `connected`, with the data `ok`.
pub fn bridge_opened() -> (r: PageEvent)
    ensures
        page_event_is(r, "connected"@, "ok"@),
{
    PageEvent { name: "connected", data: "ok" }
}

/// What the bridge does about an event.
#[derive(Debug, Clone)]
pub struct BridgeStep {
    /// The page events to send, in order.
    pub broadcasts: Vec<PageEvent>,
    /// Whether to ask the server which messages were created.
    pub check_new_emails: bool,
    /// Whether the bridge stops.
    pub stop: bool,
}

/// A notification is passed on as page events, each with the data
/// `refresh`, and a change of messages leads to a look for new ones;
/// anything else stops the bridge.
pub open spec fn bridge_step_of(e: BridgeEvent, s: BridgeStep) -> bool {
    match e {
        BridgeEvent::Notification(n) => {
            &&& s.broadcasts@.len() == page_events(n).len()
            &&& forall|i: int|
                0 <= i < s.broadcasts@.len() ==> page_event_is(
                    #[trigger] s.broadcasts@[i],
                    page_events(n)[i],
                    "refresh"@,
                )
            &&& s.check_new_emails == announces_mail(n)
            &&& !s.stop
        },
        _ => s.broadcasts@.len() == 0 && !s.check_new_emails && s.stop,
    }
}

pub fn bridge_step(event: &BridgeEvent) -> (r: BridgeStep)
    ensures
        bridge_step_of(*event, r),
{
    match event {
        BridgeEvent::Notification(n) => {
            let names = classify_push_notification(n);
            let mut broadcasts: Vec<PageEvent> = Vec::new();
            let mut i: usize = 0;
            while i < names.len()
                invariant
                    i <= names@.len(),
                    names_view(names@) == page_events(*n),
                    broadcasts@.len() == i,
                    forall|k: int|
                        0 <= k < i ==> page_event_is(#[trigger] broadcasts@[k], page_events(*n)[k], "refresh"@),
                decreases names@.len() - i,
            {
                assert(names_view(names@)[i as int] == names@[i as int]@);
                broadcasts.push(PageEvent { name: names[i], data: "refresh" });
                i = i + 1;
            }
            let check_new_emails = classify_email_change(n);
            BridgeStep { broadcasts, check_new_emails, stop: false }
        },
        _ => BridgeStep { broadcasts: Vec::new(), check_new_emails: false, stop: true },
    }
}

/// After asking for the changes since `since_state`: the state moves to
/// the new one where the server answered, and new messages are announced
/// as `emailReceived` with the data `new`.
pub fn after_email_changes(since_state: String, changes: Option<(usize, String)>) -> (r: (
    String,
    Option<PageEvent>,
))
    ensures
        match changes {
            Some((created, new_state)) => r.0 == new_state && (if created > 0 {
                r.1 matches Some(e) && page_event_is(e, "emailReceived"@, "new"@)
            } else {
                r.1 is None
            }),
            None => r.0 == since_state && r.1 is None,
        },
{
    match changes {
        Some((created, new_state)) => (new_state, if created > 0 {
            Some(PageEvent { name: "emailReceived", data: "new" })
        } else {
            None
        }),
        None => (since_state, None),
    }
}

} // verus!
