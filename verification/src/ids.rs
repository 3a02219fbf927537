//! Typed identifiers of JMAP objects.
//!
//! Each identifier is a string newtype whose view is the string's characters.

use vstd::prelude::*;

verus! {

/// Identifier of a mailbox.
#[derive(Debug, Clone, PartialEq, Eq, Hash)]
pub struct MailboxId(String);

impl View for MailboxId {
    type V = Seq<char>;

    closed spec fn view(&self) -> Seq<char> {
        self.0@
    }
}

impl MailboxId {
    pub fn new(s: &str) -> (r: Self)
        ensures
            r@ == s@,
    {
        MailboxId(s.to_owned())
    }

    pub fn from_string(s: String) -> (r: Self)
        ensures
            r@ == s@,
    {
        MailboxId(s)
    }

    pub fn as_str(&self) -> (r: &str)
        ensures
            r@ == self@,
    {
        self.0.as_str()
    }

    /// The identifier as text, what `Display` prints for it.
    pub fn to_string(&self) -> (r: String)
        ensures
            r@ == self@,
    {
        self.0.clone()
    }

    /// A copy with the same characters.
    pub fn duplicate(&self) -> (r: Self)
        ensures
            r == *self,
    {
        MailboxId(self.0.clone())
    }
}

impl From<&str> for MailboxId {
    fn from(s: &str) -> (r: Self)
        ensures
            r@ == s@,
    {
        MailboxId::new(s)
    }
}

impl vstd::std_specs::convert::FromSpecImpl<&str> for MailboxId {
    open spec fn obeys_from_spec() -> bool {
        false
    }

    open spec fn from_spec(v: &str) -> Self {
        arbitrary()
    }
}

impl From<String> for MailboxId {
    fn from(s: String) -> (r: Self)
        ensures
            r@ == s@,
    {
        MailboxId::from_string(s)
    }
}

impl vstd::std_specs::convert::FromSpecImpl<String> for MailboxId {
    open spec fn obeys_from_spec() -> bool {
        false
    }

    open spec fn from_spec(v: String) -> Self {
        arbitrary()
    }
}

/// Identifier of an email.
#[derive(Debug, Clone, PartialEq, Eq, Hash)]
pub struct EmailId(String);

impl View for EmailId {
    type V = Seq<char>;

    closed spec fn view(&self) -> Seq<char> {
        self.0@
    }
}

impl EmailId {
    pub fn new(s: &str) -> (r: Self)
        ensures
            r@ == s@,
    {
        EmailId(s.to_owned())
    }

    pub fn from_string(s: String) -> (r: Self)
        ensures
            r@ == s@,
    {
        EmailId(s)
    }

    pub fn as_str(&self) -> (r: &str)
        ensures
            r@ == self@,
    {
        self.0.as_str()
    }

    /// The identifier as text, what `Display` prints for it.
    pub fn to_string(&self) -> (r: String)
        ensures
            r@ == self@,
    {
        self.0.clone()
    }

    /// A copy with the same characters.
    pub fn duplicate(&self) -> (r: Self)
        ensures
            r == *self,
    {
        EmailId(self.0.clone())
    }
}

impl From<&str> for EmailId {
    fn from(s: &str) -> (r: Self)
        ensures
            r@ == s@,
    {
        EmailId::new(s)
    }
}

impl vstd::std_specs::convert::FromSpecImpl<&str> for EmailId {
    open spec fn obeys_from_spec() -> bool {
        false
    }

    open spec fn from_spec(v: &str) -> Self {
        arbitrary()
    }
}

impl From<String> for EmailId {
    fn from(s: String) -> (r: Self)
        ensures
            r@ == s@,
    {
        EmailId::from_string(s)
    }
}

impl vstd::std_specs::convert::FromSpecImpl<String> for EmailId {
    open spec fn obeys_from_spec() -> bool {
        false
    }

    open spec fn from_spec(v: String) -> Self {
        arbitrary()
    }
}

/// Identifier of a blob.
#[derive(Debug, Clone, PartialEq, Eq, Hash)]
pub struct BlobId(String);

impl View for BlobId {
    type V = Seq<char>;

    closed spec fn view(&self) -> Seq<char> {
        self.0@
    }
}

impl BlobId {
    pub fn new(s: &str) -> (r: Self)
        ensures
            r@ == s@,
    {
        BlobId(s.to_owned())
    }

    pub fn from_string(s: String) -> (r: Self)
        ensures
            r@ == s@,
    {
        BlobId(s)
    }

    pub fn as_str(&self) -> (r: &str)
        ensures
            r@ == self@,
    {
        self.0.as_str()
    }

    /// The identifier as text, what `Display` prints for it.
    pub fn to_string(&self) -> (r: String)
        ensures
            r@ == self@,
    {
        self.0.clone()
    }

    /// A copy with the same characters.
    pub fn duplicate(&self) -> (r: Self)
        ensures
            r == *self,
    {
        BlobId(self.0.clone())
    }
}

impl From<&str> for BlobId {
    fn from(s: &str) -> (r: Self)
        ensures
            r@ == s@,
    {
        BlobId::new(s)
    }
}

impl vstd::std_specs::convert::FromSpecImpl<&str> for BlobId {
    open spec fn obeys_from_spec() -> bool {
        false
    }

    open spec fn from_spec(v: &str) -> Self {
        arbitrary()
    }
}

impl From<String> for BlobId {
    fn from(s: String) -> (r: Self)
        ensures
            r@ == s@,
    {
        BlobId::from_string(s)
    }
}

impl vstd::std_specs::convert::FromSpecImpl<String> for BlobId {
    open spec fn obeys_from_spec() -> bool {
        false
    }

    open spec fn from_spec(v: String) -> Self {
        arbitrary()
    }
}

/// Identifier of a sending identity.
#[derive(Debug, Clone, PartialEq, Eq, Hash)]
pub struct IdentityId(String);

impl View for IdentityId {
    type V = Seq<char>;

    closed spec fn view(&self) -> Seq<char> {
        self.0@
    }
}

impl IdentityId {
    pub fn new(s: &str) -> (r: Self)
        ensures
            r@ == s@,
    {
        IdentityId(s.to_owned())
    }

    pub fn from_string(s: String) -> (r: Self)
        ensures
            r@ == s@,
    {
        IdentityId(s)
    }

    pub fn as_str(&self) -> (r: &str)
        ensures
            r@ == self@,
    {
        self.0.as_str()
    }

    /// The identifier as text, what `Display` prints for it.
    pub fn to_string(&self) -> (r: String)
        ensures
            r@ == self@,
    {
        self.0.clone()
    }

    /// A copy with the same characters.
    pub fn duplicate(&self) -> (r: Self)
        ensures
            r == *self,
    {
        IdentityId(self.0.clone())
    }
}

impl From<&str> for IdentityId {
    fn from(s: &str) -> (r: Self)
        ensures
            r@ == s@,
    {
        IdentityId::new(s)
    }
}

impl vstd::std_specs::convert::FromSpecImpl<&str> for IdentityId {
    open spec fn obeys_from_spec() -> bool {
        false
    }

    open spec fn from_spec(v: &str) -> Self {
        arbitrary()
    }
}

impl From<String> for IdentityId {
    fn from(s: String) -> (r: Self)
        ensures
            r@ == s@,
    {
        IdentityId::from_string(s)
    }
}

impl vstd::std_specs::convert::FromSpecImpl<String> for IdentityId {
    open spec fn obeys_from_spec() -> bool {
        false
    }

    open spec fn from_spec(v: String) -> Self {
        arbitrary()
    }
}

/// Identifier of a contact card.
#[derive(Debug, Clone, PartialEq, Eq, Hash)]
pub struct ContactId(String);

impl View for ContactId {
    type V = Seq<char>;

    closed spec fn view(&self) -> Seq<char> {
        self.0@
    }
}

impl ContactId {
    pub fn new(s: &str) -> (r: Self)
        ensures
            r@ == s@,
    {
        ContactId(s.to_owned())
    }

    pub fn from_string(s: String) -> (r: Self)
        ensures
            r@ == s@,
    {
        ContactId(s)
    }

    pub fn as_str(&self) -> (r: &str)
        ensures
            r@ == self@,
    {
        self.0.as_str()
    }

    /// The identifier as text, what `Display` prints for it.
    pub fn to_string(&self) -> (r: String)
        ensures
            r@ == self@,
    {
        self.0.clone()
    }

    /// A copy with the same characters.
    pub fn duplicate(&self) -> (r: Self)
        ensures
            r == *self,
    {
        ContactId(self.0.clone())
    }
}

impl From<&str> for ContactId {
    fn from(s: &str) -> (r: Self)
        ensures
            r@ == s@,
    {
        ContactId::new(s)
    }
}

impl vstd::std_specs::convert::FromSpecImpl<&str> for ContactId {
    open spec fn obeys_from_spec() -> bool {
        false
    }

    open spec fn from_spec(v: &str) -> Self {
        arbitrary()
    }
}

impl From<String> for ContactId {
    fn from(s: String) -> (r: Self)
        ensures
            r@ == s@,
    {
        ContactId::from_string(s)
    }
}

impl vstd::std_specs::convert::FromSpecImpl<String> for ContactId {
    open spec fn obeys_from_spec() -> bool {
        false
    }

    open spec fn from_spec(v: String) -> Self {
        arbitrary()
    }
}

/// Identifier of a calendar event.
#[derive(Debug, Clone, PartialEq, Eq, Hash)]
pub struct CalendarEventId(String);

impl View for CalendarEventId {
    type V = Seq<char>;

    closed spec fn view(&self) -> Seq<char> {
        self.0@
    }
}

impl CalendarEventId {
    pub fn new(s: &str) -> (r: Self)
        ensures
            r@ == s@,
    {
        CalendarEventId(s.to_owned())
    }

    pub fn from_string(s: String) -> (r: Self)
        ensures
            r@ == s@,
    {
        CalendarEventId(s)
    }

    pub fn as_str(&self) -> (r: &str)
        ensures
            r@ == self@,
    {
        self.0.as_str()
    }

    /// The identifier as text, what `Display` prints for it.
    pub fn to_string(&self) -> (r: String)
        ensures
            r@ == self@,
    {
        self.0.clone()
    }

    /// A copy with the same characters.
    pub fn duplicate(&self) -> (r: Self)
        ensures
            r == *self,
    {
        CalendarEventId(self.0.clone())
    }
}

impl From<&str> for CalendarEventId {
    fn from(s: &str) -> (r: Self)
        ensures
            r@ == s@,
    {
        CalendarEventId::new(s)
    }
}

impl vstd::std_specs::convert::FromSpecImpl<&str> for CalendarEventId {
    open spec fn obeys_from_spec() -> bool {
        false
    }

    open spec fn from_spec(v: &str) -> Self {
        arbitrary()
    }
}

impl From<String> for CalendarEventId {
    fn from(s: String) -> (r: Self)
        ensures
            r@ == s@,
    {
        CalendarEventId::from_string(s)
    }
}

impl vstd::std_specs::convert::FromSpecImpl<String> for CalendarEventId {
    open spec fn obeys_from_spec() -> bool {
        false
    }

    open spec fn from_spec(v: String) -> Self {
        arbitrary()
    }
}

} // verus!
