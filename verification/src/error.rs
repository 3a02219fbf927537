//! Errors of the JMAP layer and of the web application, with the text and
//! the HTTP answer that each one is shown as.

use vstd::prelude::*;

use crate::text::append_str;

verus! {

/// What went wrong in a JMAP exchange.
#[derive(Debug, Clone, PartialEq, Eq)]
pub enum JmapErrorKind {
    ConnectionFailed { url: String, message: String },
    QueryFailed { method: String, message: String },
    NotFound { resource: String, id: String },
    SubmissionFailed { message: String },
    BlobDownloadFailed { blob_id: String, message: String },
    NoMailbox { role: String },
    NoRecipient,
    Unknown { message: String },
}

/// The message of a JMAP error.
pub open spec fn kind_text(k: JmapErrorKind) -> Seq<char> {
    match k {
        JmapErrorKind::ConnectionFailed { url, message } => "connection to "@ + url@ + " failed: "@
            + message@,
        JmapErrorKind::QueryFailed { method, message } => method@ + " query failed: "@ + message@,
        JmapErrorKind::NotFound { resource, id } => resource@ + " not found: "@ + id@,
        JmapErrorKind::SubmissionFailed { message } => "email submission failed: "@ + message@,
        JmapErrorKind::BlobDownloadFailed { blob_id, message } => "blob download failed for "@
            + blob_id@ + ": "@ + message@,
        JmapErrorKind::NoMailbox { role } => "no "@ + role@ + " mailbox found"@,
        JmapErrorKind::NoRecipient => "at least one recipient required"@,
        JmapErrorKind::Unknown { message } => message@,
    }
}

impl JmapErrorKind {
    /// The message of the error, as `Display` would print it.
    pub fn to_string(&self) -> (r: String)
        ensures
            r@ == kind_text(*self),
    {
        let mut out = String::new();
        match self {
            JmapErrorKind::ConnectionFailed { url, message } => {
                append_str(&mut out, "connection to ");
                append_str(&mut out, url.as_str());
                append_str(&mut out, " failed: ");
                append_str(&mut out, message.as_str());
            },
            JmapErrorKind::QueryFailed { method, message } => {
                append_str(&mut out, method.as_str());
                append_str(&mut out, " query failed: ");
                append_str(&mut out, message.as_str());
            },
            JmapErrorKind::NotFound { resource, id } => {
                append_str(&mut out, resource.as_str());
                append_str(&mut out, " not found: ");
                append_str(&mut out, id.as_str());
            },
            JmapErrorKind::SubmissionFailed { message } => {
                append_str(&mut out, "email submission failed: ");
                append_str(&mut out, message.as_str());
            },
            JmapErrorKind::BlobDownloadFailed { blob_id, message } => {
                append_str(&mut out, "blob download failed for ");
                append_str(&mut out, blob_id.as_str());
                append_str(&mut out, ": ");
                append_str(&mut out, message.as_str());
            },
            JmapErrorKind::NoMailbox { role } => {
                append_str(&mut out, "no ");
                append_str(&mut out, role.as_str());
                append_str(&mut out, " mailbox found");
            },
            JmapErrorKind::NoRecipient => {
                append_str(&mut out, "at least one recipient required");
            },
            JmapErrorKind::Unknown { message } => {
                append_str(&mut out, message.as_str());
            },
        }
        out
    }
}

/// An error of the web application.
#[derive(Debug, Clone, PartialEq, Eq)]
pub enum MissiveError {
    Jmap(JmapErrorKind),
    AuthFailed,
    SessionRequired,
    HttpResponse(String),
}

/// The message of an application error.
pub open spec fn error_text(e: MissiveError) -> Seq<char> {
    match e {
        MissiveError::Jmap(k) => "JMAP error: "@ + kind_text(k),
        MissiveError::AuthFailed => "Authentication failed: invalid credentials"@,
        MissiveError::SessionRequired => "Session required: please log in"@,
        MissiveError::HttpResponse(msg) => "HTTP response error: "@ + msg@,
    }
}

/// The HTTP answer to a request that failed.
#[derive(Debug, Clone, PartialEq, Eq)]
pub struct ErrorResponse {
    /// The status code.
    pub status: u16,
    /// Where a redirect sends the browser.
    pub location: Option<String>,
    /// The HTML body.
    pub body: String,
}

/// The HTML fragment that shows an error message.
pub open spec fn error_html(message: Seq<char>) -> Seq<char> {
    "<div class=\"error\">"@ + message + "</div>"@
}

/// The answer to an error: a bad gateway for a JMAP error, unauthorized for
/// refused credentials, a redirect to the login page where a session is
/// missing, an internal error otherwise.
pub open spec fn response_of(e: MissiveError, r: ErrorResponse) -> bool {
    match e {
        MissiveError::Jmap(k) => r.status == 502 && r.location is None && r.body@ == error_html(
            kind_text(k),
        ),
        MissiveError::AuthFailed => r.status == 401 && r.location is None && r.body@ == error_html(
            "Invalid credentials"@,
        ),
        MissiveError::SessionRequired => r.status == 303 && (r.location matches Some(l) && l@
            == "/login"@) && r.body@.len() == 0,
        MissiveError::HttpResponse(msg) => r.status == 500 && r.location is None && r.body@
            == error_html(msg@),
    }
}

fn error_body(message: &str) -> (r: String)
    ensures
        r@ == error_html(message@),
{
    let mut out = String::new();
    append_str(&mut out, "<div class=\"error\">");
    append_str(&mut out, message);
    append_str(&mut out, "</div>");
    out
}

impl MissiveError {
    /// The message of the error, as `Display` would print it.
    pub fn to_string(&self) -> (r: String)
        ensures
            r@ == error_text(*self),
    {
        match self {
            MissiveError::Jmap(k) => {
                let mut out = String::new();
                append_str(&mut out, "JMAP error: ");
                append_str(&mut out, k.to_string().as_str());
                out
            },
            MissiveError::AuthFailed => "Authentication failed: invalid credentials".to_owned(),
            MissiveError::SessionRequired => "Session required: please log in".to_owned(),
            MissiveError::HttpResponse(msg) => {
                let mut out = String::new();
                append_str(&mut out, "HTTP response error: ");
                append_str(&mut out, msg.as_str());
                out
            },
        }
    }

    /// The HTTP answer that the error is turned into.
    pub fn into_response(self) -> (r: ErrorResponse)
        ensures
            response_of(self, r),
    {
        match self {
            MissiveError::Jmap(k) => ErrorResponse {
                status: 502,
                location: None,
                body: error_body(k.to_string().as_str()),
            },
            MissiveError::AuthFailed => ErrorResponse {
                status: 401,
                location: None,
                body: error_body("Invalid credentials"),
            },
            MissiveError::SessionRequired => ErrorResponse {
                status: 303,
                location: Some("/login".to_owned()),
                body: String::new(),
            },
            MissiveError::HttpResponse(msg) => ErrorResponse {
                status: 500,
                location: None,
                body: error_body(msg.as_str()),
            },
        }
    }
}

} // verus!
