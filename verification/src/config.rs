//! The application's own configuration, and the checks `missive serve`
//! makes of it before it starts.

use vstd::prelude::*;

use crate::cli::config_gen::SessionStorageKind;
use crate::cli::error::CliError;
use crate::jmap::{url_problem, JmapUrl};
use crate::text::append_str;

verus! {

/// The number of messages a page lists where the file sets none.
pub fn default_page_size() -> (r: usize)
    ensures
        r == 50,
{
    50
}

/// The seconds between keep-alive pings of the webhook's event source where
/// the file sets none.
pub fn default_ping_interval() -> (r: u32)
    ensures
        r == 60,
{
    60
}

/// The webhook: where it posts, how it signs, and the account it watches.
#[derive(Debug, Clone)]
pub struct WebhookConfig {
    pub url: String,
    pub secret: Option<String>,
    pub jmap_username: String,
    pub jmap_password: String,
    pub include_body: bool,
    pub ping_interval: u32,
}

/// The application's settings.
#[derive(Debug, Clone)]
pub struct MissiveConfig {
    pub jmap_url: JmapUrl,
    pub page_size: usize,
    pub webhook: Option<WebhookConfig>,
}

impl Default for MissiveConfig {
    /// No server, fifty messages a page, no webhook.
    fn default() -> (r: Self)
        ensures
            r.jmap_url@.len() == 0,
            r.page_size == 50,
            r.webhook is None,
    {
        MissiveConfig { jmap_url: JmapUrl::default(), page_size: default_page_size(), webhook: None }
    }
}

/// The server needs a JMAP URL, and an acceptable one, before it starts.
pub fn check_serve_url(url: &JmapUrl) -> (r: Result<(), CliError>)
    ensures
        url@.len() == 0 ==> (r matches Err(e) && (e matches CliError::ConfigInvalid { message }
            && message@ == "JMAP URL is empty; set jmap_url in config.toml or ACTON_JMAP_URL env var"@)),
        url@.len() > 0 ==> match url_problem(url@) {
            None => r is Ok,
            Some(p) => r matches Err(e) && (e matches CliError::ConfigInvalid { message } && message@
                == "JMAP URL: "@ + ("invalid JMAP URL: "@ + p)),
        },
{
    if url.is_empty() {
        return Err(
            CliError::ConfigInvalid {
                message: "JMAP URL is empty; set jmap_url in config.toml or ACTON_JMAP_URL env var".to_owned(),
            },
        );
    }
    match url.validate() {
        Ok(()) => Ok(()),
        Err(e) => {
            let mut message = "JMAP URL: ".to_owned();
            append_str(&mut message, e.to_string().as_str());
            Err(CliError::ConfigInvalid { message })
        },
    }
}

/// Redis sessions need the Redis URL; the URL to use is returned.
pub fn check_session_store(
    storage: SessionStorageKind,
    redis_url: &Option<String>,
) -> (r: Result<Option<String>, CliError>)
    ensures
        match storage {
            SessionStorageKind::Memory => r matches Ok(None),
            SessionStorageKind::Redis => match redis_url {
                Some(u) => r matches Ok(Some(x)) && x@ == u@,
                None => r matches Err(e) && (e matches CliError::ConfigInvalid { message } && message@
                    == "session.redis_url is required when session.storage = \"redis\""@),
            },
        },
{
    match storage {
        SessionStorageKind::Memory => Ok(None),
        SessionStorageKind::Redis => match redis_url {
            Some(u) => Ok(Some(u.clone())),
            None => Err(
                CliError::ConfigInvalid {
                    message: "session.redis_url is required when session.storage = \"redis\"".to_owned(),
                },
            ),
        },
    }
}

/// A configured webhook needs the credentials of the account it watches.
pub fn check_webhook(webhook: &Option<WebhookConfig>) -> (r: Result<(), CliError>)
    ensures
        match webhook {
            None => r is Ok,
            Some(w) => if w.jmap_username@.len() == 0 || w.jmap_password@.len() == 0 {
                r matches Err(e) && (e matches CliError::ConfigInvalid { message } && message@
                    == "webhook.jmap_username and webhook.jmap_password are required (set ACTON_WEBHOOK_JMAP_USERNAME and ACTON_WEBHOOK_JMAP_PASSWORD)"@)
            } else {
                r is Ok
            },
        },
{
    match webhook {
        None => Ok(()),
        Some(w) => {
            if crate::text::to_chars(w.jmap_username.as_str()).len() == 0 || crate::text::to_chars(
                w.jmap_password.as_str(),
            ).len() == 0 {
                Err(
                    CliError::ConfigInvalid {
                        message: "webhook.jmap_username and webhook.jmap_password are required (set ACTON_WEBHOOK_JMAP_USERNAME and ACTON_WEBHOOK_JMAP_PASSWORD)".to_owned(),
                    },
                )
            } else {
                Ok(())
            }
        },
    }
}

} // verus!
