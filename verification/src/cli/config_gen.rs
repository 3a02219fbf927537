//! Writing a starter `config.toml`.

use vstd::prelude::*;

use crate::text::{append_str, decimal, decimal_chars, from_chars};

verus! {

/// Where sessions are kept.
#[derive(Debug, Clone, Copy, PartialEq, Eq, Structural)]
pub enum SessionStorageKind {
    /// In memory: lost on restart, one instance only.
    Memory,
    /// In Redis: kept across restarts and shared by instances.
    Redis,
}

impl SessionStorageKind {
    /// The name of the storage, as `Display` prints it.
    pub fn to_string(&self) -> (r: String)
        ensures
            r@ == storage_name(*self),
    {
        match self {
            SessionStorageKind::Memory => "memory".to_owned(),
            SessionStorageKind::Redis => "redis".to_owned(),
        }
    }

    /// The storage a configuration names: `memory` or `redis`, nothing else.
    pub fn from_name(name: &str) -> (r: Option<SessionStorageKind>)
        ensures
            r == storage_named(name@),
    {
        if crate::text::str_eq(name, "memory") {
            Some(SessionStorageKind::Memory)
        } else if crate::text::str_eq(name, "redis") {
            Some(SessionStorageKind::Redis)
        } else {
            None
        }
    }
}

/// The name of a storage kind in a configuration file.
pub open spec fn storage_name(k: SessionStorageKind) -> Seq<char> {
    match k {
        SessionStorageKind::Memory => "memory"@,
        SessionStorageKind::Redis => "redis"@,
    }
}

/// The storage kind a name stands for, if any.
pub open spec fn storage_named(name: Seq<char>) -> Option<SessionStorageKind> {
    if name == storage_name(SessionStorageKind::Memory) {
        Some(SessionStorageKind::Memory)
    } else if name == storage_name(SessionStorageKind::Redis) {
        Some(SessionStorageKind::Redis)
    } else {
        None
    }
}

/// Reading back the name written for a storage kind gives the kind.
pub proof fn lemma_storage_name_round_trip(k: SessionStorageKind)
    ensures
        storage_named(storage_name(k)) == Some(k),
{
    reveal_strlit("memory");
    reveal_strlit("redis");
    assert("memory"@ != "redis"@) by {
        assert("memory"@.len() != "redis"@.len());
    }
}

/// What a generated `config.toml` sets.
#[derive(Debug, Clone)]
pub struct ConfigParams {
    pub jmap_url: String,
    pub service_port: u16,
    pub page_size: usize,
    pub session_storage: SessionStorageKind,
    /// The Redis URL, written where the storage is Redis.
    pub redis_url: Option<String>,
}

/// The text of the configuration file: the JMAP URL and page size at the
/// top, a `[service]` table with the name and port, and for Redis a
/// `[session]` table; lines end with `\n`.
pub open spec fn config_toml(p: ConfigParams) -> Seq<char> {
    let head = "jmap_url = \""@ + p.jmap_url@ + "\"\npage_size = "@ + decimal(p.page_size as nat)
        + "\n\n[service]\nname = \"missive\"\nport = "@ + decimal(p.service_port as nat) + "\n"@;
    match p.session_storage {
        SessionStorageKind::Memory => head,
        SessionStorageKind::Redis => head + "\n[session]\nstorage = \"redis\"\n"@ + match p.redis_url {
            Some(u) => "redis_url = \""@ + u@ + "\"\n"@,
            None => Seq::empty(),
        },
    }
}

/// The text of `config.toml` for the parameters.
pub fn generate_config_toml(params: &ConfigParams) -> (r: String)
    ensures
        r@ == config_toml(*params),
{
    let mut out = String::new();
    append_str(&mut out, "jmap_url = \"");
    append_str(&mut out, params.jmap_url.as_str());
    append_str(&mut out, "\"\npage_size = ");
    append_str(&mut out, from_chars(&decimal_chars(params.page_size as u64)).as_str());
    append_str(&mut out, "\n\n[service]\nname = \"missive\"\nport = ");
    append_str(&mut out, from_chars(&decimal_chars(params.service_port as u64)).as_str());
    append_str(&mut out, "\n");
    match params.session_storage {
        SessionStorageKind::Memory => {},
        SessionStorageKind::Redis => {
            append_str(&mut out, "\n[session]\nstorage = \"redis\"\n");
            match &params.redis_url {
                Some(u) => {
                    append_str(&mut out, "redis_url = \"");
                    append_str(&mut out, u.as_str());
                    append_str(&mut out, "\"\n");
                },
                None => {},
            }
        },
    }
    out
}

/// The parameters of the starter file that `missive config` writes.
pub fn starter_config_params() -> (r: ConfigParams)
    ensures
        r.jmap_url@ == "https://mail.example.com"@,
        r.service_port == 8080,
        r.page_size == 50,
        r.session_storage == SessionStorageKind::Memory,
        r.redis_url is None,
{
    ConfigParams {
        jmap_url: "https://mail.example.com".to_owned(),
        service_port: 8080,
        page_size: 50,
        session_storage: SessionStorageKind::Memory,
        redis_url: None,
    }
}

} // verus!
