//! The bodies of the registry's requests and responses, and the registry row.

use vstd::prelude::*;

verus! {

/// The lifetime of a registration whose request names none, in seconds.
pub const DEFAULT_TTL: u64 = 3600;

/// The lifetime given to a registration that does not ask for one.
pub fn default_ttl() -> (ttl: u64)
    ensures
        ttl == DEFAULT_TTL,
{
    DEFAULT_TTL
}

/// A request to publish an endpoint, sent under a session.
#[derive(Debug, Clone, PartialEq, Eq)]
pub struct RegisterRequest {
    /// Where the agent can be reached; any URI.
    pub endpoint: String,
    /// The lifetime of the registration in seconds.
    pub ttl: u64,
}

impl RegisterRequest {
    /// A request for `endpoint` with the lifetime `ttl`, or with the default
    /// lifetime where none is given.
    pub fn new(endpoint: String, ttl: Option<u64>) -> (req: Self)
        ensures
            req.endpoint == endpoint,
            req.ttl == match ttl {
                Some(t) => t,
                None => DEFAULT_TTL,
            },
    {
        let ttl = match ttl {
            Some(t) => t,
            None => default_ttl(),
        };
        RegisterRequest { endpoint, ttl }
    }
}

/// The answer to a registration.
#[derive(Debug, Clone, PartialEq, Eq)]
pub struct RegisterResponse {
    pub ok: bool,
    pub did: String,
    pub expires_at: i64,
}

/// Whether a registered agent can be reached.
#[derive(Debug, Clone, Copy, PartialEq, Eq, Structural)]
pub enum AgentStatus {
    /// The registration is live.
    Online,
    /// The registration has outlived its lifetime.
    Expired,
}

impl AgentStatus {
    /// The word that stands for this status on the wire.
    pub fn as_str(&self) -> (s: &'static str)
        ensures
            s@ == match *self {
                AgentStatus::Online => "online"@,
                AgentStatus::Expired => "expired"@,
            },
    {
        match self {
            AgentStatus::Online => "online",
            AgentStatus::Expired => "expired",
        }
    }
}

/// The answer to a lookup.
#[derive(Debug, Clone, PartialEq, Eq)]
pub struct LookupResponse {
    pub did: String,
    pub endpoint: String,
    pub status: AgentStatus,
    pub registered_at: i64,
    pub expires_at: i64,
}

/// The answer to a deregistration.
#[derive(Debug, Clone, PartialEq, Eq)]
pub struct DeregisterResponse {
    pub ok: bool,
}

/// A row of the registry: the endpoint of one DID and its lifetime.
#[derive(Debug, Clone, PartialEq, Eq)]
pub struct RegistryEntry {
    pub did: String,
    pub endpoint: String,
    pub registered_at: i64,
    pub expires_at: i64,
}

/// A registry row as plain values.
pub struct EntryView {
    pub did: Seq<char>,
    pub endpoint: Seq<char>,
    pub registered_at: int,
    pub expires_at: int,
}

impl EntryView {
    /// The row can still be returned at the time `now`.
    pub open spec fn live_at(self, now: int) -> bool {
        now < self.expires_at
    }
}

impl View for RegistryEntry {
    type V = EntryView;

    open spec fn view(&self) -> EntryView {
        EntryView {
            did: self.did@,
            endpoint: self.endpoint@,
            registered_at: self.registered_at as int,
            expires_at: self.expires_at as int,
        }
    }
}

impl RegistryEntry {
    /// The row for `did` registered at `now` for `ttl` seconds.
    pub fn new(did: String, endpoint: String, now: i64, ttl: u64) -> (entry: Self)
        requires
            now + ttl <= i64::MAX,
        ensures
            entry@ == (EntryView {
                did: did@,
                endpoint: endpoint@,
                registered_at: now as int,
                expires_at: now + ttl,
            }),
    {
        let expires_at = ((now as i128) + (ttl as i128)) as i64;
        RegistryEntry { did, endpoint, registered_at: now, expires_at }
    }

    /// Whether the row is live or expired at the time `now`.
    pub fn status(&self, now: i64) -> (s: AgentStatus)
        ensures
            s == if self@.live_at(now as int) {
                AgentStatus::Online
            } else {
                AgentStatus::Expired
            },
    {
        if now < self.expires_at {
            AgentStatus::Online
        } else {
            AgentStatus::Expired
        }
    }

    /// A copy of this row.
    pub fn duplicate(&self) -> (copy: Self)
        ensures
            copy@ == self@,
    {
        RegistryEntry {
            did: self.did.clone(),
            endpoint: self.endpoint.clone(),
            registered_at: self.registered_at,
            expires_at: self.expires_at,
        }
    }
}

} // verus!
