//! Sessions: short-lived bearer tokens, each bound to the DID that
//! authenticated it.
//!
//! A session lives for a fixed time from its creation. Reading a session
//! never extends its life.

use crate::error::ReachError;
use crate::table::Table;
use vstd::prelude::*;

verus! {

/// The lifetime of a session in seconds.
pub const SESSION_LIFETIME: i64 = 300;

/// A session: the DID that completed a handshake, and when.
#[derive(Debug, Clone, PartialEq, Eq)]
pub struct AuthenticatedSession {
    pub did: String,
    pub created_at: i64,
}

/// A session as plain values.
pub struct SessionView {
    pub did: Seq<char>,
    pub created_at: int,
}

impl SessionView {
    /// The session can be used at the time `now`.
    pub open spec fn usable_at(self, now: int) -> bool {
        now - self.created_at < SESSION_LIFETIME
    }
}

impl View for AuthenticatedSession {
    type V = SessionView;

    open spec fn view(&self) -> SessionView {
        SessionView { did: self.did@, created_at: self.created_at as int }
    }
}

impl AuthenticatedSession {
    /// Whether the session can be used at the time `now`.
    pub fn usable_at(&self, now: i64) -> (b: bool)
        ensures
            b == self@.usable_at(now as int),
    {
        (now as i128) - (self.created_at as i128) < (SESSION_LIFETIME as i128)
    }

    /// A copy of this session.
    pub fn duplicate(&self) -> (copy: Self)
        ensures
            copy@ == self@,
    {
        AuthenticatedSession { did: self.did.clone(), created_at: self.created_at }
    }
}

/// The sessions of a store, keyed by session identifier.
pub type SessionMap = Map<Seq<char>, SessionView>;

/// The session that `id` yields at the time `now`: the stored session,
/// provided that it has not aged out.
pub open spec fn spec_get_session(m: SessionMap, id: Seq<char>, now: int) -> Option<SessionView> {
    if m.contains_key(id) && m[id].usable_at(now) {
        Some(m[id])
    } else {
        None
    }
}

/// What presenting `id` at the time `now` yields: the session, or the reason
/// for which it is refused.
pub open spec fn spec_authorize(m: SessionMap, id: Seq<char>, now: int) -> Result<
    SessionView,
    ReachError,
> {
    if !m.contains_key(id) {
        Err(ReachError::Unauthorized)
    } else if !m[id].usable_at(now) {
        Err(ReachError::SessionExpired)
    } else {
        Ok(m[id])
    }
}

/// The sessions of a server.
pub struct SessionStore {
    rows: Table<AuthenticatedSession>,
}

impl SessionStore {
    /// The sessions as a map from session identifier to session.
    pub closed spec fn view(&self) -> SessionMap {
        self.rows@
    }

    /// The store holds at most one session per identifier.
    pub closed spec fn wf(&self) -> bool {
        self.rows.wf()
    }

    /// An empty store.
    pub fn new() -> (s: Self)
        ensures
            s.wf(),
            s@ == SessionMap::empty(),
    {
        SessionStore { rows: Table::new() }
    }

    /// Stores `session` under `session_id`.
    pub fn insert(&mut self, session_id: String, session: AuthenticatedSession)
        requires
            old(self).wf(),
        ensures
            final(self).wf(),
            final(self)@ == old(self)@.insert(session_id@, session@),
    {
        self.rows.insert(session_id, session);
    }

    /// The session stored under `session_id`, unless it has aged out at
    /// `now`. The store is not changed.
    pub fn get(&self, session_id: &str, now: i64) -> (r: Option<AuthenticatedSession>)
        requires
            self.wf(),
        ensures
            match r {
                Some(s) => spec_get_session(self@, session_id@, now as int) == Some(s@),
                None => spec_get_session(self@, session_id@, now as int) is None,
            },
    {
        match self.rows.get(session_id) {
            Some(s) => {
                if s.usable_at(now) {
                    Some(s.duplicate())
                } else {
                    None
                }
            },
            None => None,
        }
    }

    /// The session stored under `session_id`, or the reason for which the
    /// identifier is refused at `now`: `Unauthorized` where no session is
    /// stored under it, `SessionExpired` where the session has aged out.
    pub fn authorize(&self, session_id: &str, now: i64) -> (r: Result<
        AuthenticatedSession,
        ReachError,
    >)
        requires
            self.wf(),
        ensures
            match r {
                Ok(s) => spec_authorize(self@, session_id@, now as int) == Ok::<
                    SessionView,
                    ReachError,
                >(s@),
                Err(e) => spec_authorize(self@, session_id@, now as int) == Err::<
                    SessionView,
                    ReachError,
                >(e),
            },
    {
        match self.rows.get(session_id) {
            Some(s) => {
                if s.usable_at(now) {
                    Ok(s.duplicate())
                } else {
                    Err(ReachError::SessionExpired)
                }
            },
            None => Err(ReachError::Unauthorized),
        }
    }

    /// Removes the session stored under `session_id`. Returns whether there
    /// was one.
    pub fn remove(&mut self, session_id: &str) -> (existed: bool)
        requires
            old(self).wf(),
        ensures
            final(self).wf(),
            final(self)@ == old(self)@.remove(session_id@),
            existed == old(self)@.contains_key(session_id@),
    {
        self.rows.remove(session_id).is_some()
    }
}

/// A session is usable exactly while fewer than 300 seconds have passed since
/// its creation; from then on it is refused as expired. Reading changes
/// nothing, so the answer depends on the time alone.
pub proof fn law_session_lifetime(m: SessionMap, id: Seq<char>, now: int)
    requires
        m.contains_key(id),
    ensures
        now - m[id].created_at < 300 <==> spec_authorize(m, id, now) == Ok::<
            SessionView,
            ReachError,
        >(m[id]),
        now - m[id].created_at >= 300 <==> spec_authorize(m, id, now) == Err::<
            SessionView,
            ReachError,
        >(ReachError::SessionExpired),
        spec_get_session(m, id, now) is Some <==> now - m[id].created_at < 300,
{
}

/// A session that is refused as expired stays refused at every later time.
pub proof fn law_session_expiry_is_final(m: SessionMap, id: Seq<char>, now: int, later: int)
    requires
        now <= later,
        spec_authorize(m, id, now) == Err::<SessionView, ReachError>(ReachError::SessionExpired),
    ensures
        spec_authorize(m, id, later) == Err::<SessionView, ReachError>(
            ReachError::SessionExpired,
        ),
{
}

} // verus!
