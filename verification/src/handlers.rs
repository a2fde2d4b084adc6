//! What the service does with each request.
//!
//! Each request has two functions: one that is told the time, and says
//! exactly what it answers and changes, and one that reads the clock and asks
//! the first.

use crate::clock::unix_now;
use crate::crypto::spec_did_valid;
use crate::error::ReachError;
use crate::handshake::{
    spec_acceptance, spec_challenge, spec_proof_verdict, HandshakeState, PendingView,
    NONCE_BYTES, SESSION_ID_BYTES,
};
use crate::messages::{
    acceptance_signed, challenge_signed, proof_signed, spec_challenge_hash, Challenge, Hello,
    Proof, ProofAccepted,
};
use crate::registry::{spec_deregister, spec_register, Registry, RegistryMap};
use crate::session::{spec_authorize, AuthenticatedSession, SessionMap, SessionView};
use crate::types::{
    AgentStatus, DeregisterResponse, EntryView, LookupResponse, RegisterRequest,
    RegisterResponse, RegistryEntry,
};
use crate::urls::{spec_url_decode, url_decode};
use vstd::prelude::*;

verus! {

/// The registry and the handshakes of one server.
pub struct AppState {
    pub registry: Registry,
    pub handshake: HandshakeState,
}

impl AppState {
    /// The registry and both tables of the handshake are well formed.
    pub open spec fn wf(&self) -> bool {
        &&& self.registry.wf()
        &&& self.handshake.wf()
    }

    /// A server with a fresh identity and nothing stored.
    pub fn new() -> (s: Self)
        ensures
            s.wf(),
            s.registry@ == RegistryMap::empty(),
            s.handshake.sessions@ == SessionMap::empty(),
    {
        AppState { registry: Registry::new(), handshake: HandshakeState::new() }
    }
}

/// The word that opens the value of an `Authorization` header.
pub open spec fn bearer_prefix() -> Seq<char> {
    seq!['B', 'e', 'a', 'r', 'e', 'r', ' ']
}

/// The token in the value of an `Authorization` header: what follows
/// `Bearer` and one space.
pub open spec fn spec_bearer(header: Seq<char>) -> Option<Seq<char>> {
    if header.len() >= 7 && header.subrange(0, 7) == bearer_prefix() {
        Some(header.subrange(7, header.len() as int))
    } else {
        None
    }
}

/// The session that a request may act under at the time `now`, or the reason
/// for which it may not: `Unauthorized` where the header is missing, does not
/// hold a bearer token, or names no session, `SessionExpired` where the
/// session has aged out.
pub open spec fn spec_session(
    sessions: SessionMap,
    authorization: Option<Seq<char>>,
    now: int,
) -> Result<SessionView, ReachError> {
    match authorization {
        None => Err(ReachError::Unauthorized),
        Some(header) => match spec_bearer(header) {
            None => Err(ReachError::Unauthorized),
            Some(token) => spec_authorize(sessions, token, now),
        },
    }
}

/// The token in the value of an `Authorization` header.
pub fn bearer_token(header: &str) -> (token: Option<String>)
    ensures
        match token {
            Some(t) => spec_bearer(header@) == Some(t@),
            None => spec_bearer(header@) is None,
        },
{
    let n = header.unicode_len();
    if n < 7 {
        return None;
    }
    proof {
        reveal_strlit("Bearer ");
    }
    let opening = header.substring_char(0, 7).to_owned();
    let expected = "Bearer ".to_owned();
    assert(expected@ =~= bearer_prefix());
    if opening == expected {
        Some(header.substring_char(7, n).to_owned())
    } else {
        None
    }
}

/// The view of an optional header value.
pub open spec fn header_view(authorization: Option<&str>) -> Option<Seq<char>> {
    match authorization {
        Some(h) => Some(h@),
        None => None,
    }
}

/// The outcome of asking for a session, with the session by its view.
pub open spec fn session_outcome(r: Result<AuthenticatedSession, ReachError>) -> Result<
    SessionView,
    ReachError,
> {
    match r {
        Ok(s) => Ok(s@),
        Err(e) => Err(e),
    }
}

/// The session that a request with the header `authorization` may act under
/// at the time `now`.
pub fn get_session_at(authorization: Option<&str>, state: &AppState, now: i64) -> (r: Result<
    AuthenticatedSession,
    ReachError,
>)
    requires
        state.wf(),
    ensures
        session_outcome(r) == spec_session(
            state.handshake.sessions@,
            header_view(authorization),
            now as int,
        ),
{
    match authorization {
        None => Err(ReachError::Unauthorized),
        Some(header) => match bearer_token(header) {
            None => Err(ReachError::Unauthorized),
            Some(token) => state.handshake.sessions.authorize(token.as_str(), now),
        },
    }
}

/// The session that a request with the header `authorization` may act under
/// now: what `get_session_at` answers for some reading of the clock. A
/// request without a bearer token, or with a token that names no session, is
/// refused as `Unauthorized` whatever the time.
pub fn get_session(authorization: Option<&str>, state: &AppState) -> (r: Result<
    AuthenticatedSession,
    ReachError,
>)
    requires
        state.wf(),
    ensures
        exists|now: int|
            session_outcome(r) == #[trigger] spec_session(
                state.handshake.sessions@,
                header_view(authorization),
                now,
            ),
{
    let now = unix_now();
    let r = get_session_at(authorization, state, now);
    proof {
        assert(session_outcome(r) == spec_session(
            state.handshake.sessions@,
            header_view(authorization),
            now as int,
        ));
    }
    r
}

/// Answers a greeting with a challenge under a fresh nonce, issued now, and
/// keeps the challenge under its hash until it is answered. A malformed DID
/// is refused as `InvalidDid`; a failure of the random generator or a clock
/// beyond the range of time is reported as `Internal`. Only an issued
/// challenge changes the state, and it changes the waiting challenges alone.
pub fn hello(state: &mut AppState, greeting: &Hello) -> (r: Result<Challenge, ReachError>)
    requires
        old(state).wf(),
    ensures
        final(state).wf(),
        final(state).registry@ == old(state).registry@,
        final(state).handshake.key@ == old(state).handshake.key@,
        final(state).handshake.sessions@ == old(state).handshake.sessions@,
        match r {
            Ok(c) => {
                &&& spec_did_valid(greeting.did@)
                &&& c@ == spec_challenge(
                    old(state).handshake.key@,
                    greeting.did@,
                    c@.nonce,
                    c@.issued_at,
                )
                &&& c@.nonce.len() == 2 * NONCE_BYTES
                &&& challenge_signed(c@)
                &&& final(state).handshake.pending_challenges@
                    == old(state).handshake.pending_challenges@.insert(
                    spec_challenge_hash(c@),
                    PendingView { challenge: c@, audience: greeting.did@ },
                )
            },
            Err(e) => {
                &&& final(state).handshake.pending_challenges@
                    == old(state).handshake.pending_challenges@
                &&& (e == ReachError::InvalidDid || e is Internal)
                &&& spec_did_valid(greeting.did@) <==> e is Internal
            },
        },
{
    state.handshake.hello(greeting)
}

/// Judges a proof now, under a fresh session identifier. The challenge that
/// the proof cites is removed, whatever the outcome, and the registry is not
/// touched. An accepted proof cites the hash of its challenge and is signed
/// by the responder; a session for the responder is then stored, and the
/// acceptance carries the server's signature of the proof. A failure of the
/// random generator is reported as `Internal` and stores no session.
pub fn handle_proof(state: &mut AppState, p: &Proof) -> (r: Result<ProofAccepted, ReachError>)
    requires
        old(state).wf(),
    ensures
        final(state).wf(),
        final(state).registry@ == old(state).registry@,
        final(state).handshake.key@ == old(state).handshake.key@,
        final(state).handshake.pending_challenges@
            == old(state).handshake.pending_challenges@.remove(p.challenge_hash@),
        match r {
            Ok(a) => {
                &&& a@ == spec_acceptance(old(state).handshake.key@, p@, a@.session_id)
                &&& a@.session_id.len() == 2 * SESSION_ID_BYTES
                &&& acceptance_signed(a@, p@, old(state).handshake.key.spec_did())
                &&& old(state).handshake.pending_challenges@.contains_key(p.challenge_hash@)
                &&& spec_challenge_hash(
                    old(state).handshake.pending_challenges@[p.challenge_hash@].challenge,
                ) == p.challenge_hash@
                &&& proof_signed(p@)
                &&& exists|now: int|
                    {
                        &&& spec_proof_verdict(
                            old(state).handshake.pending_challenges@,
                            p@,
                            now,
                        ) is None
                        &&& final(state).handshake.sessions@
                            == old(state).handshake.sessions@.insert(
                            a@.session_id,
                            SessionView { did: p.responder_did@, created_at: now },
                        )
                    }
            },
            Err(e) => {
                &&& final(state).handshake.sessions@ == old(state).handshake.sessions@
                &&& (e is Internal || exists|now: int|
                    spec_proof_verdict(old(state).handshake.pending_challenges@, p@, now)
                        == Some(e))
                &&& !old(state).handshake.pending_challenges@.contains_key(p.challenge_hash@)
                    ==> (e is Internal || e == ReachError::InvalidChallenge)
            },
        },
{
    state.handshake.handle_proof(p)
}

/// What a registration under `session` leaves in the registry and answers:
/// the row of the session's DID, and no other, is written, and lives for
/// `ttl` seconds from `now`. A lifetime that ends beyond the range of time is
/// refused.
pub open spec fn spec_register_entry(
    session: SessionView,
    endpoint: Seq<char>,
    ttl: int,
    now: int,
) -> EntryView {
    EntryView { did: session.did, endpoint, registered_at: now, expires_at: now + ttl }
}

/// The registry after a request to register, made with the header
/// `authorization` at the time `now`.
pub open spec fn spec_registry_after_register(
    registry: RegistryMap,
    sessions: SessionMap,
    authorization: Option<Seq<char>>,
    endpoint: Seq<char>,
    ttl: int,
    now: int,
) -> RegistryMap {
    match spec_session(sessions, authorization, now) {
        Ok(session) => if now + ttl <= i64::MAX {
            spec_register(registry, spec_register_entry(session, endpoint, ttl, now))
        } else {
            registry
        },
        Err(_) => registry,
    }
}

/// Registers the endpoint of `req` for the DID of the session that the
/// request acts under, for `req.ttl` seconds from `now`.
pub fn register_at(
    state: &mut AppState,
    authorization: Option<&str>,
    req: &RegisterRequest,
    now: i64,
) -> (r: Result<RegisterResponse, ReachError>)
    requires
        old(state).wf(),
    ensures
        final(state).wf(),
        final(state).handshake.sessions@ == old(state).handshake.sessions@,
        final(state).handshake.pending_challenges@ == old(state).handshake.pending_challenges@,
        final(state).registry@ == spec_registry_after_register(
            old(state).registry@,
            old(state).handshake.sessions@,
            header_view(authorization),
            req.endpoint@,
            req.ttl as int,
            now as int,
        ),
        register_answered(
            r,
            old(state).handshake.sessions@,
            header_view(authorization),
            req.ttl as int,
            now as int,
        ),
{
    let session = match get_session_at(authorization, &*state, now) {
        Ok(s) => s,
        Err(e) => {
            return Err(e);
        },
    };
    if (now as i128) + (req.ttl as i128) > (i64::MAX as i128) {
        return Err(ReachError::Internal("expiry out of range".to_owned()));
    }
    let entry = RegistryEntry::new(session.did.clone(), req.endpoint.clone(), now, req.ttl);
    let expires_at = entry.expires_at;
    state.registry.register(entry);
    Ok(RegisterResponse { ok: true, did: session.did, expires_at })
}

/// What a request to register answers at the time `now`: the error of the
/// session; else the DID of the session and the time at which the row
/// expires; else `Internal` where that time is beyond the range of time.
pub open spec fn register_answered(
    r: Result<RegisterResponse, ReachError>,
    sessions: SessionMap,
    authorization: Option<Seq<char>>,
    ttl: int,
    now: int,
) -> bool {
    match spec_session(sessions, authorization, now) {
        Err(e) => r == Err::<RegisterResponse, ReachError>(e),
        Ok(session) => if now + ttl <= i64::MAX {
            &&& r matches Ok(answer)
            &&& answer.ok
            &&& answer.did@ == session.did
            &&& answer.expires_at == now + ttl
        } else {
            r matches Err(ReachError::Internal(_))
        },
    }
}

/// Registers the endpoint of `req` now: what `register_at` does and answers
/// for some reading of the clock. A request that is refused changes nothing.
pub fn register(state: &mut AppState, authorization: Option<&str>, req: &RegisterRequest) -> (r:
    Result<RegisterResponse, ReachError>)
    requires
        old(state).wf(),
    ensures
        final(state).wf(),
        final(state).handshake.sessions@ == old(state).handshake.sessions@,
        final(state).handshake.pending_challenges@ == old(state).handshake.pending_challenges@,
        exists|now: int|
            {
                &&& final(state).registry@ == #[trigger] spec_registry_after_register(
                    old(state).registry@,
                    old(state).handshake.sessions@,
                    header_view(authorization),
                    req.endpoint@,
                    req.ttl as int,
                    now,
                )
                &&& register_answered(
                    r,
                    old(state).handshake.sessions@,
                    header_view(authorization),
                    req.ttl as int,
                    now,
                )
            },
        r is Err ==> final(state).registry@ == old(state).registry@,
{
    let now = unix_now();
    let r = register_at(state, authorization, req, now);
    proof {
        let t = now as int;
        assert(final(state).registry@ == spec_registry_after_register(
            old(state).registry@,
            old(state).handshake.sessions@,
            header_view(authorization),
            req.endpoint@,
            req.ttl as int,
            t,
        ) && register_answered(
            r,
            old(state).handshake.sessions@,
            header_view(authorization),
            req.ttl as int,
            t,
        ));
    }
    r
}

/// The answer to a lookup of `did` at the time `now`: the live row of the
/// DID; `Expired` where the row has outlived its lifetime and is still kept;
/// `NotFound` where the registry holds no row for the DID.
pub open spec fn spec_lookup_answer(registry: RegistryMap, did: Seq<char>, now: int) -> Result<
    EntryView,
    ReachError,
> {
    if !registry.contains_key(did) {
        Err(ReachError::NotFound)
    } else if !registry[did].live_at(now) {
        Err(ReachError::Expired)
    } else {
        Ok(registry[did])
    }
}

/// What a lookup of `did` answers at the time `now`: the live row of the
/// DID with the status `Online`, or the error.
pub open spec fn lookup_answered(
    r: Result<LookupResponse, ReachError>,
    registry: RegistryMap,
    did: Seq<char>,
    now: int,
) -> bool {
    match spec_lookup_answer(registry, did, now) {
        Ok(row) => {
            &&& r matches Ok(answer)
            &&& answer.did@ == row.did
            &&& answer.endpoint@ == row.endpoint
            &&& answer.status == AgentStatus::Online
            &&& answer.registered_at == row.registered_at
            &&& answer.expires_at == row.expires_at
        },
        Err(e) => r == Err::<LookupResponse, ReachError>(e),
    }
}

/// Looks up the DID `did` at the time `now`.
pub fn lookup_did_at(state: &AppState, did: &str, now: i64) -> (r: Result<
    LookupResponse,
    ReachError,
>)
    requires
        state.wf(),
    ensures
        lookup_answered(r, state.registry@, did@, now as int),
{
    match state.registry.get(did) {
        None => Err(ReachError::NotFound),
        Some(entry) => {
            let status = entry.status(now);
            match status {
                AgentStatus::Expired => Err(ReachError::Expired),
                AgentStatus::Online => Ok(
                    LookupResponse {
                        did: entry.did,
                        endpoint: entry.endpoint,
                        status,
                        registered_at: entry.registered_at,
                        expires_at: entry.expires_at,
                    },
                ),
            }
        },
    }
}

/// Looks up, at the time `now`, the DID that the path segment `segment`
/// encodes. A segment whose escapes do not resolve to UTF-8 is refused as
/// `InvalidDid`.
pub fn lookup_at(state: &AppState, segment: &str, now: i64) -> (r: Result<
    LookupResponse,
    ReachError,
>)
    requires
        state.wf(),
    ensures
        match spec_url_decode(segment@) {
            None => r == Err::<LookupResponse, ReachError>(ReachError::InvalidDid),
            Some(did) => lookup_answered(r, state.registry@, did, now as int),
        },
{
    match url_decode(segment) {
        None => Err(ReachError::InvalidDid),
        Some(did) => lookup_did_at(state, did.as_str(), now),
    }
}

/// Looks up now the DID that the path segment `segment` encodes: what
/// `lookup_at` answers for some reading of the clock. No session is needed
/// for this, and nothing is changed.
pub fn lookup(state: &AppState, segment: &str) -> (r: Result<LookupResponse, ReachError>)
    requires
        state.wf(),
    ensures
        match spec_url_decode(segment@) {
            None => r == Err::<LookupResponse, ReachError>(ReachError::InvalidDid),
            Some(did) => exists|now: int| #[trigger] lookup_answered(r, state.registry@, did, now),
        },
{
    let now = unix_now();
    let r = lookup_at(state, segment, now);
    proof {
        if spec_url_decode(segment@) is Some {
            let did = spec_url_decode(segment@).unwrap();
            assert(lookup_answered(r, state.registry@, did, now as int));
        }
    }
    r
}

/// The registry after a request to deregister, made with the header
/// `authorization` at the time `now`: the row of the session's DID, and no
/// other, is removed.
pub open spec fn spec_registry_after_deregister(
    registry: RegistryMap,
    sessions: SessionMap,
    authorization: Option<Seq<char>>,
    now: int,
) -> RegistryMap {
    match spec_session(sessions, authorization, now) {
        Ok(session) => spec_deregister(registry, session.did),
        Err(_) => registry,
    }
}

/// What a request to deregister answers at the time `now`: the error of the
/// session, or whether the DID of the session had a row.
pub open spec fn deregister_answered(
    r: Result<DeregisterResponse, ReachError>,
    registry: RegistryMap,
    sessions: SessionMap,
    authorization: Option<Seq<char>>,
    now: int,
) -> bool {
    match spec_session(sessions, authorization, now) {
        Err(e) => r == Err::<DeregisterResponse, ReachError>(e),
        Ok(session) => r matches Ok(answer) && answer.ok == registry.contains_key(session.did),
    }
}

/// Removes the registration of the DID of the session that the request acts
/// under. The answer says whether there was one.
pub fn deregister_at(state: &mut AppState, authorization: Option<&str>, now: i64) -> (r: Result<
    DeregisterResponse,
    ReachError,
>)
    requires
        old(state).wf(),
    ensures
        final(state).wf(),
        final(state).handshake.sessions@ == old(state).handshake.sessions@,
        final(state).handshake.pending_challenges@ == old(state).handshake.pending_challenges@,
        final(state).registry@ == spec_registry_after_deregister(
            old(state).registry@,
            old(state).handshake.sessions@,
            header_view(authorization),
            now as int,
        ),
        deregister_answered(
            r,
            old(state).registry@,
            old(state).handshake.sessions@,
            header_view(authorization),
            now as int,
        ),
{
    let session = match get_session_at(authorization, &*state, now) {
        Ok(s) => s,
        Err(e) => {
            return Err(e);
        },
    };
    let existed = state.registry.deregister(session.did.as_str());
    Ok(DeregisterResponse { ok: existed })
}

/// Removes now the registration of the DID of the session that the request
/// acts under: what `deregister_at` does and answers for some reading of the
/// clock. A request that is refused changes nothing.
pub fn deregister(state: &mut AppState, authorization: Option<&str>) -> (r: Result<
    DeregisterResponse,
    ReachError,
>)
    requires
        old(state).wf(),
    ensures
        final(state).wf(),
        final(state).handshake.sessions@ == old(state).handshake.sessions@,
        final(state).handshake.pending_challenges@ == old(state).handshake.pending_challenges@,
        exists|now: int|
            {
                &&& final(state).registry@ == #[trigger] spec_registry_after_deregister(
                    old(state).registry@,
                    old(state).handshake.sessions@,
                    header_view(authorization),
                    now,
                )
                &&& deregister_answered(
                    r,
                    old(state).registry@,
                    old(state).handshake.sessions@,
                    header_view(authorization),
                    now,
                )
            },
        r is Err ==> final(state).registry@ == old(state).registry@,
{
    let now = unix_now();
    let r = deregister_at(state, authorization, now);
    proof {
        let t = now as int;
        assert(final(state).registry@ == spec_registry_after_deregister(
            old(state).registry@,
            old(state).handshake.sessions@,
            header_view(authorization),
            t,
        ) && deregister_answered(
            r,
            old(state).registry@,
            old(state).handshake.sessions@,
            header_view(authorization),
            t,
        ));
    }
    r
}

/// A session writes only the row of its own DID: whatever a request to
/// register or to deregister is given, the row of every DID other than the
/// one that the session is bound to stays as it was.
pub proof fn law_did_binding(
    registry: RegistryMap,
    sessions: SessionMap,
    authorization: Option<Seq<char>>,
    endpoint: Seq<char>,
    ttl: int,
    now: int,
    other: Seq<char>,
)
    requires
        spec_session(sessions, authorization, now) matches Ok(session) ==> session.did != other,
    ensures
        ({
            let after = spec_registry_after_register(
                registry,
                sessions,
                authorization,
                endpoint,
                ttl,
                now,
            );
            after.contains_key(other) == registry.contains_key(other) && (registry.contains_key(
                other,
            ) ==> after[other] == registry[other])
        }),
        ({
            let after = spec_registry_after_deregister(registry, sessions, authorization, now);
            after.contains_key(other) == registry.contains_key(other) && (registry.contains_key(
                other,
            ) ==> after[other] == registry[other])
        }),
{
}

/// A request that is not authorized changes no row.
pub proof fn law_unauthorized_writes_nothing(
    registry: RegistryMap,
    sessions: SessionMap,
    authorization: Option<Seq<char>>,
    endpoint: Seq<char>,
    ttl: int,
    now: int,
)
    requires
        spec_session(sessions, authorization, now) is Err,
    ensures
        spec_registry_after_register(registry, sessions, authorization, endpoint, ttl, now)
            == registry,
        spec_registry_after_deregister(registry, sessions, authorization, now) == registry,
{
}

/// From the 300th second after a session was made, every request under it
/// is refused as `SessionExpired`; before, the session is honoured.
pub proof fn law_session_window(sessions: SessionMap, token: Seq<char>, now: int)
    requires
        sessions.contains_key(token),
    ensures
        now - sessions[token].created_at >= 300 ==> spec_session(
            sessions,
            Some(bearer_prefix() + token),
            now,
        ) == Err::<SessionView, ReachError>(ReachError::SessionExpired),
        now - sessions[token].created_at < 300 ==> spec_session(
            sessions,
            Some(bearer_prefix() + token),
            now,
        ) == Ok::<SessionView, ReachError>(sessions[token]),
{
    let header = bearer_prefix() + token;
    assert(header.subrange(0, 7) =~= bearer_prefix());
    assert(header.subrange(7, header.len() as int) =~= token);
}

} // verus!
