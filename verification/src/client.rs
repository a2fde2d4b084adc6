//! The caller's side of the handshake.
//!
//! The client is a state machine: it is told what happened and answers with
//! what to do next. Sending and receiving is left to the program around it.

use crate::crypto::{spec_key_did, spec_sign_hex, verify_signature, IdentityKey};
use crate::handlers::{bearer_prefix, spec_bearer};
use crate::messages::{
    acceptance_signed, proof_message, proof_signed, spec_challenge_hash, Challenge,
    ChallengeView, Hello, Proof, ProofAccepted, ProofView,
};
use crate::urls::{spec_url_encode, url_encode};
use vstd::prelude::*;

verus! {

/// The proof by which the holder of `secret` answers the challenge `c` at
/// the time `now`: it cites the hash of the challenge, echoes its issuer and
/// carries the responder's signature of its own canonical text.
pub open spec fn spec_signed_proof(secret: Seq<u8>, c: ChallengeView, now: int) -> ProofView {
    let unsigned = ProofView {
        responder_did: spec_key_did(secret),
        challenge_hash: spec_challenge_hash(c),
        issuer: c.issuer,
        signed_at: now,
        responder_signature: Seq::empty(),
    };
    ProofView { responder_signature: spec_sign_hex(secret, proof_message(unsigned)), ..unsigned }
}

/// Answers a challenge: the proof cites the SHA-256 hash of the canonical
/// challenge and is signed by `key`. Its signature verifies under the DID of
/// `key`.
pub fn sign_proof(challenge: &Challenge, key: &IdentityKey, now: i64) -> (p: Proof)
    ensures
        p@ == spec_signed_proof(key@, challenge@, now as int),
        p@.challenge_hash == spec_challenge_hash(challenge@),
        p@.responder_did == key.spec_did(),
        proof_signed(p@),
{
    let mut p = Proof {
        responder_did: key.did(),
        challenge_hash: challenge.hash(),
        issuer: challenge.issuer.clone(),
        signed_at: now,
        responder_signature: String::new(),
    };
    let text = p.canonical();
    let signature = key.sign(text.as_str().as_bytes());
    let ghost unsigned = p@;
    p.responder_signature = signature;
    proof {
        assert(proof_message(p@) == proof_message(unsigned));
    }
    p
}

/// Whether an acceptance can be trusted: it names the server `server_did`
/// and the responder of `p`, and its counter-signature is the server's
/// signature of `p`.
pub fn verify_acceptance(accepted: &ProofAccepted, p: &Proof, server_did: &str) -> (valid: bool)
    ensures
        valid == acceptance_signed(accepted@, p@, server_did@),
{
    let issuer = server_did.to_owned();
    if accepted.issuer_did != issuer {
        return false;
    }
    if accepted.responder_did != p.responder_did {
        return false;
    }
    let text = p.canonical();
    verify_signature(server_did, text.as_str().as_bytes(), accepted.counter_signature.as_str())
}

/// The value of the `Authorization` header that presents `session`.
pub fn authorization_header(session: &str) -> (header: String)
    ensures
        header@ == bearer_prefix() + session@,
        spec_bearer(header@) == Some(session@),
{
    proof {
        reveal_strlit("Bearer ");
    }
    let mut header = "Bearer ".to_owned();
    header.append(session);
    proof {
        assert(header@ =~= bearer_prefix() + session@);
        assert(header@.subrange(0, 7) =~= bearer_prefix());
        assert(header@.subrange(7, header@.len() as int) =~= session@);
    }
    header
}

/// What the server's answer to a request means for the client.
#[derive(Debug, Clone, Copy, PartialEq, Eq, Structural)]
pub enum ResponseClass {
    /// The request was served.
    Success,
    /// The session is unknown or has expired: the handshake must be redone.
    Reauthenticate,
    /// The request itself is at fault; sending it again will not help.
    Terminal,
    /// The server failed; the request may be sent again later.
    Retryable,
}

/// How a status is read: 2xx is success; 5xx can be tried again; 401 on a
/// request made under a session asks for a new handshake; every other
/// status, and 401 during the handshake itself, is final.
pub open spec fn spec_classify(status: int, under_session: bool) -> ResponseClass {
    if 200 <= status < 300 {
        ResponseClass::Success
    } else if 500 <= status < 600 {
        ResponseClass::Retryable
    } else if status == 401 && under_session {
        ResponseClass::Reauthenticate
    } else {
        ResponseClass::Terminal
    }
}

/// Reads the status of a response. `under_session` says whether the request
/// carried a bearer token.
pub fn classify_status(status: u16, under_session: bool) -> (class: ResponseClass)
    ensures
        class == spec_classify(status as int, under_session),
{
    if status >= 200 && status < 300 {
        ResponseClass::Success
    } else if status >= 500 && status < 600 {
        ResponseClass::Retryable
    } else if status == 401 && under_session {
        ResponseClass::Reauthenticate
    } else {
        ResponseClass::Terminal
    }
}

/// Where the client stands in the handshake.
pub enum ClientState {
    /// Nothing is under way.
    Idle,
    /// The greeting is sent; the challenge is awaited.
    AwaitChallenge,
    /// The challenge is here; the proof is signed and must be sent.
    Proving(Proof),
    /// The proof is sent; the server's verdict is awaited.
    AwaitAccept(Proof),
    /// The handshake is done; requests go under this session.
    Authenticated(String),
}

/// A state of the client as plain values.
pub enum ClientStateView {
    Idle,
    AwaitChallenge,
    Proving(ProofView),
    AwaitAccept(ProofView),
    Authenticated(Seq<char>),
}

impl View for ClientState {
    type V = ClientStateView;

    open spec fn view(&self) -> ClientStateView {
        match self {
            ClientState::Idle => ClientStateView::Idle,
            ClientState::AwaitChallenge => ClientStateView::AwaitChallenge,
            ClientState::Proving(p) => ClientStateView::Proving(p@),
            ClientState::AwaitAccept(p) => ClientStateView::AwaitAccept(p@),
            ClientState::Authenticated(s) => ClientStateView::Authenticated(s@),
        }
    }
}

/// What the client is told.
pub enum ClientEvent {
    /// The handshake is to begin.
    Start,
    /// The server has answered the greeting with a challenge.
    ChallengeReceived(Challenge),
    /// The proof has left.
    ProofSent,
    /// The server has accepted the proof.
    AcceptReceived(ProofAccepted),
    /// A request under the session was served.
    RequestServed,
    /// The server refused the session as unknown or expired.
    SessionRefused,
    /// The transport failed, or the server answered with an error.
    Failed,
}

/// What the client asks the program around it to do.
pub enum ClientAction {
    /// Send this greeting.
    SendHello(Hello),
    /// Send this proof.
    SendProof(Proof),
    /// Wait for the server.
    Wait,
    /// The session can be used.
    Ready,
    /// Give up: the handshake has failed and the client is idle again.
    Abort,
}

/// What the client does next, as plain values.
pub enum ClientActionView {
    SendHello(Seq<char>),
    SendProof(ProofView),
    Wait,
    Ready,
    Abort,
}

impl View for ClientAction {
    type V = ClientActionView;

    open spec fn view(&self) -> ClientActionView {
        match self {
            ClientAction::SendHello(h) => ClientActionView::SendHello(h.did@),
            ClientAction::SendProof(p) => ClientActionView::SendProof(p@),
            ClientAction::Wait => ClientActionView::Wait,
            ClientAction::Ready => ClientActionView::Ready,
            ClientAction::Abort => ClientActionView::Abort,
        }
    }
}

/// An event as plain values.
pub enum ClientEventView {
    Start,
    ChallengeReceived(ChallengeView),
    ProofSent,
    AcceptReceived(crate::messages::AcceptedView),
    RequestServed,
    SessionRefused,
    Failed,
}

impl View for ClientEvent {
    type V = ClientEventView;

    open spec fn view(&self) -> ClientEventView {
        match self {
            ClientEvent::Start => ClientEventView::Start,
            ClientEvent::ChallengeReceived(c) => ClientEventView::ChallengeReceived(c@),
            ClientEvent::ProofSent => ClientEventView::ProofSent,
            ClientEvent::AcceptReceived(a) => ClientEventView::AcceptReceived(a@),
            ClientEvent::RequestServed => ClientEventView::RequestServed,
            ClientEvent::SessionRefused => ClientEventView::SessionRefused,
            ClientEvent::Failed => ClientEventView::Failed,
        }
    }
}

/// The state that follows `state` on `event`, and the action that goes with
/// it, for the client that holds `secret`, at the time `now`. An event that
/// the state does not await is a protocol error: the client aborts and is
/// idle again.
pub open spec fn spec_step(
    secret: Seq<u8>,
    state: ClientStateView,
    event: ClientEventView,
    now: int,
) -> (ClientStateView, ClientActionView) {
    match (state, event) {
        (ClientStateView::Idle, ClientEventView::Start) => (
            ClientStateView::AwaitChallenge,
            ClientActionView::SendHello(spec_key_did(secret)),
        ),
        (ClientStateView::AwaitChallenge, ClientEventView::ChallengeReceived(c)) => {
            let p = spec_signed_proof(secret, c, now);
            (ClientStateView::Proving(p), ClientActionView::SendProof(p))
        },
        (ClientStateView::Proving(p), ClientEventView::ProofSent) => (
            ClientStateView::AwaitAccept(p),
            ClientActionView::Wait,
        ),
        (ClientStateView::AwaitAccept(p), ClientEventView::AcceptReceived(a)) => {
            if acceptance_signed(a, p, p.issuer) {
                (ClientStateView::Authenticated(a.session_id), ClientActionView::Ready)
            } else {
                (ClientStateView::Idle, ClientActionView::Abort)
            }
        },
        (ClientStateView::Authenticated(s), ClientEventView::RequestServed) => (
            ClientStateView::Authenticated(s),
            ClientActionView::Ready,
        ),
        _ => (ClientStateView::Idle, ClientActionView::Abort),
    }
}

/// The client of one server, for one DID.
pub struct HandshakeClient {
    key: IdentityKey,
    state: ClientState,
}

impl HandshakeClient {
    /// The secret of the client's key.
    pub closed spec fn secret(&self) -> Seq<u8> {
        self.key@
    }

    /// The state of the client.
    pub closed spec fn state(&self) -> ClientStateView {
        self.state@
    }

    /// An idle client that acts for the holder of `key`.
    pub fn new(key: IdentityKey) -> (c: Self)
        ensures
            c.secret() == key@,
            c.state() == ClientStateView::Idle,
    {
        HandshakeClient { key, state: ClientState::Idle }
    }

    /// The session, where the handshake is done.
    pub fn session(&self) -> (s: Option<String>)
        ensures
            match s {
                Some(id) => self.state() == ClientStateView::Authenticated(id@),
                None => !(self.state() is Authenticated),
            },
    {
        match &self.state {
            ClientState::Authenticated(id) => Some(id.clone()),
            _ => None,
        }
    }

    /// Takes the client from its state to the next on `event`, at the time
    /// `now`, and returns what is to be done.
    pub fn step(&mut self, event: ClientEvent, now: i64) -> (action: ClientAction)
        ensures
            final(self).secret() == old(self).secret(),
            (final(self).state(), action@) == spec_step(
                old(self).secret(),
                old(self).state(),
                event@,
                now as int,
            ),
    {
        let mut next = ClientState::Idle;
        let mut action = ClientAction::Abort;
        match (&self.state, event) {
            (ClientState::Idle, ClientEvent::Start) => {
                next = ClientState::AwaitChallenge;
                action = ClientAction::SendHello(Hello::new(self.key.did()));
            },
            (ClientState::AwaitChallenge, ClientEvent::ChallengeReceived(c)) => {
                let p = sign_proof(&c, &self.key, now);
                let copy = Proof {
                    responder_did: p.responder_did.clone(),
                    challenge_hash: p.challenge_hash.clone(),
                    issuer: p.issuer.clone(),
                    signed_at: p.signed_at,
                    responder_signature: p.responder_signature.clone(),
                };
                next = ClientState::Proving(copy);
                action = ClientAction::SendProof(p);
            },
            (ClientState::Proving(p), ClientEvent::ProofSent) => {
                next =
                ClientState::AwaitAccept(
                    Proof {
                        responder_did: p.responder_did.clone(),
                        challenge_hash: p.challenge_hash.clone(),
                        issuer: p.issuer.clone(),
                        signed_at: p.signed_at,
                        responder_signature: p.responder_signature.clone(),
                    },
                );
                action = ClientAction::Wait;
            },
            (ClientState::AwaitAccept(p), ClientEvent::AcceptReceived(a)) => {
                if verify_acceptance(&a, p, p.issuer.as_str()) {
                    next = ClientState::Authenticated(a.session_id);
                    action = ClientAction::Ready;
                }
            },
            (ClientState::Authenticated(s), ClientEvent::RequestServed) => {
                next = ClientState::Authenticated(s.clone());
                action = ClientAction::Ready;
            },
            _ => {},
        }
        self.state = next;
        action
    }
}

/// Whatever the state, a failure of the transport, an error of the server or
/// a refused session takes the client back to the idle state.
pub proof fn law_failure_returns_to_idle(secret: Seq<u8>, state: ClientStateView, now: int)
    ensures
        spec_step(secret, state, ClientEventView::Failed, now).0 == ClientStateView::Idle,
        spec_step(secret, state, ClientEventView::SessionRefused, now).0
            == ClientStateView::Idle,
{
}

/// The client is authenticated only after an acceptance whose
/// counter-signature is the server's signature of the proof that the client
/// sent, or while it already was.
pub proof fn law_session_needs_counter_signature(
    secret: Seq<u8>,
    state: ClientStateView,
    event: ClientEventView,
    now: int,
)
    requires
        spec_step(secret, state, event, now).0 is Authenticated,
    ensures
        state is Authenticated || (state matches ClientStateView::AwaitAccept(p) && event
            matches ClientEventView::AcceptReceived(a) && acceptance_signed(a, p, p.issuer)),
{
}

/// The address of a request: the address of the server and the path.
pub fn request_url(server: &str, path: &str) -> (url: String)
    ensures
        url@ == server@ + path@,
{
    let mut url = server.to_owned();
    url.append(path);
    url
}

/// The address at which `server` answers a lookup of `did`: the path
/// `/lookup/` and the DID as one escaped segment.
pub fn lookup_url(server: &str, did: &str) -> (url: String)
    ensures
        url@ == server@ + "/lookup/"@ + spec_url_encode(did@),
{
    let mut url = server.to_owned();
    url.append("/lookup/");
    let segment = url_encode(did);
    url.append(segment.as_str());
    url
}

} // verus!
