//! The server's side of the handshake: issuing challenges, keeping them until
//! they are answered, and judging the answers.
//!
//! A challenge can be answered once. Whatever becomes of the answer, the
//! challenge is gone afterwards.

use crate::clock::unix_now;
use crate::crypto::{
    random_token, spec_did_valid, spec_key_did, spec_sign_hex, is_valid_did, IdentityKey,
};
use crate::error::ReachError;
use crate::messages::{
    acceptance_signed, challenge_message, challenge_signed, proof_message, proof_signed,
    spec_challenge_hash, AcceptedView, Challenge, ChallengeView, Hello, Proof, ProofAccepted,
    ProofView, CHALLENGE_LIFETIME,
};
use crate::session::{AuthenticatedSession, SessionStore, SessionView};
use crate::table::Table;
use vstd::prelude::*;

verus! {

/// The number of random bytes in a nonce.
pub const NONCE_BYTES: usize = 32;

/// The number of random bytes in a session identifier.
pub const SESSION_ID_BYTES: usize = 16;

/// What the server remembers of the caller for whom a challenge was issued.
#[derive(Debug, Clone, PartialEq, Eq)]
pub struct Verifier {
    /// The DID that must answer the challenge.
    pub audience: String,
}

impl Verifier {
    /// The context for a challenge issued to `audience`.
    pub fn new(audience: String) -> (v: Self)
        ensures
            v.audience == audience,
    {
        Verifier { audience }
    }
}

/// A challenge that waits for its answer.
pub struct PendingChallenge {
    pub challenge: Challenge,
    pub verifier: Verifier,
}

/// A waiting challenge as plain values.
pub struct PendingView {
    pub challenge: ChallengeView,
    pub audience: Seq<char>,
}

impl View for PendingChallenge {
    type V = PendingView;

    open spec fn view(&self) -> PendingView {
        PendingView { challenge: self.challenge@, audience: self.verifier.audience@ }
    }
}

/// The waiting challenges, keyed by challenge hash.
pub type PendingMap = Map<Seq<char>, PendingView>;

/// The table without the challenges that have expired before `now`.
pub open spec fn spec_sweep(m: PendingMap, now: int) -> PendingMap {
    m.restrict(Set::new(|h: Seq<char>| m.contains_key(h) && !(m[h].challenge.expires_at < now)))
}

/// The challenges that wait for their answer.
pub struct PendingChallenges {
    rows: Table<PendingChallenge>,
}

impl PendingChallenges {
    /// The waiting challenges as a map from challenge hash to challenge.
    pub closed spec fn view(&self) -> PendingMap {
        self.rows@
    }

    /// The table holds at most one challenge per hash.
    pub closed spec fn wf(&self) -> bool {
        self.rows.wf()
    }

    /// An empty table.
    pub fn new() -> (t: Self)
        ensures
            t.wf(),
            t@ == PendingMap::empty(),
    {
        PendingChallenges { rows: Table::new() }
    }

    /// The number of waiting challenges.
    pub fn len(&self) -> (n: usize)
        requires
            self.wf(),
        ensures
            n == self@.dom().len(),
    {
        self.rows.len()
    }

    /// Stores a challenge under its hash, in place of what the hash held.
    pub fn put(&mut self, hash: String, challenge: Challenge, verifier: Verifier)
        requires
            old(self).wf(),
        ensures
            final(self).wf(),
            final(self)@ == old(self)@.insert(
                hash@,
                PendingView { challenge: challenge@, audience: verifier.audience@ },
            ),
    {
        self.rows.insert(hash, PendingChallenge { challenge, verifier });
    }

    /// Removes and returns the challenge stored under `hash`, if there is
    /// one. Afterwards the table holds nothing under `hash`.
    pub fn take(&mut self, hash: &str) -> (r: Option<PendingChallenge>)
        requires
            old(self).wf(),
        ensures
            final(self).wf(),
            final(self)@ == old(self)@.remove(hash@),
            !final(self)@.contains_key(hash@),
            match r {
                Some(row) => old(self)@.contains_key(hash@) && row@ == old(self)@[hash@],
                None => !old(self)@.contains_key(hash@),
            },
    {
        self.rows.remove(hash)
    }

    /// Removes the challenges that have expired before `now`. Returns how
    /// many were removed.
    pub fn sweep(&mut self, now: i64) -> (removed: usize)
        requires
            old(self).wf(),
        ensures
            final(self).wf(),
            final(self)@ == spec_sweep(old(self)@, now as int),
            removed == old(self)@.dom().len() - final(self)@.dom().len(),
    {
        let before = self.rows.len();
        let keys = self.rows.keys();
        let ghost start = self.rows@;
        let mut i: usize = 0;
        while i < keys.len()
            invariant
                i <= keys@.len(),
                self.rows.wf(),
                start == old(self).rows@,
                forall|j: int| 0 <= j < keys@.len() ==> #[trigger] start.contains_key(keys@[j]@),
                forall|k: Seq<char>| #[trigger]
                    start.contains_key(k) ==> exists|j: int|
                        0 <= j < keys@.len() && keys@[j]@ == k,
                self.rows@ == start.restrict(
                    Set::new(
                        |k: Seq<char>|
                            start.contains_key(k) && (!(start[k].challenge.expires_at < now)
                                || !exists|j: int| 0 <= j < i && keys@[j]@ == k),
                    ),
                ),
            decreases keys@.len() - i,
        {
            let key = keys[i].as_str();
            let expired = match self.rows.get(key) {
                Some(row) => row.challenge.expires_at < now,
                None => false,
            };
            if expired {
                self.rows.remove(key);
            }
            proof {
                let next = start.restrict(
                    Set::new(
                        |k: Seq<char>|
                            start.contains_key(k) && (!(start[k].challenge.expires_at < now)
                                || !exists|j: int| 0 <= j < i + 1 && keys@[j]@ == k),
                    ),
                );
                assert forall|k: Seq<char>| self.rows@.contains_key(k) <==> next.contains_key(
                    k,
                ) by {
                    if k == key@ {
                        assert(keys@[i as int]@ == k);
                    } else {
                        if exists|j: int| 0 <= j < i + 1 && keys@[j]@ == k {
                            let j = choose|j: int| 0 <= j < i + 1 && keys@[j]@ == k;
                            assert(0 <= j < i && keys@[j]@ == k);
                        }
                    }
                }
                assert(self.rows@ =~= next);
            }
            i += 1;
        }
        proof {
            let done = spec_sweep(start, now as int);
            assert forall|k: Seq<char>| self.rows@.contains_key(k) <==> done.contains_key(k) by {
                if start.contains_key(k) {
                    let j = choose|j: int| 0 <= j < keys@.len() && keys@[j]@ == k;
                    assert(0 <= j < i && keys@[j]@ == k);
                }
            }
            assert(self.rows@ =~= done);
        }
        let after = self.rows.len();
        proof {
            vstd::set_lib::lemma_len_subset(self.rows@.dom(), start.dom());
        }
        before - after
    }
}

/// The challenge that the holder of `secret` issues to `audience` at `now`
/// with the nonce `nonce`: it lives for 60 seconds and carries the issuer's
/// signature of its canonical text.
pub open spec fn spec_challenge(
    secret: Seq<u8>,
    audience: Seq<char>,
    nonce: Seq<char>,
    now: int,
) -> ChallengeView {
    let unsigned = ChallengeView {
        issuer: spec_key_did(secret),
        audience,
        nonce,
        issued_at: now,
        expires_at: now + CHALLENGE_LIFETIME,
        issuer_signature: Seq::empty(),
    };
    ChallengeView {
        issuer_signature: spec_sign_hex(secret, challenge_message(unsigned)),
        ..unsigned
    }
}

/// Whether a challenge issued at `now` expires within the range of time.
pub open spec fn can_issue_at(now: int) -> bool {
    now + CHALLENGE_LIFETIME <= i64::MAX
}

/// Issues a challenge to the caller named in `hello`, under `nonce` and at
/// the time `now`. A malformed DID is refused as `InvalidDid`; else a time
/// at which no challenge can expire within the range of time is reported as
/// `Internal`. The challenge verifies under the issuer's DID.
pub fn create_challenge(key: &IdentityKey, hello: &Hello, nonce: String, now: i64) -> (r: Result<
    Challenge,
    ReachError,
>)
    ensures
        match r {
            Ok(c) => {
                &&& spec_did_valid(hello.did@)
                &&& can_issue_at(now as int)
                &&& c@ == spec_challenge(key@, hello.did@, nonce@, now as int)
                &&& challenge_signed(c@)
            },
            Err(e) => if !spec_did_valid(hello.did@) {
                e == ReachError::InvalidDid
            } else {
                !can_issue_at(now as int) && e is Internal
            },
        },
{
    if !is_valid_did(hello.did.as_str()) {
        return Err(ReachError::InvalidDid);
    }
    if now > i64::MAX - CHALLENGE_LIFETIME {
        return Err(ReachError::Internal("clock out of range".to_owned()));
    }
    let mut challenge = Challenge {
        issuer: key.did(),
        audience: hello.did.clone(),
        nonce,
        issued_at: now,
        expires_at: now + CHALLENGE_LIFETIME,
        issuer_signature: String::new(),
    };
    let text = challenge.canonical();
    let signature = key.sign(text.as_str().as_bytes());
    let ghost unsigned = challenge@;
    challenge.issuer_signature = signature;
    proof {
        assert(challenge_message(challenge@) == challenge_message(unsigned));
        assert(challenge@ == spec_challenge(key@, hello.did@, nonce@, now as int));
    }
    Ok(challenge)
}

/// How the server judges a proof at the time `now`: `None` where it accepts,
/// else the error. The challenge must wait under the hash that the proof
/// cites, hash to it, and not have expired; the proof must come from the
/// challenge's audience, echo its issuer, and carry a signature that verifies
/// under the responder's DID.
pub open spec fn spec_proof_verdict(pending: PendingMap, p: ProofView, now: int) -> Option<
    ReachError,
> {
    if !pending.contains_key(p.challenge_hash) {
        Some(ReachError::InvalidChallenge)
    } else {
        let c = pending[p.challenge_hash].challenge;
        if spec_challenge_hash(c) != p.challenge_hash {
            Some(ReachError::InvalidChallenge)
        } else if now > c.expires_at {
            Some(ReachError::InvalidChallenge)
        } else if p.responder_did != c.audience {
            Some(ReachError::InvalidSignature)
        } else if p.issuer != c.issuer {
            Some(ReachError::InvalidSignature)
        } else if !proof_signed(p) {
            Some(ReachError::InvalidSignature)
        } else {
            None
        }
    }
}

/// The acceptance of `p` by the holder of `secret` under the session
/// `session_id`.
pub open spec fn spec_acceptance(secret: Seq<u8>, p: ProofView, session_id: Seq<char>) -> AcceptedView {
    AcceptedView {
        session_id,
        issuer_did: spec_key_did(secret),
        responder_did: p.responder_did,
        counter_signature: spec_sign_hex(secret, proof_message(p)),
    }
}

/// Judges `p` against the challenge `row` that was waiting under the hash
/// that `p` cites, if any.
fn judge(row: &Option<PendingChallenge>, p: &Proof, now: i64) -> (verdict: Option<ReachError>)
    ensures
        forall|pending: PendingMap|
            (match row {
                Some(w) => pending.contains_key(p.challenge_hash@) && pending[p.challenge_hash@]
                    == w@,
                None => !pending.contains_key(p.challenge_hash@),
            }) ==> verdict == #[trigger] spec_proof_verdict(pending, p@, now as int),
{
    match row {
        None => Some(ReachError::InvalidChallenge),
        Some(waiting) => {
            let challenge = &waiting.challenge;
            let hash = challenge.hash();
            if hash != p.challenge_hash {
                Some(ReachError::InvalidChallenge)
            } else if now > challenge.expires_at {
                Some(ReachError::InvalidChallenge)
            } else if p.responder_did != challenge.audience {
                Some(ReachError::InvalidSignature)
            } else if p.issuer != challenge.issuer {
                Some(ReachError::InvalidSignature)
            } else if !p.verify_responder() {
                Some(ReachError::InvalidSignature)
            } else {
                None
            }
        },
    }
}

/// The state of the handshakes of one server.
pub struct HandshakeState {
    /// The server's own identity.
    pub key: IdentityKey,
    /// The challenges that wait for their answer, by challenge hash.
    pub pending_challenges: PendingChallenges,
    /// The sessions of the callers that have authenticated.
    pub sessions: SessionStore,
}

impl HandshakeState {
    /// Both tables are well formed.
    pub open spec fn wf(&self) -> bool {
        &&& self.pending_challenges.wf()
        &&& self.sessions.wf()
    }

    /// A server with a fresh identity, no waiting challenge and no session.
    pub fn new() -> (s: Self)
        ensures
            s.wf(),
            s.pending_challenges@ == PendingMap::empty(),
            s.sessions@ == Map::<Seq<char>, SessionView>::empty(),
    {
        Self::with_key(IdentityKey::generate())
    }

    /// A server with the identity `key`, no waiting challenge and no session.
    pub fn with_key(key: IdentityKey) -> (s: Self)
        ensures
            s.wf(),
            s.key@ == key@,
            s.pending_challenges@ == PendingMap::empty(),
            s.sessions@ == Map::<Seq<char>, SessionView>::empty(),
    {
        HandshakeState {
            key,
            pending_challenges: PendingChallenges::new(),
            sessions: SessionStore::new(),
        }
    }

    /// Answers a greeting at the time `now` with a challenge under `nonce`,
    /// and keeps the challenge under its hash until it is answered. A
    /// greeting that is refused changes nothing: one with a malformed DID as
    /// `InvalidDid`, else one at a time at which no challenge can expire
    /// within the range of time as `Internal`.
    pub fn hello_at(&mut self, hello: &Hello, nonce: String, now: i64) -> (r: Result<
        Challenge,
        ReachError,
    >)
        requires
            old(self).wf(),
        ensures
            final(self).wf(),
            final(self).key@ == old(self).key@,
            final(self).sessions@ == old(self).sessions@,
            match r {
                Ok(c) => {
                    &&& spec_did_valid(hello.did@)
                    &&& can_issue_at(now as int)
                    &&& c@ == spec_challenge(old(self).key@, hello.did@, nonce@, now as int)
                    &&& challenge_signed(c@)
                    &&& final(self).pending_challenges@ == old(self).pending_challenges@.insert(
                        spec_challenge_hash(c@),
                        PendingView { challenge: c@, audience: hello.did@ },
                    )
                },
                Err(e) => {
                    &&& final(self).pending_challenges@ == old(self).pending_challenges@
                    &&& if !spec_did_valid(hello.did@) {
                        e == ReachError::InvalidDid
                    } else {
                        !can_issue_at(now as int) && e is Internal
                    }
                },
            },
    {
        match create_challenge(&self.key, hello, nonce, now) {
            Ok(challenge) => {
                let hash = challenge.hash();
                let verifier = Verifier::new(hello.did.clone());
                self.pending_challenges.put(hash, challenge.duplicate(), verifier);
                Ok(challenge)
            },
            Err(e) => Err(e),
        }
    }

    /// Answers a greeting with a challenge under a fresh nonce, issued now.
    /// A malformed DID is refused as `InvalidDid`; a failure of the random
    /// generator or a clock beyond the range of time is reported as
    /// `Internal`. Only an issued challenge changes the state.
    pub fn hello(&mut self, hello: &Hello) -> (r: Result<Challenge, ReachError>)
        requires
            old(self).wf(),
        ensures
            final(self).wf(),
            final(self).key@ == old(self).key@,
            final(self).sessions@ == old(self).sessions@,
            match r {
                Ok(c) => {
                    &&& spec_did_valid(hello.did@)
                    &&& c@ == spec_challenge(
                        old(self).key@,
                        hello.did@,
                        c@.nonce,
                        c@.issued_at,
                    )
                    &&& c@.nonce.len() == 2 * NONCE_BYTES
                    &&& challenge_signed(c@)
                    &&& final(self).pending_challenges@ == old(self).pending_challenges@.insert(
                        spec_challenge_hash(c@),
                        PendingView { challenge: c@, audience: hello.did@ },
                    )
                },
                Err(e) => {
                    &&& final(self).pending_challenges@ == old(self).pending_challenges@
                    &&& (e == ReachError::InvalidDid || e is Internal)
                    &&& spec_did_valid(hello.did@) <==> e is Internal
                },
            },
    {
        if !is_valid_did(hello.did.as_str()) {
            return Err(ReachError::InvalidDid);
        }
        match random_token(NONCE_BYTES) {
            Some(nonce) => self.hello_at(hello, nonce, unix_now()),
            None => Err(ReachError::Internal("random generator failed".to_owned())),
        }
    }

    /// Judges a proof at the time `now`. The challenge that the proof cites
    /// is removed first, whatever the verdict. Where the proof is accepted,
    /// a session for the responder is stored under `session_id` and the
    /// acceptance carries the server's signature of the proof.
    pub fn handle_proof_at(&mut self, p: &Proof, session_id: String, now: i64) -> (r: Result<
        ProofAccepted,
        ReachError,
    >)
        requires
            old(self).wf(),
        ensures
            final(self).wf(),
            final(self).key@ == old(self).key@,
            final(self).pending_challenges@ == old(self).pending_challenges@.remove(
                p.challenge_hash@,
            ),
            match spec_proof_verdict(old(self).pending_challenges@, p@, now as int) {
                Some(e) => r == Err::<ProofAccepted, ReachError>(e) && final(self).sessions@
                    == old(self).sessions@,
                None => {
                    &&& r matches Ok(a)
                    &&& a@ == spec_acceptance(old(self).key@, p@, session_id@)
                    &&& acceptance_signed(a@, p@, old(self).key.spec_did())
                    &&& spec_challenge_hash(
                        old(self).pending_challenges@[p.challenge_hash@].challenge,
                    ) == p.challenge_hash@
                    &&& proof_signed(p@)
                    &&& final(self).sessions@ == old(self).sessions@.insert(
                        session_id@,
                        SessionView { did: p.responder_did@, created_at: now as int },
                    )
                },
            },
    {
        let row = self.pending_challenges.take(p.challenge_hash.as_str());
        let verdict = judge(&row, p, now);
        assert(verdict == spec_proof_verdict(old(self).pending_challenges@, p@, now as int));
        match verdict {
            Some(e) => Err(e),
            None => {
                let text = p.canonical();
                let counter_signature = self.key.sign(text.as_str().as_bytes());
                let accepted = ProofAccepted {
                    session_id: session_id.clone(),
                    issuer_did: self.key.did(),
                    responder_did: p.responder_did.clone(),
                    counter_signature,
                };
                let session = AuthenticatedSession {
                    did: p.responder_did.clone(),
                    created_at: now,
                };
                self.sessions.insert(session_id, session);
                Ok(accepted)
            },
        }
    }

    /// Judges a proof now, under a fresh session identifier. The challenge
    /// that the proof cites is removed, whatever the outcome. A failure of
    /// the random generator is reported as `Internal` and stores no session.
    pub fn handle_proof(&mut self, p: &Proof) -> (r: Result<ProofAccepted, ReachError>)
        requires
            old(self).wf(),
        ensures
            final(self).wf(),
            final(self).key@ == old(self).key@,
            final(self).pending_challenges@ == old(self).pending_challenges@.remove(
                p.challenge_hash@,
            ),
            match r {
                Ok(a) => {
                    &&& a@ == spec_acceptance(old(self).key@, p@, a@.session_id)
                    &&& a@.session_id.len() == 2 * SESSION_ID_BYTES
                    &&& acceptance_signed(a@, p@, old(self).key.spec_did())
                    &&& old(self).pending_challenges@.contains_key(p.challenge_hash@)
                    &&& spec_challenge_hash(
                        old(self).pending_challenges@[p.challenge_hash@].challenge,
                    ) == p.challenge_hash@
                    &&& proof_signed(p@)
                    &&& exists|now: int|
                        {
                            &&& spec_proof_verdict(old(self).pending_challenges@, p@, now)
                                is None
                            &&& final(self).sessions@ == old(self).sessions@.insert(
                                a@.session_id,
                                SessionView { did: p.responder_did@, created_at: now },
                            )
                        }
                },
                Err(e) => {
                    &&& final(self).sessions@ == old(self).sessions@
                    &&& (e is Internal || exists|now: int|
                        spec_proof_verdict(old(self).pending_challenges@, p@, now) == Some(e))
                    &&& !old(self).pending_challenges@.contains_key(p.challenge_hash@) ==> (e
                        is Internal || e == ReachError::InvalidChallenge)
                },
            },
    {
        match random_token(SESSION_ID_BYTES) {
            Some(session_id) => {
                let now = unix_now();
                let r = self.handle_proof_at(p, session_id, now);
                proof {
                    let verdict = spec_proof_verdict(
                        old(self).pending_challenges@,
                        p@,
                        now as int,
                    );
                    if r is Err {
                        assert(verdict == Some(r->Err_0));
                    }
                }
                r
            },
            None => {
                self.pending_challenges.take(p.challenge_hash.as_str());
                Err(ReachError::Internal("random generator failed".to_owned()))
            },
        }
    }
}

/// A challenge is answered at most once: once a proof that cites a hash has
/// been judged, whether accepted or refused, every further proof that cites
/// the same hash is refused as `InvalidChallenge`, until a new challenge with
/// that hash is issued.
pub proof fn law_challenge_single_use(
    pending: PendingMap,
    first: ProofView,
    second: ProofView,
    now: int,
)
    requires
        second.challenge_hash == first.challenge_hash,
    ensures
        spec_proof_verdict(pending.remove(first.challenge_hash), second, now) == Some(
            ReachError::InvalidChallenge,
        ),
{
}

/// A proof is accepted exactly when the challenge that it cites waits under
/// the cited hash and hashes to it, the proof arrives within the challenge's
/// lifetime, comes from the DID for which the challenge was issued, echoes
/// the issuer, and is signed by the responder.
pub proof fn law_accepted_proof(pending: PendingMap, p: ProofView, now: int)
    ensures
        spec_proof_verdict(pending, p, now) is None <==> {
            &&& pending.contains_key(p.challenge_hash)
            &&& spec_challenge_hash(pending[p.challenge_hash].challenge) == p.challenge_hash
            &&& now <= pending[p.challenge_hash].challenge.expires_at
            &&& p.responder_did == pending[p.challenge_hash].challenge.audience
            &&& p.issuer == pending[p.challenge_hash].challenge.issuer
            &&& proof_signed(p)
        },
{
}

/// A proof that arrives after the challenge has expired is refused as
/// `InvalidChallenge`; at the moment of expiry itself it is still judged.
pub proof fn law_expired_challenge_refused(pending: PendingMap, p: ProofView, now: int)
    requires
        pending.contains_key(p.challenge_hash),
        now > pending[p.challenge_hash].challenge.expires_at,
    ensures
        spec_proof_verdict(pending, p, now) == Some(ReachError::InvalidChallenge),
{
}

/// While the challenge has not expired, the verdict on a proof does not
/// depend on when the proof arrives.
pub proof fn law_verdict_within_lifetime(pending: PendingMap, p: ProofView, now: int, then: int)
    requires
        pending.contains_key(p.challenge_hash),
        now <= pending[p.challenge_hash].challenge.expires_at,
        then <= pending[p.challenge_hash].challenge.expires_at,
    ensures
        spec_proof_verdict(pending, p, now) == spec_proof_verdict(pending, p, then),
{
}

/// Purging the expired challenges changes no verdict that is given at or
/// after the purge: a proof that cites a purged challenge was refused as
/// `InvalidChallenge` before, and is so after.
pub proof fn law_sweep_keeps_verdicts(pending: PendingMap, at: int, p: ProofView, now: int)
    requires
        at <= now,
    ensures
        spec_proof_verdict(spec_sweep(pending, at), p, now) == spec_proof_verdict(pending, p, now),
{
}

/// An issued challenge expires 60 seconds after it was issued.
pub proof fn law_challenge_expiry(secret: Seq<u8>, audience: Seq<char>, nonce: Seq<char>, now: int)
    ensures
        spec_challenge(secret, audience, nonce, now).issued_at == now,
        spec_challenge(secret, audience, nonce, now).expires_at == now + 60,
        spec_challenge(secret, audience, nonce, now).audience == audience,
        spec_challenge(secret, audience, nonce, now).issuer == spec_key_did(secret),
{
}

} // verus!
