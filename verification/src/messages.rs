//! The messages of the handshake and their canonical texts.
//!
//! A challenge and a proof are signed and hashed by their canonical text, in
//! which the signature itself does not appear.

use crate::canonical::{
    after, chars_of, decimal, expect_literal, is_digit, json_string, lemma_read_integer,
    lemma_read_string, push_decimal, push_json_string, read_integer, read_integer_at,
    read_string, read_string_at,
};
use crate::crypto::{sha256_hex, spec_sha256_hex, spec_signed_by, verify_signature};
use vstd::prelude::*;
use vstd::utf8::encode_utf8;

verus! {

/// The lifetime of a challenge in seconds.
pub const CHALLENGE_LIFETIME: i64 = 60;

/// The first message of a handshake: the caller names its DID.
#[derive(Debug, Clone, PartialEq, Eq)]
pub struct Hello {
    pub did: String,
}

impl Hello {
    /// The greeting of `did`.
    pub fn new(did: String) -> (hello: Self)
        ensures
            hello.did == did,
    {
        Hello { did }
    }
}

/// A nonce issued by the server for one caller and a short time, signed by
/// the server.
#[derive(Debug, Clone, PartialEq, Eq)]
pub struct Challenge {
    pub issuer: String,
    pub audience: String,
    pub nonce: String,
    pub issued_at: i64,
    pub expires_at: i64,
    pub issuer_signature: String,
}

/// A challenge as plain values.
pub struct ChallengeView {
    pub issuer: Seq<char>,
    pub audience: Seq<char>,
    pub nonce: Seq<char>,
    pub issued_at: int,
    pub expires_at: int,
    pub issuer_signature: Seq<char>,
}

impl View for Challenge {
    type V = ChallengeView;

    open spec fn view(&self) -> ChallengeView {
        ChallengeView {
            issuer: self.issuer@,
            audience: self.audience@,
            nonce: self.nonce@,
            issued_at: self.issued_at as int,
            expires_at: self.expires_at as int,
            issuer_signature: self.issuer_signature@,
        }
    }
}

/// The canonical text of a challenge: its members but the signature, in the
/// order of their names.
pub open spec fn canonical_challenge(c: ChallengeView) -> Seq<char> {
    "{\"audience\":"@ + json_string(c.audience) + ",\"expires_at\":"@ + decimal(c.expires_at)
        + ",\"issued_at\":"@ + decimal(c.issued_at) + ",\"issuer\":"@ + json_string(c.issuer)
        + ",\"nonce\":"@ + json_string(c.nonce) + "}"@
}

/// The bytes of a challenge that are signed and hashed.
pub open spec fn challenge_message(c: ChallengeView) -> Seq<u8> {
    encode_utf8(canonical_challenge(c))
}

/// The hash by which a challenge is known: the SHA-256 digest of its
/// canonical text, in lower-case hexadecimal.
pub open spec fn spec_challenge_hash(c: ChallengeView) -> Seq<char> {
    spec_sha256_hex(challenge_message(c))
}

/// The signature of the challenge verifies under the DID of its issuer.
pub open spec fn challenge_signed(c: ChallengeView) -> bool {
    spec_signed_by(c.issuer, challenge_message(c), c.issuer_signature)
}

impl Challenge {
    /// The canonical text of this challenge.
    pub fn canonical(&self) -> (text: String)
        ensures
            text@ == canonical_challenge(self@),
    {
        let mut text = String::new();
        text.append("{\"audience\":");
        push_json_string(&mut text, self.audience.as_str());
        text.append(",\"expires_at\":");
        push_decimal(&mut text, self.expires_at);
        text.append(",\"issued_at\":");
        push_decimal(&mut text, self.issued_at);
        text.append(",\"issuer\":");
        push_json_string(&mut text, self.issuer.as_str());
        text.append(",\"nonce\":");
        push_json_string(&mut text, self.nonce.as_str());
        text.append("}");
        assert(text@ =~= canonical_challenge(self@));
        text
    }

    /// The hash by which this challenge is known.
    pub fn hash(&self) -> (hash: String)
        ensures
            hash@ == spec_challenge_hash(self@),
    {
        let text = self.canonical();
        sha256_hex(text.as_str().as_bytes())
    }

    /// Whether the signature of this challenge verifies under the DID of its
    /// issuer.
    pub fn verify_issuer(&self) -> (valid: bool)
        ensures
            valid == challenge_signed(self@),
    {
        let text = self.canonical();
        verify_signature(
            self.issuer.as_str(),
            text.as_str().as_bytes(),
            self.issuer_signature.as_str(),
        )
    }

    /// A copy of this challenge.
    pub fn duplicate(&self) -> (copy: Self)
        ensures
            copy@ == self@,
    {
        Challenge {
            issuer: self.issuer.clone(),
            audience: self.audience.clone(),
            nonce: self.nonce.clone(),
            issued_at: self.issued_at,
            expires_at: self.expires_at,
            issuer_signature: self.issuer_signature.clone(),
        }
    }
}

/// The answer to a challenge: the caller cites the challenge by its hash and
/// signs.
#[derive(Debug, Clone, PartialEq, Eq)]
pub struct Proof {
    pub responder_did: String,
    pub challenge_hash: String,
    pub issuer: String,
    pub signed_at: i64,
    pub responder_signature: String,
}

/// A proof as plain values.
pub struct ProofView {
    pub responder_did: Seq<char>,
    pub challenge_hash: Seq<char>,
    pub issuer: Seq<char>,
    pub signed_at: int,
    pub responder_signature: Seq<char>,
}

impl View for Proof {
    type V = ProofView;

    open spec fn view(&self) -> ProofView {
        ProofView {
            responder_did: self.responder_did@,
            challenge_hash: self.challenge_hash@,
            issuer: self.issuer@,
            signed_at: self.signed_at as int,
            responder_signature: self.responder_signature@,
        }
    }
}

/// The canonical text of a proof: its members but the signature, in the
/// order of their names.
pub open spec fn canonical_proof(p: ProofView) -> Seq<char> {
    "{\"challenge_hash\":"@ + json_string(p.challenge_hash) + ",\"issuer\":"@ + json_string(
        p.issuer,
    ) + ",\"responder_did\":"@ + json_string(p.responder_did) + ",\"signed_at\":"@ + decimal(
        p.signed_at,
    ) + "}"@
}

/// The bytes of a proof that are signed.
pub open spec fn proof_message(p: ProofView) -> Seq<u8> {
    encode_utf8(canonical_proof(p))
}

/// The signature of the proof verifies under the DID of the responder.
pub open spec fn proof_signed(p: ProofView) -> bool {
    spec_signed_by(p.responder_did, proof_message(p), p.responder_signature)
}

impl Proof {
    /// The canonical text of this proof.
    pub fn canonical(&self) -> (text: String)
        ensures
            text@ == canonical_proof(self@),
    {
        let mut text = String::new();
        text.append("{\"challenge_hash\":");
        push_json_string(&mut text, self.challenge_hash.as_str());
        text.append(",\"issuer\":");
        push_json_string(&mut text, self.issuer.as_str());
        text.append(",\"responder_did\":");
        push_json_string(&mut text, self.responder_did.as_str());
        text.append(",\"signed_at\":");
        push_decimal(&mut text, self.signed_at);
        text.append("}");
        assert(text@ =~= canonical_proof(self@));
        text
    }

    /// Whether the signature of this proof verifies under the DID of the
    /// responder.
    pub fn verify_responder(&self) -> (valid: bool)
        ensures
            valid == proof_signed(self@),
    {
        let text = self.canonical();
        verify_signature(
            self.responder_did.as_str(),
            text.as_str().as_bytes(),
            self.responder_signature.as_str(),
        )
    }
}

/// The server's answer to a proof that it accepts: the session, and the
/// server's own signature of the proof.
#[derive(Debug, Clone, PartialEq, Eq)]
pub struct ProofAccepted {
    pub session_id: String,
    pub issuer_did: String,
    pub responder_did: String,
    pub counter_signature: String,
}

/// An acceptance as plain values.
pub struct AcceptedView {
    pub session_id: Seq<char>,
    pub issuer_did: Seq<char>,
    pub responder_did: Seq<char>,
    pub counter_signature: Seq<char>,
}

impl View for ProofAccepted {
    type V = AcceptedView;

    open spec fn view(&self) -> AcceptedView {
        AcceptedView {
            session_id: self.session_id@,
            issuer_did: self.issuer_did@,
            responder_did: self.responder_did@,
            counter_signature: self.counter_signature@,
        }
    }
}

/// The counter-signature of the acceptance is the signature of `p` by the
/// server `issuer`, and the acceptance names both parties.
pub open spec fn acceptance_signed(a: AcceptedView, p: ProofView, issuer: Seq<char>) -> bool {
    &&& a.issuer_did == issuer
    &&& a.responder_did == p.responder_did
    &&& spec_signed_by(issuer, proof_message(p), a.counter_signature)
}

/// The integer fits the 64 bits of a time on the wire.
pub open spec fn is_time(n: int) -> bool {
    i64::MIN <= n <= i64::MAX
}

/// The challenge that a canonical text stands for, without a signature,
/// where the text is the canonical text of a challenge.
pub open spec fn spec_decode_challenge(text: Seq<char>) -> Option<ChallengeView> {
    match after(text, "{\"audience\":"@) {
        None => None,
        Some(s1) => match read_string(s1) {
            None => None,
            Some((audience, s2)) => match after(s2, ",\"expires_at\":"@) {
                None => None,
                Some(s3) => match read_integer(s3) {
                    None => None,
                    Some((expires_at, s4)) => if !is_time(expires_at) {
                        None
                    } else {
                        match after(s4, ",\"issued_at\":"@) {
                            None => None,
                            Some(s5) => match read_integer(s5) {
                                None => None,
                                Some((issued_at, s6)) => if !is_time(issued_at) {
                                    None
                                } else {
                                    match after(s6, ",\"issuer\":"@) {
                                        None => None,
                                        Some(s7) => match read_string(s7) {
                                            None => None,
                                            Some((issuer, s8)) => match after(s8, ",\"nonce\":"@) {
                                                None => None,
                                                Some(s9) => match read_string(s9) {
                                                    None => None,
                                                    Some((nonce, s10)) => if s10 == "}"@ {
                                                        Some(
                                                            ChallengeView {
                                                                issuer,
                                                                audience,
                                                                nonce,
                                                                issued_at,
                                                                expires_at,
                                                                issuer_signature: Seq::empty(),
                                                            },
                                                        )
                                                    } else {
                                                        None
                                                    },
                                                },
                                            },
                                        },
                                    }
                                },
                            },
                        }
                    },
                },
            },
        },
    }
}

/// The proof that a canonical text stands for, without a signature, where
/// the text is the canonical text of a proof.
pub open spec fn spec_decode_proof(text: Seq<char>) -> Option<ProofView> {
    match after(text, "{\"challenge_hash\":"@) {
        None => None,
        Some(s1) => match read_string(s1) {
            None => None,
            Some((challenge_hash, s2)) => match after(s2, ",\"issuer\":"@) {
                None => None,
                Some(s3) => match read_string(s3) {
                    None => None,
                    Some((issuer, s4)) => match after(s4, ",\"responder_did\":"@) {
                        None => None,
                        Some(s5) => match read_string(s5) {
                            None => None,
                            Some((responder_did, s6)) => match after(s6, ",\"signed_at\":"@) {
                                None => None,
                                Some(s7) => match read_integer(s7) {
                                    None => None,
                                    Some((signed_at, s8)) => if is_time(signed_at) && s8
                                        == "}"@ {
                                        Some(
                                            ProofView {
                                                responder_did,
                                                challenge_hash,
                                                issuer,
                                                signed_at,
                                                responder_signature: Seq::empty(),
                                            },
                                        )
                                    } else {
                                        None
                                    },
                                },
                            },
                        },
                    },
                },
            },
        },
    }
}

/// Whether the text ends at the position `pos` with a closing brace.
fn ends_with_brace(chars: &Vec<char>, pos: usize) -> (b: bool)
    requires
        pos <= chars@.len(),
    ensures
        b == (chars@.skip(pos as int) == "}"@),
{
    proof {
        reveal_strlit("}");
    }
    let ghost s = chars@.skip(pos as int);
    if chars.len() - pos == 1 && chars[pos] == '}' {
        assert(s[0] == chars@[pos as int]);
        assert(s =~= "}"@);
        true
    } else {
        proof {
            if s == "}"@ {
                assert(s.len() == 1);
                assert(s[0] == chars@[pos as int]);
            }
        }
        false
    }
}

impl Challenge {
    /// Reads a challenge from its canonical text. The signature is not part
    /// of the text and comes back empty. Any other text is refused.
    pub fn decode(text: &str) -> (r: Option<Challenge>)
        ensures
            match r {
                Some(c) => spec_decode_challenge(text@) == Some(c@),
                None => spec_decode_challenge(text@) is None,
            },
    {
        let chars = chars_of(text);
        assert(chars@.skip(0) =~= text@);
        let pos1 = match expect_literal(&chars, 0, "{\"audience\":") {
            Some(p) => p,
            None => {
                return None;
            },
        };
        let (audience, pos2) = match read_string_at(&chars, pos1) {
            Some(found) => found,
            None => {
                return None;
            },
        };
        let pos3 = match expect_literal(&chars, pos2, ",\"expires_at\":") {
            Some(p) => p,
            None => {
                return None;
            },
        };
        let (expires_at, pos4) = match read_integer_at(&chars, pos3) {
            Some(found) => found,
            None => {
                return None;
            },
        };
        let pos5 = match expect_literal(&chars, pos4, ",\"issued_at\":") {
            Some(p) => p,
            None => {
                return None;
            },
        };
        let (issued_at, pos6) = match read_integer_at(&chars, pos5) {
            Some(found) => found,
            None => {
                return None;
            },
        };
        let pos7 = match expect_literal(&chars, pos6, ",\"issuer\":") {
            Some(p) => p,
            None => {
                return None;
            },
        };
        let (issuer, pos8) = match read_string_at(&chars, pos7) {
            Some(found) => found,
            None => {
                return None;
            },
        };
        let pos9 = match expect_literal(&chars, pos8, ",\"nonce\":") {
            Some(p) => p,
            None => {
                return None;
            },
        };
        let (nonce, pos10) = match read_string_at(&chars, pos9) {
            Some(found) => found,
            None => {
                return None;
            },
        };
        if !ends_with_brace(&chars, pos10) {
            return None;
        }
        Some(
            Challenge {
                issuer,
                audience,
                nonce,
                issued_at,
                expires_at,
                issuer_signature: String::new(),
            },
        )
    }
}

impl Proof {
    /// Reads a proof from its canonical text. The signature is not part of
    /// the text and comes back empty. Any other text is refused.
    pub fn decode(text: &str) -> (r: Option<Proof>)
        ensures
            match r {
                Some(p) => spec_decode_proof(text@) == Some(p@),
                None => spec_decode_proof(text@) is None,
            },
    {
        let chars = chars_of(text);
        assert(chars@.skip(0) =~= text@);
        let pos1 = match expect_literal(&chars, 0, "{\"challenge_hash\":") {
            Some(p) => p,
            None => {
                return None;
            },
        };
        let (challenge_hash, pos2) = match read_string_at(&chars, pos1) {
            Some(found) => found,
            None => {
                return None;
            },
        };
        let pos3 = match expect_literal(&chars, pos2, ",\"issuer\":") {
            Some(p) => p,
            None => {
                return None;
            },
        };
        let (issuer, pos4) = match read_string_at(&chars, pos3) {
            Some(found) => found,
            None => {
                return None;
            },
        };
        let pos5 = match expect_literal(&chars, pos4, ",\"responder_did\":") {
            Some(p) => p,
            None => {
                return None;
            },
        };
        let (responder_did, pos6) = match read_string_at(&chars, pos5) {
            Some(found) => found,
            None => {
                return None;
            },
        };
        let pos7 = match expect_literal(&chars, pos6, ",\"signed_at\":") {
            Some(p) => p,
            None => {
                return None;
            },
        };
        let (signed_at, pos8) = match read_integer_at(&chars, pos7) {
            Some(found) => found,
            None => {
                return None;
            },
        };
        if !ends_with_brace(&chars, pos8) {
            return None;
        }
        Some(
            Proof {
                responder_did,
                challenge_hash,
                issuer,
                signed_at,
                responder_signature: String::new(),
            },
        )
    }
}

/// What follows a prefix is what was put behind it.
pub proof fn lemma_after(prefix: Seq<char>, rest: Seq<char>)
    ensures
        after(prefix + rest, prefix) == Some(rest),
{
    let s = prefix + rest;
    assert(s.subrange(0, prefix.len() as int) =~= prefix);
    assert(s.skip(prefix.len() as int) =~= rest);
}

/// Decoding the canonical text of a challenge gives the challenge back,
/// member for member; the signature, which the text leaves out, comes back
/// empty.
pub proof fn law_challenge_round_trip(c: ChallengeView)
    requires
        is_time(c.issued_at),
        is_time(c.expires_at),
    ensures
        spec_decode_challenge(canonical_challenge(c)) == Some(
            ChallengeView { issuer_signature: Seq::empty(), ..c },
        ),
{
    reveal_strlit(",\"expires_at\":");
    reveal_strlit(",\"issued_at\":");
    reveal_strlit(",\"issuer\":");
    reveal_strlit(",\"nonce\":");
    reveal_strlit("}");
    let l1 = "{\"audience\":"@;
    let l2 = ",\"expires_at\":"@;
    let l3 = ",\"issued_at\":"@;
    let l4 = ",\"issuer\":"@;
    let l5 = ",\"nonce\":"@;
    let r10 = "}"@;
    let r9 = json_string(c.nonce) + r10;
    let r8 = l5 + r9;
    let r7 = json_string(c.issuer) + r8;
    let r6 = l4 + r7;
    let r5 = decimal(c.issued_at) + r6;
    let r4 = l3 + r5;
    let r3 = decimal(c.expires_at) + r4;
    let r2 = l2 + r3;
    let r1 = json_string(c.audience) + r2;
    assert(canonical_challenge(c) =~= l1 + r1);
    lemma_after(l1, r1);
    lemma_read_string(c.audience, r2);
    lemma_after(l2, r3);
    assert(r4[0] == l3[0] && l3[0] == ',');
    assert(!is_digit(','));
    lemma_read_integer(c.expires_at, r4);
    lemma_after(l3, r5);
    assert(r6[0] == l4[0] && l4[0] == ',');
    lemma_read_integer(c.issued_at, r6);
    lemma_after(l4, r7);
    lemma_read_string(c.issuer, r8);
    lemma_after(l5, r9);
    lemma_read_string(c.nonce, r10);
}

/// Decoding the canonical text of a proof gives the proof back, member for
/// member; the signature, which the text leaves out, comes back empty.
pub proof fn law_proof_round_trip(p: ProofView)
    requires
        is_time(p.signed_at),
    ensures
        spec_decode_proof(canonical_proof(p)) == Some(
            ProofView { responder_signature: Seq::empty(), ..p },
        ),
{
    reveal_strlit("}");
    let l1 = "{\"challenge_hash\":"@;
    let l2 = ",\"issuer\":"@;
    let l3 = ",\"responder_did\":"@;
    let l4 = ",\"signed_at\":"@;
    let r8 = "}"@;
    let r7 = decimal(p.signed_at) + r8;
    let r6 = l4 + r7;
    let r5 = json_string(p.responder_did) + r6;
    let r4 = l3 + r5;
    let r3 = json_string(p.issuer) + r4;
    let r2 = l2 + r3;
    let r1 = json_string(p.challenge_hash) + r2;
    assert(canonical_proof(p) =~= l1 + r1);
    lemma_after(l1, r1);
    lemma_read_string(p.challenge_hash, r2);
    lemma_after(l2, r3);
    lemma_read_string(p.issuer, r4);
    lemma_after(l3, r5);
    lemma_read_string(p.responder_did, r6);
    lemma_after(l4, r7);
    assert(r8[0] == '}');
    assert(!is_digit('}'));
    lemma_read_integer(p.signed_at, r8);
}

/// Two challenges with the same canonical text agree in every member but
/// the signature: the text, and with it the hash and the signature over it,
/// stands for one value only.
pub proof fn law_canonical_challenge_unique(a: ChallengeView, b: ChallengeView)
    requires
        is_time(a.issued_at),
        is_time(a.expires_at),
        is_time(b.issued_at),
        is_time(b.expires_at),
        canonical_challenge(a) == canonical_challenge(b),
    ensures
        a.issuer == b.issuer,
        a.audience == b.audience,
        a.nonce == b.nonce,
        a.issued_at == b.issued_at,
        a.expires_at == b.expires_at,
{
    law_challenge_round_trip(a);
    law_challenge_round_trip(b);
}

/// Two proofs with the same canonical text agree in every member but the
/// signature.
pub proof fn law_canonical_proof_unique(a: ProofView, b: ProofView)
    requires
        is_time(a.signed_at),
        is_time(b.signed_at),
        canonical_proof(a) == canonical_proof(b),
    ensures
        a.responder_did == b.responder_did,
        a.challenge_hash == b.challenge_hash,
        a.issuer == b.issuer,
        a.signed_at == b.signed_at,
{
    law_proof_round_trip(a);
    law_proof_round_trip(b);
}

/// The canonical text, and so the hash, depends on the members of the
/// challenge alone, and not on its signature: the same challenge has the
/// same text wherever it is written.
pub proof fn law_canonical_is_a_function(a: ChallengeView, b: ChallengeView)
    requires
        a.issuer == b.issuer,
        a.audience == b.audience,
        a.nonce == b.nonce,
        a.issued_at == b.issued_at,
        a.expires_at == b.expires_at,
    ensures
        canonical_challenge(a) == canonical_challenge(b),
        spec_challenge_hash(a) == spec_challenge_hash(b),
{
}

} // verus!
