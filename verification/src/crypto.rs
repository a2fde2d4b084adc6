//! Keys, signatures, digests and randomness.
//!
//! Everything here that computes is done by other crates. Each such call is
//! made in one place, and what is assumed of it is written on that function.

use vstd::prelude::*;

verus! {

/// The SHA-256 digest of a byte string.
pub uninterp spec fn spec_sha256(data: Seq<u8>) -> Seq<u8>;

/// Whether a text is a DID of the `did:key` method over an Ed25519 key.
pub uninterp spec fn spec_did_valid(did: Seq<char>) -> bool;

/// The DID of the key pair whose secret half is `secret`.
pub uninterp spec fn spec_key_did(secret: Seq<u8>) -> Seq<char>;

/// The Ed25519 signature of `message` under the secret key `secret`.
pub uninterp spec fn spec_sign(secret: Seq<u8>, message: Seq<u8>) -> Seq<u8>;

/// Whether `signature` is a signature of `message` that verifies under the
/// public key that `did` encodes.
pub uninterp spec fn spec_signature_valid(
    did: Seq<char>,
    message: Seq<u8>,
    signature: Seq<u8>,
) -> bool;

/// The digit that stands for a value below sixteen in lower-case hexadecimal.
pub open spec fn hex_digit(value: int) -> char {
    seq!['0', '1', '2', '3', '4', '5', '6', '7', '8', '9', 'a', 'b', 'c', 'd', 'e', 'f'][value]
}

/// Lower-case hexadecimal: two digits for each byte, the high half first.
pub open spec fn spec_hex(bytes: Seq<u8>) -> Seq<char> {
    Seq::new(
        2 * bytes.len(),
        |i: int|
            if i % 2 == 0 {
                hex_digit(bytes[i / 2] as int / 16)
            } else {
                hex_digit(bytes[i / 2] as int % 16)
            },
    )
}

/// The value of a hexadecimal digit of either case.
pub open spec fn hex_value(c: char) -> Option<int> {
    if '0' <= c <= '9' {
        Some(c as int - '0' as int)
    } else if 'a' <= c <= 'f' {
        Some(c as int - 'a' as int + 10)
    } else if 'A' <= c <= 'F' {
        Some(c as int - 'A' as int + 10)
    } else {
        None
    }
}

/// A text of hexadecimal digits, two for each byte.
pub open spec fn is_hex_text(text: Seq<char>) -> bool {
    &&& text.len() % 2 == 0
    &&& forall|i: int| 0 <= i < text.len() ==> hex_value(#[trigger] text[i]) is Some
}

/// The bytes that a hexadecimal text stands for, where it is one.
pub open spec fn spec_unhex(text: Seq<char>) -> Option<Seq<u8>> {
    if is_hex_text(text) {
        Some(
            Seq::new(
                text.len() / 2,
                |i: int|
                    (hex_value(text[2 * i]).unwrap() * 16 + hex_value(
                        text[2 * i + 1],
                    ).unwrap()) as u8,
            ),
        )
    } else {
        None
    }
}

/// Calls `sha2::Sha256::digest`. Assumed: the result is the SHA-256 digest of
/// the input, a function of the input alone, and 32 bytes long.
#[verifier::external_body]
pub(crate) fn sha256(data: &[u8]) -> (digest: Vec<u8>)
    ensures
        digest@ == spec_sha256(data@),
        digest@.len() == 32,
{
    <sha2::Sha256 as sha2::Digest>::digest(data).to_vec()
}

/// Calls `hex::encode`. Assumed: the result holds two lower-case hexadecimal
/// digits for each byte, the high half first.
#[verifier::external_body]
pub(crate) fn hex_encode(bytes: &[u8]) -> (text: String)
    ensures
        text@ == spec_hex(bytes@),
{
    hex::encode(bytes)
}

/// Calls `hex::decode`. Assumed: it succeeds exactly on texts of an even
/// number of hexadecimal digits of either case, and then returns the byte
/// that each pair of digits stands for.
#[verifier::external_body]
pub(crate) fn hex_decode(text: &str) -> (bytes: Option<Vec<u8>>)
    ensures
        match bytes {
            Some(b) => spec_unhex(text@) == Some(b@),
            None => spec_unhex(text@) is None,
        },
{
    hex::decode(text).ok()
}

/// Calls `getrandom::fill` on a buffer of `len` bytes. The bytes depend on
/// the generator of the operating system; assumed is only that, where the
/// call succeeds, as many bytes come back as were asked for, and that it
/// succeeds where none is asked for: for an empty buffer `fill` does not ask
/// the generator.
#[verifier::external_body]
pub(crate) fn random_bytes(len: usize) -> (bytes: Option<Vec<u8>>)
    ensures
        bytes matches Some(b) ==> b@.len() == len,
        len == 0 ==> bytes is Some,
{
    let mut buffer = vec![0u8; len];
    match getrandom::fill(&mut buffer) {
        Ok(()) => Some(buffer),
        Err(_) => None,
    }
}

/// Calls `agent_id::Did::from_str`. Assumed: whether a text parses as a DID
/// depends on the text alone.
#[verifier::external_body]
pub(crate) fn did_parses(did: &str) -> (valid: bool)
    ensures
        valid == spec_did_valid(did@),
{
    <agent_id::Did as std::str::FromStr>::from_str(did).is_ok()
}

/// Calls `agent_id::RootKey::generate` and takes the secret bytes of the new
/// key. The bytes depend on the generator of the operating system, so
/// nothing is assumed of them.
#[verifier::external_body]
pub(crate) fn generate_secret() -> (secret: [u8; 32])
{
    agent_id::RootKey::generate().to_bytes()
}

/// Calls `agent_id::RootKey::from_bytes` and `agent_id::RootKey::did`, and
/// writes the DID out. Assumed: the DID depends on the secret alone, and it
/// is a DID that parses.
#[verifier::external_body]
pub(crate) fn secret_did(secret: &[u8; 32]) -> (did: String)
    ensures
        did@ == spec_key_did(secret@),
        spec_did_valid(did@),
{
    match agent_id::RootKey::from_bytes(secret) {
        Ok(key) => key.did().to_string(),
        Err(_) => String::new(),
    }
}

/// Calls `agent_id::RootKey::from_bytes` and `agent_id::RootKey::sign`.
/// Assumed: the signature depends on the secret and the message alone, is 64
/// bytes long, and verifies under the DID of the key pair.
#[verifier::external_body]
pub(crate) fn secret_sign(secret: &[u8; 32], message: &[u8]) -> (signature: Vec<u8>)
    ensures
        signature@ == spec_sign(secret@, message@),
        signature@.len() == 64,
        spec_signature_valid(spec_key_did(secret@), message@, signature@),
{
    match agent_id::RootKey::from_bytes(secret) {
        Ok(key) => key.sign(message).to_bytes().to_vec(),
        Err(_) => Vec::new(),
    }
}

/// Parses `did` with `agent_id::Did::from_str`, takes its public key with
/// `agent_id::Did::public_key`, and calls `agent_id::core::keys::verify`.
/// Assumed: the answer depends on the three arguments alone. It is `false`
/// where the DID does not parse or the signature is not 64 bytes long.
#[verifier::external_body]
pub(crate) fn signature_verifies(did: &str, message: &[u8], signature: &[u8]) -> (valid: bool)
    ensures
        valid == spec_signature_valid(did@, message@, signature@),
        valid ==> spec_did_valid(did@) && signature@.len() == 64,
{
    match <agent_id::Did as std::str::FromStr>::from_str(did) {
        Ok(parsed) => match (parsed.public_key(), signature.try_into()) {
            (Ok(public), Ok(signature)) => {
                agent_id::core::keys::verify(&public, message, &signature).is_ok()
            },
            _ => false,
        },
        Err(_) => false,
    }
}

/// The lower-case hexadecimal text of bytes stands for those bytes.
pub proof fn lemma_unhex_hex(bytes: Seq<u8>)
    ensures
        spec_unhex(spec_hex(bytes)) == Some(bytes),
{
    let text = spec_hex(bytes);
    assert forall|n: int| 0 <= n < 16 implies hex_value(#[trigger] hex_digit(n)) == Some(n) by {
        let digits = seq!['0', '1', '2', '3', '4', '5', '6', '7', '8', '9', 'a', 'b', 'c', 'd', 'e', 'f'];
        assert(digits[0] == '0' && digits[1] == '1' && digits[2] == '2' && digits[3] == '3');
        assert(digits[4] == '4' && digits[5] == '5' && digits[6] == '6' && digits[7] == '7');
        assert(digits[8] == '8' && digits[9] == '9' && digits[10] == 'a' && digits[11] == 'b');
        assert(digits[12] == 'c' && digits[13] == 'd' && digits[14] == 'e' && digits[15] == 'f');
    }
    assert forall|i: int| 0 <= i < text.len() implies hex_value(#[trigger] text[i]) is Some by {
        let b = bytes[i / 2] as int;
        if i % 2 == 0 {
            assert(text[i] == hex_digit(b / 16));
        } else {
            assert(text[i] == hex_digit(b % 16));
        }
    }
    assert(is_hex_text(text));
    let back = spec_unhex(text).unwrap();
    assert forall|i: int| 0 <= i < bytes.len() implies back[i] == bytes[i] by {
        let b = bytes[i] as int;
        assert((2 * i) / 2 == i && (2 * i) % 2 == 0);
        assert((2 * i + 1) / 2 == i && (2 * i + 1) % 2 == 1);
        assert(text[2 * i] == hex_digit(b / 16));
        assert(text[2 * i + 1] == hex_digit(b % 16));
        assert(hex_value(hex_digit(b / 16)) == Some(b / 16));
        assert(hex_value(hex_digit(b % 16)) == Some(b % 16));
        assert((b / 16) * 16 + b % 16 == b);
    }
    assert(back =~= bytes);
}

/// Whether the hexadecimal text `signature` stands for a signature of
/// `message` that verifies under `did`.
pub open spec fn spec_signed_by(did: Seq<char>, message: Seq<u8>, signature: Seq<char>) -> bool {
    match spec_unhex(signature) {
        Some(bytes) => spec_signature_valid(did, message, bytes),
        None => false,
    }
}

/// The hexadecimal text of the signature of `message` under `secret`.
pub open spec fn spec_sign_hex(secret: Seq<u8>, message: Seq<u8>) -> Seq<char> {
    spec_hex(spec_sign(secret, message))
}

/// The hexadecimal text of the SHA-256 digest of `data`.
pub open spec fn spec_sha256_hex(data: Seq<u8>) -> Seq<char> {
    spec_hex(spec_sha256(data))
}

/// The SHA-256 digest of `data` in lower-case hexadecimal.
pub fn sha256_hex(data: &[u8]) -> (text: String)
    ensures
        text@ == spec_sha256_hex(data@),
        text@.len() == 64,
{
    let digest = sha256(data);
    hex_encode(digest.as_slice())
}

/// Whether `did` is a well-formed DID.
pub fn is_valid_did(did: &str) -> (valid: bool)
    ensures
        valid == spec_did_valid(did@),
{
    did_parses(did)
}

/// Whether the hexadecimal text `signature` stands for a signature of
/// `message` that verifies under the public key of `did`. A text that is not
/// hexadecimal verifies under no key.
pub fn verify_signature(did: &str, message: &[u8], signature: &str) -> (valid: bool)
    ensures
        valid == spec_signed_by(did@, message@, signature@),
{
    match hex_decode(signature) {
        Some(bytes) => signature_verifies(did, message, bytes.as_slice()),
        None => false,
    }
}

/// `len` fresh random bytes in hexadecimal, or `None` where the generator of
/// the operating system fails. Where no byte is asked for, the generator is
/// not asked either, and the empty token comes back.
pub fn random_token(len: usize) -> (token: Option<String>)
    ensures
        token matches Some(t) ==> t@.len() == 2 * len && exists|bytes: Seq<u8>|
            bytes.len() == len && t@ == #[trigger] spec_hex(bytes),
        len == 0 ==> (token matches Some(t) && t@ == Seq::<char>::empty()),
{
    let token = token_of(random_bytes(len));
    proof {
        if len == 0 {
            assert(token.unwrap()@ =~= Seq::<char>::empty());
        }
    }
    token
}

/// The token that stands for what a draw of bytes gave: the bytes in
/// lower-case hexadecimal, and none where the draw failed.
pub open spec fn spec_token(drawn: Option<Seq<u8>>) -> Option<Seq<char>> {
    match drawn {
        Some(bytes) => Some(spec_hex(bytes)),
        None => None,
    }
}

/// The token that stands for what a draw of bytes gave.
pub fn token_of(drawn: Option<Vec<u8>>) -> (token: Option<String>)
    ensures
        match drawn {
            Some(bytes) => token matches Some(t) && spec_token(Some(bytes@)) == Some(t@),
            None => token is None,
        },
{
    match drawn {
        Some(bytes) => Some(hex_encode(bytes.as_slice())),
        None => None,
    }
}

/// The secret half of an Ed25519 key pair; the DID of its holder is derived
/// from the public half.
pub struct IdentityKey {
    secret: [u8; 32],
}

impl IdentityKey {
    /// The secret bytes.
    pub closed spec fn view(&self) -> Seq<u8> {
        self.secret@
    }

    /// The DID of the holder of this key.
    pub open spec fn spec_did(&self) -> Seq<char> {
        spec_key_did(self@)
    }

    /// The key with the secret bytes `secret`.
    pub fn from_bytes(secret: [u8; 32]) -> (key: Self)
        ensures
            key@ == secret@,
    {
        IdentityKey { secret }
    }

    /// A fresh key: the key of the secret bytes that the generator gave.
    pub fn generate() -> (key: Self) {
        Self::from_bytes(generate_secret())
    }

    /// The secret bytes of this key.
    pub fn to_bytes(&self) -> (secret: [u8; 32])
        ensures
            secret@ == self@,
    {
        self.secret
    }

    /// The DID of the holder of this key.
    pub fn did(&self) -> (did: String)
        ensures
            did@ == self.spec_did(),
            spec_did_valid(did@),
    {
        secret_did(&self.secret)
    }

    /// The signature of `message` under this key, in hexadecimal. It verifies
    /// under the DID of this key.
    pub fn sign(&self, message: &[u8]) -> (signature: String)
        ensures
            signature@ == spec_sign_hex(self@, message@),
            spec_signed_by(self.spec_did(), message@, signature@),
    {
        let bytes = secret_sign(&self.secret, message);
        proof {
            lemma_unhex_hex(bytes@);
        }
        hex_encode(bytes.as_slice())
    }
}

} // verus!
