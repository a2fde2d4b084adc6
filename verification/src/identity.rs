//! Reading a secret key from its text.
//!
//! A stored identity holds the 32 bytes of the secret key in hexadecimal or
//! in base64. Both are read here; where the file lies and what else it holds
//! is left to the program.

use crate::crypto::{hex_decode, hex_encode, spec_hex, spec_unhex, IdentityKey};
use vstd::prelude::*;

verus! {

/// The bytes that a base64 text stands for, in the standard alphabet with
/// padding, where it is one.
pub uninterp spec fn spec_base64_decode(text: Seq<char>) -> Option<Seq<u8>>;

/// Calls `base64::Engine::decode` of `base64::engine::general_purpose::STANDARD`.
/// Assumed: the outcome depends on the text alone.
#[verifier::external_body]
pub(crate) fn base64_decode(text: &str) -> (bytes: Option<Vec<u8>>)
    ensures
        match bytes {
            Some(b) => spec_base64_decode(text@) == Some(b@),
            None => spec_base64_decode(text@) is None,
        },
{
    base64::Engine::decode(&base64::engine::general_purpose::STANDARD, text).ok()
}

/// Why a text is not a secret key.
#[derive(Debug, Clone, Copy, PartialEq, Eq, Structural)]
pub enum IdentityError {
    /// The text is not of the encoding that was expected.
    InvalidEncoding,
    /// The text stands for more or fewer than 32 bytes.
    InvalidLength,
}

/// The secret that decoded bytes stand for: the bytes, where there are 32.
pub open spec fn spec_secret(decoded: Option<Seq<u8>>) -> Result<Seq<u8>, IdentityError> {
    match decoded {
        None => Err(IdentityError::InvalidEncoding),
        Some(bytes) => if bytes.len() == 32 {
            Ok(bytes)
        } else {
            Err(IdentityError::InvalidLength)
        },
    }
}

/// The outcome of reading a key, with the key by its secret bytes.
pub open spec fn key_outcome(r: Result<IdentityKey, IdentityError>) -> Result<
    Seq<u8>,
    IdentityError,
> {
    match r {
        Ok(key) => Ok(key@),
        Err(e) => Err(e),
    }
}

/// The key whose secret is `bytes`, where there are 32 of them.
pub fn key_from_slice(bytes: &Vec<u8>) -> (r: Result<IdentityKey, IdentityError>)
    ensures
        key_outcome(r) == spec_secret(Some(bytes@)),
{
    if bytes.len() != 32 {
        return Err(IdentityError::InvalidLength);
    }
    let mut secret: [u8; 32] = [0u8; 32];
    let mut i: usize = 0;
    while i < 32
        invariant
            i <= 32,
            bytes@.len() == 32,
            forall|j: int| 0 <= j < i ==> secret@[j] == bytes@[j],
        decreases 32 - i,
    {
        secret.set(i, bytes[i]);
        i += 1;
    }
    assert(secret@ =~= bytes@);
    Ok(IdentityKey::from_bytes(secret))
}

/// The key that the hexadecimal text `text` stands for.
pub fn key_from_hex(text: &str) -> (r: Result<IdentityKey, IdentityError>)
    ensures
        key_outcome(r) == spec_secret(spec_unhex(text@)),
{
    match hex_decode(text) {
        None => Err(IdentityError::InvalidEncoding),
        Some(bytes) => key_from_slice(&bytes),
    }
}

/// The key that the base64 text `text` stands for.
pub fn key_from_base64(text: &str) -> (r: Result<IdentityKey, IdentityError>)
    ensures
        key_outcome(r) == spec_secret(spec_base64_decode(text@)),
{
    match base64_decode(text) {
        None => Err(IdentityError::InvalidEncoding),
        Some(bytes) => key_from_slice(&bytes),
    }
}

/// The secret of `key` in lower-case hexadecimal. `key_from_hex` reads the
/// key back from it.
pub fn key_to_hex(key: &IdentityKey) -> (text: String)
    ensures
        text@ == spec_hex(key@),
        spec_secret(spec_unhex(text@)) == Ok::<Seq<u8>, IdentityError>(key@),
{
    let secret = key.to_bytes();
    proof {
        crate::crypto::lemma_unhex_hex(secret@);
    }
    hex_encode(secret.as_slice())
}

} // verus!
