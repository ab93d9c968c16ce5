//! SHA-256, SHA-1 and HKDF-SHA256, as the share secrets, the key schedule and
//! the websocket handshake use them.

use hkdf::Hkdf;
use sha1::Sha1;
use sha2::{Digest, Sha256};
use vstd::prelude::*;

verus! {

/// What `Sha256::digest` returns for the given bytes.
pub uninterp spec fn sha256(data: Seq<u8>) -> Seq<u8>;

/// What `Sha1::digest` returns for the given bytes.
pub uninterp spec fn sha1(data: Seq<u8>) -> Seq<u8>;

/// What HKDF-SHA256 (`Hkdf::<Sha256>::new(Some(salt), ikm)` followed by
/// `expand(info, ..)`) writes into an output of `len` bytes.
pub uninterp spec fn hkdf_sha256(salt: Seq<u8>, ikm: Seq<u8>, info: Seq<u8>, len: nat) -> Seq<u8>;

/// Largest output, in bytes, that HKDF-SHA256 expands to (255 blocks of 32).
pub open spec fn hkdf_sha256_max_len() -> nat {
    8160
}

/// Calls `sha2::Sha256::digest` (trait `digest::Digest`). Trusted: the
/// result is the named digest of the input.
#[verifier::external_body]
pub(crate) fn sha256_digest(data: &[u8]) -> (out: [u8; 32])
    ensures
        out@ == sha256(data@),
{
    Sha256::digest(data).into()
}

/// Calls `sha1::Sha1::digest` (trait `digest::Digest`). Trusted: the result
/// is the named digest of the input.
#[verifier::external_body]
pub(crate) fn sha1_digest(data: &[u8]) -> (out: [u8; 20])
    ensures
        out@ == sha1(data@),
{
    Sha1::digest(data).into()
}

/// Calls `hkdf::Hkdf::<Sha256>::expand` on the extraction of `ikm` under
/// `salt`. Trusted: as the `hkdf` source shows, expansion succeeds exactly
/// when `len` is at most 255 blocks of 32 bytes, and then yields `len` bytes
/// of the named output.
#[verifier::external_body]
pub(crate) fn hkdf_sha256_expand(salt: &[u8], ikm: &[u8], info: &[u8], len: usize) -> (okm: Option<Vec<u8>>)
    ensures
        okm is Some <==> len <= hkdf_sha256_max_len(),
        okm matches Some(v) ==> v@ == hkdf_sha256(salt@, ikm@, info@, len as nat),
        okm matches Some(v) ==> v@.len() == len,
{
    let mut okm = vec![0u8; len];
    match Hkdf::<Sha256>::new(Some(salt), ikm).expand(info, &mut okm) {
        Ok(()) => Some(okm),
        Err(_) => None,
    }
}

} // verus!
