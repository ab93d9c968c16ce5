//! AES-256-GCM as the record layer uses it: a 32-byte key, a 12-byte nonce,
//! additional authenticated data and a 16-byte tag appended to the ciphertext.

use aes_gcm::aead::{Aead, Payload};
use aes_gcm::{Aes256Gcm, Key, KeyInit, Nonce};
use vstd::prelude::*;

verus! {

/// Largest plaintext, in bytes, that AES-GCM encrypts.
pub open spec fn aead_plaintext_max() -> int {
    0x10_0000_0000
}

/// Largest additional authenticated data, in bytes, that AES-GCM accepts.
pub open spec fn aead_aad_max() -> int {
    0x10_0000_0000
}

/// What `Aes256Gcm::encrypt` returns for a key, nonce, additional data and
/// plaintext: the ciphertext followed by the tag.
pub uninterp spec fn aes256gcm_seal(key: Seq<u8>, nonce: Seq<u8>, aad: Seq<u8>, msg: Seq<u8>) -> Seq<u8>;

/// What `Aes256Gcm::decrypt` returns for a key, nonce, additional data and
/// ciphertext: the plaintext, or nothing when authentication fails.
pub uninterp spec fn aes256gcm_open(key: Seq<u8>, nonce: Seq<u8>, aad: Seq<u8>, ct: Seq<u8>) -> Option<Seq<u8>>;

/// Calls `aes_gcm::Aes256Gcm::encrypt` (trait `aead::Aead`) under `key`.
/// Trusted: the call succeeds exactly when the plaintext and the additional
/// data are within AES-GCM's limits (`aes-gcm` checks `P_MAX` and `A_MAX`,
/// both 2^36); the result is the named seal and is the plaintext's length plus
/// the 16-byte tag.
#[verifier::external_body]
pub(crate) fn aes256gcm_encrypt(key: &[u8; 32], nonce: &[u8; 12], aad: &[u8], msg: &[u8]) -> (res: Option<Vec<u8>>)
    ensures
        res is Some <==> (msg@.len() <= aead_plaintext_max() && aad@.len() <= aead_aad_max()),
        res matches Some(ct) ==> ct@ == aes256gcm_seal(key@, nonce@, aad@, msg@),
        res matches Some(ct) ==> ct@.len() == msg@.len() + 16,
{
    let cipher = Aes256Gcm::new(Key::<Aes256Gcm>::from_slice(key));
    cipher.encrypt(Nonce::from_slice(nonce), Payload { msg, aad }).ok()
}

/// The bytes held by an optional vector.
pub open spec fn bytes_opt_view(v: Option<Vec<u8>>) -> Option<Seq<u8>> {
    match v {
        Some(b) => Some(b@),
        None => None,
    }
}

/// `opened` is what any ciphertext sealed by this key, nonce and additional
/// data from a plaintext within the limits must open to: that plaintext.
pub open spec fn opens_every_seal(
    key: Seq<u8>,
    nonce: Seq<u8>,
    aad: Seq<u8>,
    ct: Seq<u8>,
    opened: Option<Seq<u8>>,
) -> bool {
    forall|m: Seq<u8>|
        m.len() <= aead_plaintext_max() && aad.len() <= aead_aad_max() && ct
            == #[trigger] aes256gcm_seal(key, nonce, aad, m) ==> opened == Some(m)
}

/// Calls `aes_gcm::Aes256Gcm::decrypt` (trait `aead::Aead`) under `key`.
/// Trusted: the result is the named opening; and, as for any AEAD, a
/// ciphertext that this key, nonce and additional data sealed from a
/// plaintext within the limits opens to that plaintext.
#[verifier::external_body]
pub(crate) fn aes256gcm_decrypt(key: &[u8; 32], nonce: &[u8; 12], aad: &[u8], ct: &[u8]) -> (res: Option<Vec<u8>>)
    ensures
        res is Some <==> aes256gcm_open(key@, nonce@, aad@, ct@) is Some,
        res matches Some(p) ==> aes256gcm_open(key@, nonce@, aad@, ct@) == Some(p@),
        opens_every_seal(key@, nonce@, aad@, ct@, bytes_opt_view(res)),
{
    let cipher = Aes256Gcm::new(Key::<Aes256Gcm>::from_slice(key));
    cipher.decrypt(Nonce::from_slice(nonce), Payload { msg: ct, aad }).ok()
}

} // verus!
