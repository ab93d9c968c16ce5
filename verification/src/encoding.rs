//! Base64, as the share tokens, handshake nonces and the websocket handshake
//! use it.

use base64::Engine;
use vstd::prelude::*;

verus! {

/// What the URL-safe, unpadded base64 engine's `encode` returns for the bytes.
pub uninterp spec fn base64_url_encode(data: Seq<u8>) -> Seq<char>;

/// What the URL-safe, unpadded base64 engine's `decode` returns for the input
/// bytes: the decoded bytes, or nothing when they are not such base64.
pub uninterp spec fn base64_url_decode(input: Seq<u8>) -> Option<Seq<u8>>;

/// What the standard, padded base64 engine's `encode` returns for the bytes.
pub uninterp spec fn base64_std_encode(data: Seq<u8>) -> Seq<char>;

/// What the standard, padded base64 engine's `decode` returns for the input
/// bytes: the decoded bytes, or nothing when they are not such base64.
pub uninterp spec fn base64_std_decode(input: Seq<u8>) -> Option<Seq<u8>>;

/// Calls `Engine::encode` of `base64::engine::general_purpose::URL_SAFE_NO_PAD`.
/// Trusted: the result is the named encoding.
#[verifier::external_body]
pub(crate) fn url_encode(data: &[u8]) -> (out: String)
    ensures
        out@ == base64_url_encode(data@),
{
    base64::engine::general_purpose::URL_SAFE_NO_PAD.encode(data)
}

/// Calls `Engine::decode` of `base64::engine::general_purpose::URL_SAFE_NO_PAD`.
/// Trusted: the result is the named decoding.
#[verifier::external_body]
pub(crate) fn url_decode(input: &[u8]) -> (out: Option<Vec<u8>>)
    ensures
        out is Some <==> base64_url_decode(input@) is Some,
        out matches Some(v) ==> base64_url_decode(input@) == Some(v@),
{
    base64::engine::general_purpose::URL_SAFE_NO_PAD.decode(input).ok()
}

/// Calls `Engine::encode` of `base64::engine::general_purpose::STANDARD`.
/// Trusted: the result is the named encoding.
#[verifier::external_body]
pub(crate) fn std_encode(data: &[u8]) -> (out: String)
    ensures
        out@ == base64_std_encode(data@),
{
    base64::engine::general_purpose::STANDARD.encode(data)
}

/// Calls `Engine::decode` of `base64::engine::general_purpose::STANDARD`.
/// Trusted: the result is the named decoding.
#[verifier::external_body]
pub(crate) fn std_decode(input: &[u8]) -> (out: Option<Vec<u8>>)
    ensures
        out is Some <==> base64_std_decode(input@) is Some,
        out matches Some(v) ==> base64_std_decode(input@) == Some(v@),
{
    base64::engine::general_purpose::STANDARD.decode(input).ok()
}

} // verus!
