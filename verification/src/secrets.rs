//! Share secrets: token hashes and ids, share ids, pairing codes, and the
//! constant-time comparison of secrets.

use subtle::ConstantTimeEq;
use vstd::prelude::*;

use crate::bytes::concat;
use crate::digest::{sha256, sha256_digest};
use crate::encoding::{base64_url_decode, base64_url_encode, url_decode, url_encode};
use crate::random::random_bytes;
use crate::text::{ascii_chars, ascii_string};
use vstd::utf8::encode_utf8;

verus! {

/// The alphabet of share ids: lower-case letters and the digits 2 to 7.
pub const SHARE_ID_ALPHABET: [u8; 32] = [
    97, 98, 99, 100, 101, 102, 103, 104, 105, 106, 107, 108, 109, 110, 111,
    112, 113, 114, 115, 116, 117, 118, 119, 120, 121, 122, 50, 51, 52, 53,
    54, 55,
];

/// Domain separator hashed in front of a secret hash to form its token id.
pub const TOKEN_ID_DOMAIN: [u8; 16] = [
    114, 109, 117, 120, 45, 116, 111, 107, 101, 110, 45, 105, 100, 45, 118,
    49,
];

/// Failures of the operating system's random source.
#[derive(Debug, Clone, Copy, PartialEq, Eq, Structural)]
pub enum SecretError {
    /// No random bytes could be read.
    RandomUnavailable,
}

/// The SHA-256 hash of a share token.
#[derive(Debug, Clone, Copy, PartialEq, Eq, Hash)]
pub struct SecretHash(pub [u8; 32]);

/// The token id of a secret hash: the unpadded URL-safe base64 of the first
/// sixteen bytes of SHA-256 over the domain separator and the hash.
pub open spec fn spec_token_id(hash: Seq<u8>) -> Seq<char> {
    base64_url_encode(sha256(TOKEN_ID_DOMAIN@ + hash).subrange(0, 16))
}

/// A well-formed token id decodes to sixteen bytes.
pub open spec fn spec_valid_token_id_shape(token_id: Seq<u8>) -> bool {
    match base64_url_decode(token_id) {
        Some(bytes) => bytes.len() == 16,
        None => false,
    }
}

impl SecretHash {
    /// The hash bytes.
    pub open spec fn spec_bytes(self) -> Seq<u8> {
        self.0@
    }

    /// Hashes a share token.
    pub fn from_secret(secret: &str) -> (h: Self)
        ensures
            h.spec_bytes() == sha256(encode_utf8(secret@)),
    {
        SecretHash(sha256_digest(secret.as_bytes()))
    }

    /// The hash bytes.
    pub fn as_bytes(self) -> (b: [u8; 32])
        ensures
            b@ == self.spec_bytes(),
    {
        self.0
    }

    /// The public id of the token whose hash this is; it does not reveal the
    /// hash.
    pub fn token_id(self) -> (id: String)
        ensures
            id@ == spec_token_id(self.spec_bytes()),
    {
        let input = concat(&TOKEN_ID_DOMAIN, &self.0);
        let digest = sha256_digest(input.as_slice());
        let (head, _) = digest.as_slice().split_at(16);
        url_encode(head)
    }
}

/// Whether a token id has the shape of one: unpadded URL-safe base64 of
/// sixteen bytes.
pub fn valid_token_id_shape(token_id: &str) -> (r: bool)
    ensures
        r == spec_valid_token_id_shape(encode_utf8(token_id@)),
{
    match url_decode(token_id.as_bytes()) {
        Some(bytes) => bytes.len() == 16,
        None => false,
    }
}

/// Calls `subtle::ConstantTimeEq::ct_eq` on two byte slices. Trusted: as the
/// `subtle` source shows, the choice is true exactly when the slices have the
/// same length and the same bytes.
#[verifier::external_body]
fn ct_eq_bytes(left: &[u8], right: &[u8]) -> (r: bool)
    ensures
        r == (left@ == right@),
{
    bool::from(left.ct_eq(right))
}

/// Compares two secrets in time that depends on their lengths only.
pub fn secret_eq(left: &str, right: &str) -> (r: bool)
    ensures
        r == (left@ == right@),
{
    proof {
        vstd::utf8::encode_utf8_decode_utf8(left@);
        vstd::utf8::encode_utf8_decode_utf8(right@);
    }
    let left = left.as_bytes();
    let right = right.as_bytes();
    left.len() == right.len() && ct_eq_bytes(left, right)
}

/// The 40-bit value of five random bytes, most significant first.
pub open spec fn share_id_value(b: Seq<u8>) -> u64 {
    ((b[0] as u64) << 32u64) | ((b[1] as u64) << 24u64) | ((b[2] as u64) << 16u64) | ((
    b[3] as u64) << 8u64) | (b[4] as u64)
}

/// The share id of five random bytes: their 40 bits in eight groups of five,
/// most significant first, each spelled by the share-id alphabet.
pub open spec fn spec_share_id(b: Seq<u8>) -> Seq<u8> {
    Seq::new(8, |k: int| SHARE_ID_ALPHABET@[((share_id_value(b) >> ((35 - 5 * k) as u64)) & 0x1f) as int])
}

/// Spells five random bytes as a share id.
pub fn share_id_from_bytes(bytes: &[u8]) -> (id: String)
    requires
        bytes@.len() == 5,
    ensures
        id@ == ascii_chars(spec_share_id(bytes@)),
{
    let value: u64 = ((bytes[0] as u64) << 32u64) | ((bytes[1] as u64) << 24u64) | ((
    bytes[2] as u64) << 16u64) | ((bytes[3] as u64) << 8u64) | (bytes[4] as u64);
    let mut out: Vec<u8> = Vec::with_capacity(8);
    let mut k: usize = 0;
    while k < 8
        invariant
            k <= 8,
            value == share_id_value(bytes@),
            out@.len() == k,
            forall|j: int| 0 <= j < k ==> out@[j] == spec_share_id(bytes@)[j],
        decreases 8 - k,
    {
        let shift: u64 = 35 - 5 * (k as u64);
        let index = ((value >> shift) & 0x1f) as usize;
        assert(((value >> shift) & 0x1f) < 32) by (bit_vector);
        out.push(SHARE_ID_ALPHABET[index]);
        k = k + 1;
    }
    assert(out@ =~= spec_share_id(bytes@));
    assert forall|i: int| 0 <= i < out@.len() implies #[trigger] out@[i] < 0x80 by {
        let idx = ((share_id_value(bytes@) >> ((35 - 5 * i) as u64)) & 0x1f) as int;
        assert(0 <= idx < 32) by {
            let v = share_id_value(bytes@);
            let s = (35 - 5 * i) as u64;
            assert((v >> s) & 0x1f < 32) by (bit_vector);
        }
    }
    ascii_string(out.as_slice())
}

/// A fresh random share id of eight characters.
pub fn random_share_id() -> (res: Result<String, SecretError>)
    ensures
        res matches Ok(id) ==> exists|b: Seq<u8>|
            b.len() == 5 && id@ == ascii_chars(#[trigger] spec_share_id(b)),
{
    match random_bytes(5) {
        Some(bytes) => {
            let id = share_id_from_bytes(bytes.as_slice());
            assert(id@ == ascii_chars(spec_share_id(bytes@)));
            Ok(id)
        },
        None => Err(SecretError::RandomUnavailable),
    }
}

/// Powers of ten as `u32`.
pub open spec fn pow10(k: nat) -> nat
    decreases k,
{
    if k == 0 {
        1
    } else {
        10 * pow10((k - 1) as nat)
    }
}

/// The six decimal digits of `n`, zero-padded, most significant first.
pub open spec fn six_digits(n: u32) -> Seq<u8> {
    Seq::new(6, |k: int| (48 + (n as nat / pow10((5 - k) as nat)) % 10) as u8)
}

/// The pairing-code value of three random bytes, most significant first.
pub open spec fn pairing_value(b: Seq<u8>) -> u32 {
    ((b[0] as u32) << 16u32) | ((b[1] as u32) << 8u32) | (b[2] as u32)
}

/// The pairing code that three random bytes give: none when their value is
/// at least 16,000,000 (so that each code is equally likely), else the six
/// digits of the value modulo 1,000,000.
pub open spec fn spec_pairing_code(b: Seq<u8>) -> Option<Seq<u8>> {
    if pairing_value(b) < 16_000_000 {
        Some(six_digits((pairing_value(b) % 1_000_000) as u32))
    } else {
        None
    }
}

/// Writes `n` as six zero-padded decimal digits.
pub fn six_digit_string(n: u32) -> (s: String)
    requires
        n < 1_000_000,
    ensures
        s@ == ascii_chars(six_digits(n)),
{
    let mut digits: Vec<u8> = Vec::with_capacity(6);
    let mut divisor: u32 = 100_000;
    let mut k: usize = 0;
    proof {
        reveal_with_fuel(pow10, 6);
    }
    while k < 6
        invariant
            k <= 6,
            digits@.len() == k,
            divisor as nat == pow10((5 - k) as nat) || (k == 6 && divisor == 0),
            forall|j: int| 0 <= j < k ==> digits@[j] == six_digits(n)[j],
            pow10(0) == 1,
            pow10(1) == 10,
            pow10(2) == 100,
            pow10(3) == 1000,
            pow10(4) == 10000,
            pow10(5) == 100000,
        decreases 6 - k,
    {
        let d = ((n / divisor) % 10) as u8;
        digits.push(48 + d);
        k = k + 1;
        divisor = divisor / 10;
        assert(divisor as nat == pow10((5 - k) as nat) || (k == 6 && divisor == 0));
    }
    assert(digits@ =~= six_digits(n));
    assert forall|i: int| 0 <= i < digits@.len() implies #[trigger] digits@[i] < 0x80 by {}
    ascii_string(digits.as_slice())
}

/// Reads a pairing code from three random bytes.
pub fn pairing_code_from_bytes(bytes: &[u8]) -> (code: Option<String>)
    requires
        bytes@.len() == 3,
    ensures
        code is Some <==> spec_pairing_code(bytes@) is Some,
        code matches Some(c) ==> c@ == ascii_chars(spec_pairing_code(bytes@).unwrap()),
{
    let value: u32 = ((bytes[0] as u32) << 16u32) | ((bytes[1] as u32) << 8u32) | (bytes[2] as u32);
    if value < 16_000_000 {
        Some(six_digit_string(value % 1_000_000))
    } else {
        None
    }
}

/// A fresh random six-digit pairing code, drawn uniformly by rejecting
/// random values of 16,000,000 and above.
pub fn random_pairing_code() -> (res: Result<String, SecretError>)
    ensures
        res matches Ok(code) ==> exists|n: u32| n < 1_000_000 && code@ == ascii_chars(#[trigger] six_digits(n)),
{
    let mut attempts: u64 = u64::MAX;
    loop
        decreases attempts,
    {
        let bytes = match random_bytes(3) {
            Some(bytes) => bytes,
            None => return Err(SecretError::RandomUnavailable),
        };
        if let Some(code) = pairing_code_from_bytes(bytes.as_slice()) {
            proof {
                let n = (pairing_value(bytes@) % 1_000_000) as u32;
                assert(code@ == ascii_chars(six_digits(n)));
            }
            return Ok(code);
        }
        if attempts == 0 {
            return Err(SecretError::RandomUnavailable);
        }
        attempts = attempts - 1;
    }
}

/// A fresh random share token: 32 random bytes in unpadded URL-safe base64.
pub fn random_token() -> (res: Result<String, SecretError>)
    ensures
        res matches Ok(t) ==> exists|b: Seq<u8>| b.len() == 32 && t@ == #[trigger] base64_url_encode(b),
{
    match random_bytes(32) {
        Some(bytes) => Ok(url_encode(bytes.as_slice())),
        None => Err(SecretError::RandomUnavailable),
    }
}

} // verus!
