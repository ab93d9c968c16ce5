//! Operating-system randomness.

use vstd::prelude::*;

verus! {

/// Calls `getrandom::fill` on a fresh buffer of `len` bytes. Trusted only for
/// the length: the bytes are whatever the operating system supplied, and
/// `None` means it supplied none.
#[verifier::external_body]
pub(crate) fn random_bytes(len: usize) -> (out: Option<Vec<u8>>)
    ensures
        out matches Some(v) ==> v@.len() == len,
{
    let mut buf = vec![0u8; len];
    match getrandom::fill(&mut buf) {
        Ok(()) => Some(buf),
        Err(_) => None,
    }
}

} // verus!
