//! Errors of the encrypted record layer and its key schedule.

use vstd::prelude::*;

verus! {

/// Why sealing, opening or deriving keys failed.
#[derive(Debug, Clone, Copy, PartialEq, Eq, Structural)]
pub enum Error {
    /// The frame is shorter than a record or lacks the encrypted-frame marker.
    InvalidFrame,
    /// The frame carries a sequence number other than the one expected next.
    OutOfOrder,
    /// Authenticated decryption rejected the frame.
    DecryptFailed,
    /// Encryption refused the plaintext.
    EncryptFailed,
    /// A record decrypted to no bytes, so it has no kind byte.
    EmptyPlaintext,
    /// A record carried a kind byte that is neither text nor binary.
    UnknownKind(u8),
    /// A text record's body is not valid UTF-8.
    InvalidUtf8,
    /// A handshake nonce is not unpadded URL-safe base64.
    InvalidNonce,
    /// A handshake nonce does not decode to sixteen bytes.
    InvalidNonceLength,
    /// Key derivation refused the requested output length.
    KeyDerivation,
}

} // verus!
