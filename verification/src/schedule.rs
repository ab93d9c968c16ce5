//! The key schedule of a web-share session: both ends derive, from the token's
//! secret hash, the token id and the two handshake nonces, one key and one
//! nonce prefix per direction.

use vstd::prelude::*;
use vstd::utf8::encode_utf8;

use crate::bytes::{concat, push_all};
use crate::digest::{hkdf_sha256, hkdf_sha256_expand};
use crate::encoding::{base64_url_decode, url_decode};
use crate::error::Error;
use crate::framing::{Opener, Sealer};
use crate::record::{RecordOpener, RecordSealer};
use crate::secrets::SecretHash;

verus! {

/// The client-to-server direction label.
pub const CLIENT_DIRECTION: [u8; 3] = [99, 50, 115];

/// The server-to-client direction label.
pub const SERVER_DIRECTION: [u8; 3] = [115, 50, 99];

/// HKDF info prefix of a direction's key: `rmux web-share e2ee v1 key `.
pub const KEY_INFO_PREFIX: [u8; 27] = [
    114, 109, 117, 120, 32, 119, 101, 98, 45, 115, 104, 97, 114, 101, 32, 101, 50, 101, 101, 32,
    118, 49, 32, 107, 101, 121, 32,
];

/// HKDF info prefix of a direction's nonce prefix: `rmux web-share e2ee v1 nonce `.
pub const NONCE_INFO_PREFIX: [u8; 29] = [
    114, 109, 117, 120, 32, 119, 101, 98, 45, 115, 104, 97, 114, 101, 32, 101, 50, 101, 101, 32,
    118, 49, 32, 110, 111, 110, 99, 101, 32,
];

/// What a handshake nonce decodes to: sixteen bytes of unpadded URL-safe
/// base64, or the reason it is not.
pub open spec fn spec_decode_nonce(nonce: Seq<u8>) -> Result<Seq<u8>, Error> {
    match base64_url_decode(nonce) {
        None => Err(Error::InvalidNonce),
        Some(bytes) => if bytes.len() == 16 {
            Ok(bytes)
        } else {
            Err(Error::InvalidNonceLength)
        },
    }
}

/// The HKDF salt of a session: the token id's bytes followed by the decoded
/// client and server nonces.
pub open spec fn spec_session_salt(token_id: Seq<char>, client_nonce: Seq<u8>, server_nonce: Seq<u8>) -> Seq<u8> {
    encode_utf8(token_id) + client_nonce + server_nonce
}

/// The key of a direction.
pub open spec fn direction_key(secret: Seq<u8>, salt: Seq<u8>, direction: Seq<u8>) -> Seq<u8> {
    hkdf_sha256(salt, secret, KEY_INFO_PREFIX@ + direction, 32)
}

/// The nonce prefix of a direction.
pub open spec fn direction_nonce_prefix(secret: Seq<u8>, salt: Seq<u8>, direction: Seq<u8>) -> Seq<u8> {
    hkdf_sha256(salt, secret, NONCE_INFO_PREFIX@ + direction, 4)
}

/// Joins an HKDF info prefix and a direction label.
pub fn direction_info(prefix: &[u8], direction: &[u8]) -> (info: Vec<u8>)
    ensures
        info@ == prefix@ + direction@,
{
    concat(prefix, direction)
}

/// Decodes a handshake nonce.
pub fn decode_nonce(nonce: &str) -> (res: Result<Vec<u8>, Error>)
    ensures
        match res {
            Ok(v) => spec_decode_nonce(encode_utf8(nonce@)) == Ok::<Seq<u8>, Error>(v@),
            Err(e) => spec_decode_nonce(encode_utf8(nonce@)) == Err::<Seq<u8>, Error>(e),
        },
{
    match url_decode(nonce.as_bytes()) {
        None => Err(Error::InvalidNonce),
        Some(decoded) => if decoded.len() != 16 {
            Err(Error::InvalidNonceLength)
        } else {
            Ok(decoded)
        },
    }
}

/// The secret and salt from which a session's direction keys are expanded.
pub struct SessionMaterial {
    secret: [u8; 32],
    salt: Vec<u8>,
}

impl SessionMaterial {
    /// The token's secret hash.
    pub closed spec fn secret(&self) -> Seq<u8> {
        self.secret@
    }

    /// The session salt.
    pub closed spec fn salt(&self) -> Seq<u8> {
        self.salt@
    }

    /// Gathers the session material; fails when either nonce is not sixteen
    /// bytes of unpadded URL-safe base64 (the client nonce is checked first).
    pub fn derive(secret: SecretHash, token_id: &str, client_nonce: &str, server_nonce: &str) -> (res: Result<Self, Error>)
        ensures
            match (
                spec_decode_nonce(encode_utf8(client_nonce@)),
                spec_decode_nonce(encode_utf8(server_nonce@)),
            ) {
                (Ok(c), Ok(s)) => res matches Ok(m) && m.secret() == secret.spec_bytes() && m.salt()
                    == spec_session_salt(token_id@, c, s),
                (Err(e), _) => res == Err::<Self, Error>(e),
                (Ok(_), Err(e)) => res == Err::<Self, Error>(e),
            },
    {
        let mut salt: Vec<u8> = Vec::new();
        push_all(&mut salt, token_id.as_bytes());
        let client = decode_nonce(client_nonce)?;
        let server = decode_nonce(server_nonce)?;
        push_all(&mut salt, client.as_slice());
        push_all(&mut salt, server.as_slice());
        Ok(SessionMaterial { secret: secret.as_bytes(), salt })
    }

    /// Expands a direction's key and nonce prefix.
    fn derive_direction(&self, direction: &[u8]) -> (res: ([u8; 32], [u8; 4]))
        ensures
            res.0@ == direction_key(self.secret(), self.salt(), direction@),
            res.1@ == direction_nonce_prefix(self.secret(), self.salt(), direction@),
    {
        let key_info = direction_info(&KEY_INFO_PREFIX, direction);
        let nonce_info = direction_info(&NONCE_INFO_PREFIX, direction);
        let key = hkdf_sha256_expand(self.salt.as_slice(), &self.secret, key_info.as_slice(), 32);
        let prefix = hkdf_sha256_expand(self.salt.as_slice(), &self.secret, nonce_info.as_slice(), 4);
        let key = key.unwrap();
        let prefix = prefix.unwrap();
        let k = [
            key[0], key[1], key[2], key[3], key[4], key[5], key[6], key[7], key[8], key[9], key[10],
            key[11], key[12], key[13], key[14], key[15], key[16], key[17], key[18], key[19], key[20],
            key[21], key[22], key[23], key[24], key[25], key[26], key[27], key[28], key[29], key[30],
            key[31],
        ];
        let p = [prefix[0], prefix[1], prefix[2], prefix[3]];
        assert(k@ =~= key@);
        assert(p@ =~= prefix@);
        (k, p)
    }

    /// The record sealer of a direction, numbering from zero.
    pub fn sealer(&self, direction: &[u8]) -> (s: Sealer)
        ensures
            s.records().key() == direction_key(self.secret(), self.salt(), direction@),
            s.records().prefix() == direction_nonce_prefix(self.secret(), self.salt(), direction@),
            s.records().seq() == 0,
    {
        let (key, prefix) = self.derive_direction(direction);
        Sealer::new(RecordSealer::new(key, prefix))
    }

    /// The record opener of a direction, expecting record zero first.
    pub fn opener(&self, direction: &[u8]) -> (o: Opener)
        ensures
            o.records().key() == direction_key(self.secret(), self.salt(), direction@),
            o.records().prefix() == direction_nonce_prefix(self.secret(), self.salt(), direction@),
            o.records().seq() == 0,
    {
        let (key, prefix) = self.derive_direction(direction);
        Opener::new(RecordOpener::new(key, prefix))
    }
}

/// The server's ends of a session: it opens what the client sends and seals
/// what it sends back.
pub fn derive_server_crypto(secret: SecretHash, token_id: &str, client_nonce: &str, server_nonce: &str) -> (res: Result<(Opener, Sealer), Error>)
    ensures
        match (
            spec_decode_nonce(encode_utf8(client_nonce@)),
            spec_decode_nonce(encode_utf8(server_nonce@)),
        ) {
            (Ok(c), Ok(s)) => res matches Ok(pair) && {
                let salt = spec_session_salt(token_id@, c, s);
                &&& pair.0.records().key() == direction_key(secret.spec_bytes(), salt, CLIENT_DIRECTION@)
                &&& pair.0.records().prefix() == direction_nonce_prefix(secret.spec_bytes(), salt, CLIENT_DIRECTION@)
                &&& pair.0.records().seq() == 0
                &&& pair.1.records().key() == direction_key(secret.spec_bytes(), salt, SERVER_DIRECTION@)
                &&& pair.1.records().prefix() == direction_nonce_prefix(secret.spec_bytes(), salt, SERVER_DIRECTION@)
                &&& pair.1.records().seq() == 0
            },
            (Err(e), _) => res matches Err(x) && x == e,
            (Ok(_), Err(e)) => res matches Err(x) && x == e,
        },
{
    let material = SessionMaterial::derive(secret, token_id, client_nonce, server_nonce)?;
    Ok((material.opener(&CLIENT_DIRECTION), material.sealer(&SERVER_DIRECTION)))
}

/// The client's ends of a session: it opens what the server sends and seals
/// what it sends.
pub fn derive_client_crypto(secret: SecretHash, token_id: &str, client_nonce: &str, server_nonce: &str) -> (res: Result<(Opener, Sealer), Error>)
    ensures
        match (
            spec_decode_nonce(encode_utf8(client_nonce@)),
            spec_decode_nonce(encode_utf8(server_nonce@)),
        ) {
            (Ok(c), Ok(s)) => res matches Ok(pair) && {
                let salt = spec_session_salt(token_id@, c, s);
                &&& pair.0.records().key() == direction_key(secret.spec_bytes(), salt, SERVER_DIRECTION@)
                &&& pair.0.records().prefix() == direction_nonce_prefix(secret.spec_bytes(), salt, SERVER_DIRECTION@)
                &&& pair.0.records().seq() == 0
                &&& pair.1.records().key() == direction_key(secret.spec_bytes(), salt, CLIENT_DIRECTION@)
                &&& pair.1.records().prefix() == direction_nonce_prefix(secret.spec_bytes(), salt, CLIENT_DIRECTION@)
                &&& pair.1.records().seq() == 0
            },
            (Err(e), _) => res matches Err(x) && x == e,
            (Ok(_), Err(e)) => res matches Err(x) && x == e,
        },
{
    let material = SessionMaterial::derive(secret, token_id, client_nonce, server_nonce)?;
    Ok((material.opener(&SERVER_DIRECTION), material.sealer(&CLIENT_DIRECTION)))
}

} // verus!
