//! The end-to-end encryption handshake of a web-share connection: the
//! client's hello, the server's nonce, the first encrypted frame that carries
//! the authentication message, and the messages read once encryption is on.

use vstd::prelude::*;
use vstd::utf8::encode_utf8;

use crate::ansi::str_eq;
use crate::encoding::{base64_url_encode, url_encode};
use crate::error::Error;
use crate::framing::{open_message, Message, MessageView, Opener};
use crate::record::{next_seq_after, open_record};
use crate::protocol::{CloseReason, WEB_SHARE_PROTOCOL_VERSION};
use crate::random::random_bytes;
use crate::schedule::{decode_nonce, spec_decode_nonce};
use crate::secrets::{spec_valid_token_id_shape, valid_token_id_shape, SecretError};
use crate::websocket::WebSocketMessage;

verus! {

/// The capability a client announces to speak the encrypted protocol.
pub const E2EE_CAPABILITY: &'static str = "e2ee-token-auth";

/// The hello a client sends first, as its JSON fields read.
#[derive(Debug, Clone, PartialEq, Eq)]
pub struct ClientHelloWire {
    pub kind: String,
    pub protocol_version: u16,
    pub capabilities: Vec<String>,
    pub token_id: String,
    pub client_nonce: String,
}

/// An accepted hello: the token it names and the client's nonce.
#[derive(Debug, Clone, PartialEq, Eq)]
pub struct ClientHello {
    pub token_id: String,
    pub client_nonce: String,
}

/// The authentication message, as its JSON fields read.
#[derive(Debug, Clone, PartialEq, Eq)]
pub struct AuthWireMessage {
    pub kind: String,
    pub protocol_version: u16,
    pub capabilities: Vec<String>,
    pub pin: Option<String>,
}

/// An accepted authentication message: the pairing code it carries, if any.
#[derive(Debug, Clone, PartialEq, Eq)]
pub struct AuthMessage {
    pub pin: Option<String>,
}

/// Whether a list of capabilities announces the encrypted protocol.
pub open spec fn announces_e2ee(capabilities: Seq<String>) -> bool {
    exists|i: int| 0 <= i < capabilities.len() && #[trigger] capabilities[i]@ == "e2ee-token-auth"@
}

/// Whether a hello is acceptable for a protocol version: a `hello` of that
/// version, announcing the encrypted protocol, with a token id of the right
/// shape and a client nonce that decodes.
pub open spec fn spec_hello_accepted(hello: ClientHelloWire, protocol_version: u16) -> bool {
    &&& hello.kind@ == "hello"@
    &&& hello.protocol_version == protocol_version
    &&& announces_e2ee(hello.capabilities@)
    &&& spec_valid_token_id_shape(encode_utf8(hello.token_id@))
    &&& spec_decode_nonce(encode_utf8(hello.client_nonce@)) is Ok
}

/// Scans the capabilities for the encrypted protocol's.
fn has_e2ee_capability(capabilities: &Vec<String>) -> (r: bool)
    ensures
        r == announces_e2ee(capabilities@),
{
    let mut i: usize = 0;
    while i < capabilities.len()
        invariant
            i <= capabilities@.len(),
            forall|j: int| 0 <= j < i ==> #[trigger] capabilities@[j]@ != "e2ee-token-auth"@,
        decreases capabilities@.len() - i,
    {
        if str_eq(capabilities[i].as_str(), E2EE_CAPABILITY) {
            return true;
        }
        i = i + 1;
    }
    false
}

/// Checks a client's hello; anything but an acceptable hello is refused.
pub fn parse_client_hello(hello: ClientHelloWire, protocol_version: u16) -> (r: Result<ClientHello, ()>)
    ensures
        r is Ok <==> spec_hello_accepted(hello, protocol_version),
        r matches Ok(h) ==> h.token_id@ == hello.token_id@ && h.client_nonce@ == hello.client_nonce@,
{
    if !str_eq(hello.kind.as_str(), "hello") || hello.protocol_version != protocol_version {
        return Err(());
    }
    if !has_e2ee_capability(&hello.capabilities) {
        return Err(());
    }
    if !valid_token_id_shape(hello.token_id.as_str()) || decode_nonce(hello.client_nonce.as_str()).is_err() {
        return Err(());
    }
    Ok(ClientHello { token_id: hello.token_id, client_nonce: hello.client_nonce })
}

/// What checking an authentication message gives: the pairing code, or the
/// close code and reason for the first thing wrong with it.
pub open spec fn spec_check_auth(wire: AuthWireMessage) -> Result<Option<String>, (u16, Seq<char>)> {
    if wire.kind@ != "auth"@ {
        Err((4006, "first_frame_must_auth"@))
    } else if wire.protocol_version != WEB_SHARE_PROTOCOL_VERSION {
        Err((4006, "protocol_version_mismatch"@))
    } else if !announces_e2ee(wire.capabilities@) {
        Err((4006, "missing_e2ee_capability"@))
    } else {
        Ok(wire.pin)
    }
}

/// Checks the authentication message of the current protocol version.
pub fn check_auth_message(wire: AuthWireMessage) -> (r: Result<AuthMessage, CloseReason>)
    ensures
        match r {
            Ok(m) => spec_check_auth(wire) == Ok::<Option<String>, (u16, Seq<char>)>(m.pin),
            Err((code, reason)) => spec_check_auth(wire) == Err::<Option<String>, (u16, Seq<char>)>(
                (code, reason@),
            ),
        },
{
    if !str_eq(wire.kind.as_str(), "auth") {
        return Err((4006, "first_frame_must_auth"));
    }
    if wire.protocol_version != WEB_SHARE_PROTOCOL_VERSION {
        return Err((4006, "protocol_version_mismatch"));
    }
    if !has_e2ee_capability(&wire.capabilities) {
        return Err((4006, "missing_e2ee_capability"));
    }
    Ok(AuthMessage { pin: wire.pin })
}

/// The text of the client's hello: it must come as a text message.
pub fn hello_text(message: WebSocketMessage) -> (r: Result<String, CloseReason>)
    ensures
        match message {
            WebSocketMessage::Text(t) => r matches Ok(s) && s@ == t@,
            _ => r matches Err((code, reason)) && code == 4006 && reason@ == "hello_must_be_text"@,
        },
{
    match message {
        WebSocketMessage::Text(text) => Ok(text),
        _ => Err((4006, "hello_must_be_text")),
    }
}

/// What opening the first encrypted frame gives, from what the frame opened
/// to: the text it carries, or the close code and reason when it does not
/// open or does not hold text.
pub open spec fn spec_auth_text(opened: Result<MessageView, Error>) -> Result<Seq<char>, (u16, Seq<char>)> {
    match opened {
        Err(_) => Err((4006, "invalid_encrypted_auth"@)),
        Ok(MessageView::Binary(_)) => Err((4006, "auth_must_be_text"@)),
        Ok(MessageView::Text(t)) => Ok(t),
    }
}

/// The opener after it was handed `frame`: same key and prefix, and the
/// expected record number advanced exactly when the record opened.
pub open spec fn opener_after(before: Opener, frame: Seq<u8>, after: Opener) -> bool {
    &&& after.records().key() == before.records().key()
    &&& after.records().prefix() == before.records().prefix()
    &&& after.records().seq() == if open_record(
        before.records().key(),
        before.records().prefix(),
        before.records().seq(),
        frame,
    ) is Ok {
        next_seq_after(before.records().seq())
    } else {
        before.records().seq()
    }
}

/// What `frame` opens to under `opener`.
pub open spec fn opened_by(opener: Opener, frame: Seq<u8>) -> Result<MessageView, Error> {
    open_message(opener.records().key(), opener.records().prefix(), opener.records().seq(), frame)
}

/// Opens the first frame after the challenge, which must carry the
/// authentication message as encrypted text.
pub fn open_auth_text(opener: &mut Opener, message: WebSocketMessage) -> (r: Result<String, CloseReason>)
    ensures
        match message {
            WebSocketMessage::Binary(frame) => {
                &&& opener_after(*old(opener), frame@, *final(opener))
                &&& match r {
                    Ok(s) => spec_auth_text(opened_by(*old(opener), frame@)) == Ok::<
                        Seq<char>,
                        (u16, Seq<char>),
                    >(s@),
                    Err((code, reason)) => spec_auth_text(opened_by(*old(opener), frame@))
                        == Err::<Seq<char>, (u16, Seq<char>)>((code, reason@)),
                }
            },
            _ => {
                &&& *final(opener) == *old(opener)
                &&& r matches Err((code, reason)) && code == 4006 && reason@ == "auth_must_be_encrypted"@
            },
        },
{
    match message {
        WebSocketMessage::Binary(frame) => match opener.open(frame.as_slice()) {
            Ok(Message::Text(text)) => Ok(text),
            Ok(Message::Binary(_)) => Err((4006, "auth_must_be_text")),
            Err(_) => Err((4006, "invalid_encrypted_auth")),
        },
        _ => Err((4006, "auth_must_be_encrypted")),
    }
}

/// Why a message read after the handshake is refused.
#[derive(Debug, Clone, Copy, PartialEq, Eq, Structural)]
pub enum IncomingError {
    /// A binary frame did not open.
    Open(Error),
    /// A text message arrived in the clear after encryption was set up.
    PlaintextText,
}

/// Decrypts a message read after the handshake: binary frames open to the
/// message they carry; pings, pongs and closes pass through; clear text is
/// refused.
pub fn open_incoming(opener: &mut Opener, message: WebSocketMessage) -> (r: Result<WebSocketMessage, IncomingError>)
    ensures
        match message {
            WebSocketMessage::Binary(frame) => {
                &&& opener_after(*old(opener), frame@, *final(opener))
                &&& match opened_by(*old(opener), frame@) {
                    Ok(MessageView::Text(t)) => r matches Ok(WebSocketMessage::Text(s)) && s@ == t,
                    Ok(MessageView::Binary(b)) => r matches Ok(WebSocketMessage::Binary(v)) && v@ == b,
                    Err(e) => r == Err::<WebSocketMessage, IncomingError>(IncomingError::Open(e)),
                }
            },
            WebSocketMessage::Text(_) => {
                &&& *final(opener) == *old(opener)
                &&& r == Err::<WebSocketMessage, IncomingError>(IncomingError::PlaintextText)
            },
            _ => *final(opener) == *old(opener) && r == Ok::<WebSocketMessage, IncomingError>(message),
        },
{
    match message {
        WebSocketMessage::Binary(frame) => match opener.open(frame.as_slice()) {
            Ok(Message::Text(text)) => Ok(WebSocketMessage::Text(text)),
            Ok(Message::Binary(body)) => Ok(WebSocketMessage::Binary(body)),
            Err(e) => Err(IncomingError::Open(e)),
        },
        WebSocketMessage::Text(_) => Err(IncomingError::PlaintextText),
        other => Ok(other),
    }
}

/// A fresh server nonce: sixteen random bytes in unpadded URL-safe base64.
pub fn random_handshake_nonce() -> (res: Result<String, SecretError>)
    ensures
        res matches Ok(n) ==> exists|b: Seq<u8>| b.len() == 16 && n@ == #[trigger] base64_url_encode(b),
{
    match random_bytes(16) {
        Some(bytes) => Ok(url_encode(bytes.as_slice())),
        None => Err(SecretError::RandomUnavailable),
    }
}

/// An auth message of kind `auth` and the current protocol version is
/// accepted, with its pairing code, exactly when `e2ee-token-auth` is among
/// its capabilities, wherever it stands in the list; otherwise it is refused
/// for the missing capability.
pub proof fn lemma_auth_needs_e2ee_anywhere(wire: AuthWireMessage)
    requires
        wire.kind@ == "auth"@,
        wire.protocol_version == WEB_SHARE_PROTOCOL_VERSION,
    ensures
        wire.capabilities@.map_values(|c: String| c@).contains("e2ee-token-auth"@) ==> spec_check_auth(wire)
            == Ok::<Option<String>, (u16, Seq<char>)>(wire.pin),
        !wire.capabilities@.map_values(|c: String| c@).contains("e2ee-token-auth"@) ==> spec_check_auth(wire)
            == Err::<Option<String>, (u16, Seq<char>)>((4006, "missing_e2ee_capability"@)),
{
    let views = wire.capabilities@.map_values(|c: String| c@);
    if views.contains("e2ee-token-auth"@) {
        let i = choose|i: int| 0 <= i < views.len() && views[i] == "e2ee-token-auth"@;
        assert(wire.capabilities@[i]@ == "e2ee-token-auth"@);
    } else {
        assert forall|i: int| 0 <= i < wire.capabilities@.len() implies #[trigger] wire.capabilities@[i]@
            != "e2ee-token-auth"@ by {
            assert(views[i] == wire.capabilities@[i]@);
        }
    }
}

/// Likewise a hello: whether it announces the encrypted protocol does not
/// depend on where `e2ee-token-auth` stands among its capabilities, and one
/// without it is never accepted.
pub proof fn lemma_hello_needs_e2ee_anywhere(hello: ClientHelloWire, protocol_version: u16)
    ensures
        spec_hello_accepted(hello, protocol_version) ==> hello.capabilities@.map_values(|c: String| c@).contains(
            "e2ee-token-auth"@,
        ),
        hello.kind@ == "hello"@ && hello.protocol_version == protocol_version && hello.capabilities@.map_values(
            |c: String| c@,
        ).contains("e2ee-token-auth"@) && spec_valid_token_id_shape(encode_utf8(hello.token_id@))
            && spec_decode_nonce(encode_utf8(hello.client_nonce@)) is Ok ==> spec_hello_accepted(hello, protocol_version),
{
    let views = hello.capabilities@.map_values(|c: String| c@);
    if views.contains("e2ee-token-auth"@) {
        let i = choose|i: int| 0 <= i < views.len() && views[i] == "e2ee-token-auth"@;
        assert(hello.capabilities@[i]@ == "e2ee-token-auth"@);
    }
    if spec_hello_accepted(hello, protocol_version) {
        let i = choose|i: int| 0 <= i < hello.capabilities@.len() && #[trigger] hello.capabilities@[i]@ == "e2ee-token-auth"@;
        assert(views[i] == "e2ee-token-auth"@);
    }
}

} // verus!
