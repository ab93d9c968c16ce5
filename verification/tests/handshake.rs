use rmux_web::error::Error;
use rmux_web::framing::{Opener, Sealer};
use rmux_web::handshake::{
    check_auth_message, hello_text, open_auth_text, open_incoming, parse_client_hello,
    random_handshake_nonce, AuthWireMessage, ClientHello, ClientHelloWire, IncomingError,
    E2EE_CAPABILITY,
};
use rmux_web::protocol::WEB_SHARE_PROTOCOL_VERSION;
use rmux_web::record::{RecordOpener, RecordSealer};
use rmux_web::schedule::decode_nonce;
use rmux_web::secrets::SecretHash;
use rmux_web::websocket::WebSocketMessage;

fn hello(capabilities: &[&str], token_id: &str) -> ClientHelloWire {
    ClientHelloWire {
        kind: "hello".to_owned(),
        protocol_version: 3,
        capabilities: capabilities.iter().map(|c| c.to_string()).collect(),
        token_id: token_id.to_owned(),
        client_nonce: "AQIDBAUGBwgJCgsMDQ4PEA".to_owned(),
    }
}

fn auth(kind: &str, version: u16, capabilities: &[&str], pin: Option<&str>) -> AuthWireMessage {
    AuthWireMessage {
        kind: kind.to_owned(),
        protocol_version: version,
        capabilities: capabilities.iter().map(|c| c.to_string()).collect(),
        pin: pin.map(str::to_owned),
    }
}

fn pair() -> (Sealer, Opener) {
    let key = [5u8; 32];
    let prefix = [1u8, 1, 1, 1];
    (Sealer::new(RecordSealer::new(key, prefix)), Opener::new(RecordOpener::new(key, prefix)))
}

#[test]
fn client_hello_rejects_missing_e2ee_capability() {
    let text = hello(&["token-auth"], "aaaaaaaaaaaaaaaaaaaaaa");

    assert!(parse_client_hello(text, 3).is_err());
}

#[test]
fn client_hello_accepts_a_well_formed_hello() {
    let token_id = SecretHash::from_secret("token").token_id();
    let accepted = parse_client_hello(hello(&["x", E2EE_CAPABILITY], &token_id), 3).unwrap();
    assert_eq!(
        accepted,
        ClientHello { token_id: token_id.clone(), client_nonce: "AQIDBAUGBwgJCgsMDQ4PEA".to_owned() }
    );
    assert!(parse_client_hello(hello(&[E2EE_CAPABILITY], &token_id), 2).is_err());
    assert!(parse_client_hello(hello(&[E2EE_CAPABILITY], "short"), 3).is_err());
    let mut wrong_kind = hello(&[E2EE_CAPABILITY], &token_id);
    wrong_kind.kind = "auth".to_owned();
    assert!(parse_client_hello(wrong_kind, 3).is_err());
    let mut bad_nonce = hello(&[E2EE_CAPABILITY], &token_id);
    bad_nonce.client_nonce = "AQID".to_owned();
    assert!(parse_client_hello(bad_nonce, 3).is_err());
}

#[test]
fn auth_messages_are_checked_in_order() {
    let ok = check_auth_message(auth("auth", WEB_SHARE_PROTOCOL_VERSION, &[E2EE_CAPABILITY], Some("123456")));
    assert_eq!(ok.unwrap().pin, Some("123456".to_owned()));
    assert_eq!(
        check_auth_message(auth("hello", 1, &[], None)),
        Err((4006, "first_frame_must_auth"))
    );
    assert_eq!(
        check_auth_message(auth("auth", 2, &[E2EE_CAPABILITY], None)),
        Err((4006, "protocol_version_mismatch"))
    );
    assert_eq!(
        check_auth_message(auth("auth", WEB_SHARE_PROTOCOL_VERSION, &["token-auth"], None)),
        Err((4006, "missing_e2ee_capability"))
    );
}

#[test]
fn the_hello_must_be_text() {
    assert_eq!(hello_text(WebSocketMessage::Text("{}".to_owned())), Ok("{}".to_owned()));
    assert_eq!(hello_text(WebSocketMessage::Binary(vec![1])), Err((4006, "hello_must_be_text")));
}

#[test]
fn the_auth_frame_must_be_encrypted_text() {
    let (mut sealer, mut opener) = pair();
    assert_eq!(
        open_auth_text(&mut opener, WebSocketMessage::Text("{}".to_owned())),
        Err((4006, "auth_must_be_encrypted"))
    );
    assert_eq!(
        open_auth_text(&mut opener, WebSocketMessage::Binary(vec![0xE0; 40])),
        Err((4006, "invalid_encrypted_auth"))
    );
    let frame = sealer.seal_binary(b"{}").unwrap();
    assert_eq!(
        open_auth_text(&mut opener, WebSocketMessage::Binary(frame)),
        Err((4006, "auth_must_be_text"))
    );
    let frame = sealer.seal_text(r#"{"type":"auth"}"#).unwrap();
    assert_eq!(
        open_auth_text(&mut opener, WebSocketMessage::Binary(frame)),
        Ok(r#"{"type":"auth"}"#.to_owned())
    );
}

#[test]
fn encrypted_reads_open_binary_and_pass_control_frames() {
    let (mut sealer, mut opener) = pair();
    let frame = sealer.seal_text("hi").unwrap();
    assert_eq!(
        open_incoming(&mut opener, WebSocketMessage::Binary(frame.clone())),
        Ok(WebSocketMessage::Text("hi".to_owned()))
    );
    assert_eq!(
        open_incoming(&mut opener, WebSocketMessage::Binary(frame)),
        Err(IncomingError::Open(Error::OutOfOrder))
    );
    let frame = sealer.seal_binary(&[1, 2]).unwrap();
    assert_eq!(
        open_incoming(&mut opener, WebSocketMessage::Binary(frame)),
        Ok(WebSocketMessage::Binary(vec![1, 2]))
    );
    assert_eq!(
        open_incoming(&mut opener, WebSocketMessage::Ping(vec![9])),
        Ok(WebSocketMessage::Ping(vec![9]))
    );
    assert_eq!(open_incoming(&mut opener, WebSocketMessage::Pong), Ok(WebSocketMessage::Pong));
    assert_eq!(open_incoming(&mut opener, WebSocketMessage::Close), Ok(WebSocketMessage::Close));
    assert_eq!(
        open_incoming(&mut opener, WebSocketMessage::Text("clear".to_owned())),
        Err(IncomingError::PlaintextText)
    );
}

#[test]
fn server_nonces_decode_to_sixteen_bytes() {
    let nonce = random_handshake_nonce().unwrap();
    assert_eq!(decode_nonce(&nonce).unwrap().len(), 16);
}
