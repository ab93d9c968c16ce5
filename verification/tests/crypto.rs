use base64::Engine;
use rmux_web::error::Error;
use rmux_web::framing::{Message, Opener, Sealer, KIND_BINARY, KIND_TEXT};
use rmux_web::record::{nonce_from_parts, RecordOpener, RecordSealer, ENCRYPTED_FRAME};
use rmux_web::schedule::{decode_nonce, derive_client_crypto, derive_server_crypto};
use rmux_web::secrets::{
    pairing_code_from_bytes, random_pairing_code, random_share_id, random_token, secret_eq,
    share_id_from_bytes, six_digit_string, valid_token_id_shape, SecretHash,
};

const CLIENT_NONCE: &str = "AQIDBAUGBwgJCgsMDQ4PEA";
const SERVER_NONCE: &str = "EDEODQwLCgkIBwYFBAMCAQ";

// A raw record sealer and a message opener on one direction, both starting
// at record zero, so records can bypass the kind-byte sealer.
fn raw_pair() -> (RecordSealer, Opener) {
    let key = [0x42u8; 32];
    let prefix = [1u8, 2, 3, 4];
    (RecordSealer::new(key, prefix), Opener::new(RecordOpener::new(key, prefix)))
}

fn record_pair() -> (RecordSealer, RecordOpener) {
    let key = [7u8; 32];
    let prefix = [9u8, 8, 7, 6];
    (RecordSealer::new(key, prefix), RecordOpener::new(key, prefix))
}

#[test]
fn empty_plaintext_is_rejected_not_panicked() {
    let (mut sealer, mut opener) = raw_pair();
    let frame = sealer.seal(&[]).unwrap();
    assert_eq!(opener.open(&frame), Err(Error::EmptyPlaintext));
}

#[test]
fn unknown_kind_byte_is_rejected() {
    let (mut sealer, mut opener) = raw_pair();
    let frame = sealer.seal(&[0x7f, b'x']).unwrap();
    assert_eq!(opener.open(&frame), Err(Error::UnknownKind(0x7f)));
}

#[test]
fn invalid_utf8_text_is_rejected() {
    let (mut sealer, mut opener) = raw_pair();
    let frame = sealer.seal(&[KIND_TEXT, 0xff, 0xfe]).unwrap();
    assert_eq!(opener.open(&frame), Err(Error::InvalidUtf8));
}

#[test]
fn token_id_is_stable_and_not_the_secret_hash() {
    let secret = SecretHash::from_secret("token");

    assert_eq!(secret.token_id(), SecretHash::from_secret("token").token_id());
    assert_ne!(
        secret.token_id(),
        base64::engine::general_purpose::URL_SAFE_NO_PAD.encode(secret.as_bytes())
    );
}

#[test]
fn e2ee_round_trips_text_and_binary_in_order() {
    let secret = SecretHash::from_secret("token");
    let token_id = secret.token_id();
    let (mut server_open, mut server_seal) =
        derive_server_crypto(secret, &token_id, CLIENT_NONCE, SERVER_NONCE).expect("derive");
    let (mut client_open, mut client_seal) =
        derive_client_crypto(secret, &token_id, CLIENT_NONCE, SERVER_NONCE).expect("derive client");

    let frame = client_seal.seal_text(r#"{"type":"auth"}"#).expect("seal");
    assert_eq!(
        server_open.open(&frame).expect("open"),
        Message::Text(r#"{"type":"auth"}"#.to_owned())
    );

    let frame = server_seal.seal_binary(&[0x10, b'o', b'k']).expect("seal");
    assert_eq!(
        client_open.open(&frame).expect("open"),
        Message::Binary(vec![0x10, b'o', b'k'])
    );
}

#[test]
fn text_and_binary_records_carry_their_kind_byte() {
    let key = [3u8; 32];
    let prefix = [0u8, 0, 0, 1];
    let mut sealer = Sealer::new(RecordSealer::new(key, prefix));
    let mut raw = RecordOpener::new(key, prefix);
    let frame = sealer.seal_text("hi").unwrap();
    assert_eq!(raw.open(&frame).unwrap(), vec![KIND_TEXT, b'h', b'i']);
    let frame = sealer.seal_binary(&[5, 6]).unwrap();
    assert_eq!(raw.open(&frame).unwrap(), vec![KIND_BINARY, 5, 6]);
}

#[test]
fn records_have_header_sequence_and_tag() {
    let (mut sealer, _) = record_pair();
    let first = sealer.seal(b"abc").unwrap();
    let second = sealer.seal(b"abc").unwrap();
    assert_eq!(first.len(), 9 + 3 + 16);
    assert_eq!(first[0], ENCRYPTED_FRAME);
    assert_eq!(&first[1..9], &0u64.to_be_bytes());
    assert_eq!(&second[1..9], &1u64.to_be_bytes());
    // The same plaintext under the next nonce is not the same ciphertext.
    assert_ne!(&first[9..], &second[9..]);
}

#[test]
fn records_open_in_order_and_a_replay_is_refused() {
    let (mut sealer, mut opener) = record_pair();
    let first = sealer.seal(b"one").unwrap();
    let second = sealer.seal(b"two").unwrap();
    assert_eq!(opener.open(&second), Err(Error::OutOfOrder));
    assert_eq!(opener.open(&first).unwrap(), b"one".to_vec());
    assert_eq!(opener.open(&first), Err(Error::OutOfOrder));
    assert_eq!(opener.open(&second).unwrap(), b"two".to_vec());
}

#[test]
fn tampered_or_short_records_are_refused() {
    let (mut sealer, mut opener) = record_pair();
    let mut frame = sealer.seal(b"payload").unwrap();
    assert_eq!(opener.open(&frame[..20]), Err(Error::InvalidFrame));
    let mut unmarked = frame.clone();
    unmarked[0] = 0x00;
    assert_eq!(opener.open(&unmarked), Err(Error::InvalidFrame));
    let last = frame.len() - 1;
    frame[last] ^= 0x01;
    assert_eq!(opener.open(&frame), Err(Error::DecryptFailed));
    frame[last] ^= 0x01;
    assert_eq!(opener.open(&frame).unwrap(), b"payload".to_vec());
}

#[test]
fn a_record_of_another_key_does_not_open() {
    let mut sealer = RecordSealer::new([1u8; 32], [0u8; 4]);
    let mut opener = RecordOpener::new([2u8; 32], [0u8; 4]);
    let frame = sealer.seal(b"x").unwrap();
    assert_eq!(opener.open(&frame), Err(Error::DecryptFailed));
}

#[test]
fn nonce_is_prefix_then_big_endian_sequence() {
    assert_eq!(
        nonce_from_parts([0xa, 0xb, 0xc, 0xd], 0x0102030405060708),
        [0xa, 0xb, 0xc, 0xd, 1, 2, 3, 4, 5, 6, 7, 8]
    );
}

#[test]
fn server_and_client_directions_do_not_cross() {
    let secret = SecretHash::from_secret("token");
    let token_id = secret.token_id();
    let (mut server_open, mut server_seal) =
        derive_server_crypto(secret, &token_id, CLIENT_NONCE, SERVER_NONCE).unwrap();
    let frame = server_seal.seal_text("reflected").unwrap();
    assert_eq!(server_open.open(&frame), Err(Error::DecryptFailed));
}

#[test]
fn another_token_does_not_open_the_session() {
    let secret = SecretHash::from_secret("token");
    let other = SecretHash::from_secret("other");
    let token_id = secret.token_id();
    let (_, mut client_seal) =
        derive_client_crypto(secret, &token_id, CLIENT_NONCE, SERVER_NONCE).unwrap();
    let (mut server_open, _) =
        derive_server_crypto(other, &token_id, CLIENT_NONCE, SERVER_NONCE).unwrap();
    let frame = client_seal.seal_text("hello").unwrap();
    assert_eq!(server_open.open(&frame), Err(Error::DecryptFailed));
}

#[test]
fn nonces_must_be_sixteen_bytes_of_url_safe_base64() {
    assert_eq!(decode_nonce(CLIENT_NONCE).unwrap(), (1u8..=16).collect::<Vec<u8>>());
    assert_eq!(decode_nonce("not base64!"), Err(Error::InvalidNonce));
    assert_eq!(decode_nonce("AQID"), Err(Error::InvalidNonceLength));
    let secret = SecretHash::from_secret("token");
    let token_id = secret.token_id();
    assert!(matches!(
        derive_server_crypto(secret, &token_id, "AQID", "%%%"),
        Err(Error::InvalidNonceLength)
    ));
    assert!(matches!(
        derive_client_crypto(secret, &token_id, CLIENT_NONCE, "%%%"),
        Err(Error::InvalidNonce)
    ));
}

#[test]
fn secret_hash_is_sha256_of_the_token() {
    let hash = SecretHash::from_secret("abc");
    assert_eq!(
        hash.as_bytes()[..4],
        [0xba, 0x78, 0x16, 0xbf]
    );
}

#[test]
fn token_ids_have_the_shape_of_sixteen_bytes() {
    let id = SecretHash::from_secret("token").token_id();
    assert_eq!(id.len(), 22);
    assert!(valid_token_id_shape(&id));
    assert!(!valid_token_id_shape("AQID"));
    assert!(!valid_token_id_shape("not a token id!!!!!!!!"));
}

#[test]
fn secrets_compare_by_content() {
    assert!(secret_eq("123456", "123456"));
    assert!(!secret_eq("123456", "123457"));
    assert!(!secret_eq("12345", "123456"));
    assert!(secret_eq("", ""));
}

#[test]
fn share_ids_spell_forty_bits_in_base32() {
    assert_eq!(share_id_from_bytes(&[0, 0, 0, 0, 0]), "aaaaaaaa");
    assert_eq!(share_id_from_bytes(&[0xff; 5]), "77777777");
    assert_eq!(share_id_from_bytes(&[0, 0, 0, 0, 33]), "aaaaaabb");
    let id = random_share_id().unwrap();
    assert_eq!(id.len(), 8);
    assert!(id.bytes().all(|b| b"abcdefghijklmnopqrstuvwxyz234567".contains(&b)));
}

#[test]
fn pairing_codes_are_six_digits_and_reject_the_biased_tail() {
    assert_eq!(six_digit_string(42), "000042");
    assert_eq!(six_digit_string(999_999), "999999");
    assert_eq!(pairing_code_from_bytes(&[0, 0, 7]), Some("000007".to_owned()));
    // 0x0f4240 is 1,000,000, which wraps to zero.
    assert_eq!(pairing_code_from_bytes(&[0x0f, 0x42, 0x40]), Some("000000".to_owned()));
    // 0xf42400 is 16,000,000, the first rejected value.
    assert_eq!(pairing_code_from_bytes(&[0xf4, 0x24, 0x00]), None);
    assert_eq!(pairing_code_from_bytes(&[0xff, 0xff, 0xff]), None);
    let code = random_pairing_code().unwrap();
    assert_eq!(code.len(), 6);
    assert!(code.bytes().all(|b| b.is_ascii_digit()));
}

#[test]
fn random_tokens_are_thirty_two_bytes_of_url_safe_base64() {
    let token = random_token().unwrap();
    let decoded = base64::engine::general_purpose::URL_SAFE_NO_PAD.decode(&token).unwrap();
    assert_eq!(decoded.len(), 32);
    assert_ne!(token, random_token().unwrap());
}
