use rmux_web::http::{connection_has_upgrade, header, request_with_headers, HttpRequest};
use rmux_web::leases::LeaseBook;
use rmux_web::pre_auth::PreAuthQueue;
use rmux_web::protocol::{
    binary_payload, close_for_auth_error, parse_operator_frame, parse_resize,
    pane_operator_request, resize_payload, session_logout_allowed, session_logout_decision,
    session_operator_request, str_contains, validate_key_token, LogoutDecision,
    PaneOperatorRequest, SessionOperatorRequest, WS_ATTACH_INPUT, WS_INPUT_KEY, WS_INPUT_TEXT,
    WS_RESIZE_NOTIFY, WS_RESIZE_REQUEST,
};
use rmux_web::rate_limit::{OperatorRateLimiter, OPERATOR_RATE_LIMIT, RATE_WINDOW_NANOS};
use rmux_web::urls::{path_from_target, token_from_url, websocket_endpoint};
use rmux_web::websocket::{
    apply_mask, close_payload, encode_client_frame, encode_server_frame, message_from_frame,
    read_client_frame, valid_client_key, websocket_accept_key, FrameError, MessageError,
    WebSocketFrame, WebSocketMessage, OPCODE_BINARY, OPCODE_CLOSE, OPCODE_PING, OPCODE_PONG,
    OPCODE_TEXT,
};

fn request(headers: &[(&str, &str)]) -> HttpRequest {
    request_with_headers(
        "GET",
        "/share",
        headers
            .iter()
            .map(|(key, value)| (key.to_string(), value.to_string()))
            .collect(),
    )
}

#[test]
fn websocket_upgrade_requires_upgrade_token() {
    let r = request(&[("upgrade", "websocket"), ("connection", "keep-alive, Upgrade")]);
    assert!(r.is_websocket_upgrade());

    let r = request(&[("upgrade", "websocket"), ("connection", "close")]);
    assert!(!r.is_websocket_upgrade());
}

#[test]
fn websocket_upgrade_needs_both_headers() {
    assert!(!request(&[("connection", "upgrade")]).is_websocket_upgrade());
    assert!(!request(&[("upgrade", "websocket")]).is_websocket_upgrade());
    assert!(!request(&[("upgrade", "h2c"), ("connection", "upgrade")]).is_websocket_upgrade());
    assert!(request(&[("upgrade", "WebSocket"), ("connection", "UPGRADE")]).is_websocket_upgrade());
    assert!(connection_has_upgrade(b" upgrade ,keep-alive"));
    assert!(!connection_has_upgrade(b"upgrades"));
    assert!(!connection_has_upgrade(b""));
}

#[test]
fn header_lookup_takes_the_first_match() {
    let r = request(&[("host", "a"), ("host", "b")]);
    assert_eq!(header(&r.headers, "host"), Some("a"));
    assert_eq!(header(&r.headers, "origin"), None);
}

#[test]
fn target_path_ignores_query_for_routing() {
    assert_eq!(path_from_target("/share?ignored=true"), "/share");
    assert_eq!(path_from_target("/assets/app.js"), "/assets/app.js");
}

#[test]
fn read_lease_tracks_count_until_drop() {
    let mut book = LeaseBook::new(1);
    let read = book.try_read().expect("read slot should be free");

    assert_eq!(book.reader_count(), 1);
    assert!(book.try_read().is_none());

    book.release_read(read);
    assert_eq!(book.reader_count(), 0);
    assert!(book.try_read().is_some());
}

#[test]
fn operator_lease_tracks_connected_state_until_drop() {
    let mut book = LeaseBook::new(1);
    let operator = book.try_operator().expect("operator slot should be free");

    assert!(book.operator_connected());
    assert!(book.try_operator().is_none());

    book.release_operator(operator);
    assert!(!book.operator_connected());
    assert!(book.try_operator().is_some());
}

#[test]
fn pre_auth_queue_evicts_oldest_pending_connection() {
    let mut queue = PreAuthQueue::new(1);
    let (first, none) = queue.register();
    let (second, evicted) = queue.register();
    assert_eq!(none, None);
    assert_eq!(evicted, Some(first.id));
    assert!(!queue.is_pending(first.id));
    assert!(queue.is_pending(second.id));
}

#[test]
fn pre_auth_queue_evicts_in_arrival_order_and_frees_on_release() {
    let mut queue = PreAuthQueue::new(2);
    let (first, _) = queue.register();
    let (second, _) = queue.register();
    assert_eq!(first.id, 0);
    assert_eq!(second.id, 1);
    let (third, evicted) = queue.register();
    assert_eq!(third.id, 2);
    assert_eq!(evicted, Some(0));
    assert_eq!(queue.pending_count(), 2);
    queue.release(second);
    assert_eq!(queue.pending_count(), 1);
    let (fourth, evicted) = queue.register();
    assert_eq!(fourth.id, 3);
    assert_eq!(evicted, None);
    queue.remove(99);
    assert_eq!(queue.pending_count(), 2);
    assert!(queue.is_pending(2) && queue.is_pending(3));
}

#[test]
fn operator_rate_limit_allows_two_hundred_frames_a_second() {
    let mut limiter = OperatorRateLimiter::new();
    for _ in 0..OPERATOR_RATE_LIMIT {
        assert!(limiter.try_acquire_at(10));
    }
    assert!(!limiter.try_acquire_at(20));
    assert!(!limiter.try_acquire_at(RATE_WINDOW_NANOS - 1));
    assert!(limiter.try_acquire_at(RATE_WINDOW_NANOS));
    let mut fresh = OperatorRateLimiter::new();
    assert!(fresh.try_acquire());
}

#[test]
fn session_logout_requires_operator_controls() {
    assert!(!session_logout_allowed(false, false));
    assert!(!session_logout_allowed(false, true));
    assert!(!session_logout_allowed(true, false));
    assert!(session_logout_allowed(true, true));
}

#[test]
fn logout_refusals_name_what_is_missing() {
    assert_eq!(session_logout_decision(true, true), LogoutDecision::Allowed);
    assert_eq!(session_logout_decision(true, false), LogoutDecision::RequiresControls);
    assert_eq!(session_logout_decision(false, true), LogoutDecision::RequiresOperator);
}

#[test]
fn auth_errors_map_to_close_codes() {
    assert_eq!(close_for_auth_error("web-share read limit reached"), (4003, "read_cap_reached"));
    assert_eq!(
        close_for_auth_error("web-share operator is already connected"),
        (4007, "operator_already_connected")
    );
    assert_eq!(close_for_auth_error("missing web-share pairing code"), (4008, "pin_required"));
    assert_eq!(
        close_for_auth_error("web-share is not writable for operator role"),
        (4006, "operator_on_read_only")
    );
    assert_eq!(close_for_auth_error("anything else"), (4000, "invalid_auth"));
    assert!(str_contains("abcdef", "cde"));
    assert!(!str_contains("abc", "abcd"));
}

#[test]
fn operator_frames_split_opcode_and_body() {
    assert_eq!(parse_operator_frame(&[WS_INPUT_TEXT, b'a']), Ok((WS_INPUT_TEXT, &b"a"[..])));
    assert_eq!(parse_operator_frame(&[]), Err((4006, "empty_operator_frame")));
    let big = vec![WS_INPUT_TEXT; 4097];
    assert_eq!(parse_operator_frame(&big), Err((4002, "operator_frame_too_large")));
    assert!(parse_operator_frame(&big[..4096]).is_ok());
}

#[test]
fn key_tokens_are_short_printable_ascii() {
    assert_eq!(validate_key_token(b"C-c"), Ok("C-c"));
    assert_eq!(validate_key_token(&[0xff]), Err((4006, "invalid_key_utf8")));
    assert_eq!(validate_key_token(b"a\nb"), Err((4006, "invalid_key_token")));
    assert_eq!(validate_key_token(&[b'x'; 65]), Err((4006, "invalid_key_token")));
    assert!(validate_key_token(&[b'x'; 64]).is_ok());
}

#[test]
fn resize_bodies_hold_two_dimensions_in_range() {
    assert_eq!(parse_resize(&[0, 80, 0, 24]), Ok((80, 24)));
    assert_eq!(parse_resize(&[0, 80, 0]), Err((4006, "invalid_resize_payload")));
    assert_eq!(parse_resize(&[0, 0, 0, 24]), Err((4006, "invalid_resize_size")));
    assert_eq!(parse_resize(&[0x27, 0x10, 0, 24]), Err((4006, "invalid_resize_size")));
    assert_eq!(parse_resize(&[0x27, 0x0f, 0x27, 0x0f]), Ok((9999, 9999)));
}

#[test]
fn outbound_payloads_lead_with_their_opcode() {
    assert_eq!(binary_payload(0x10, b"ab"), vec![0x10, b'a', b'b']);
    assert_eq!(resize_payload(120, 40), vec![WS_RESIZE_NOTIFY, 0, 120, 0, 40]);
}

#[test]
fn operator_opcodes_are_classified() {
    assert_eq!(pane_operator_request(WS_INPUT_TEXT), PaneOperatorRequest::Text);
    assert_eq!(pane_operator_request(WS_INPUT_KEY), PaneOperatorRequest::Key);
    assert_eq!(pane_operator_request(WS_RESIZE_REQUEST), PaneOperatorRequest::Resize);
    assert_eq!(pane_operator_request(WS_ATTACH_INPUT), PaneOperatorRequest::Unknown);
    assert_eq!(session_operator_request(WS_ATTACH_INPUT), SessionOperatorRequest::AttachInput);
    assert_eq!(session_operator_request(0x00), SessionOperatorRequest::Unknown);
}

#[test]
fn websocket_accept_key_matches_rfc_fixture() {
    assert_eq!(
        websocket_accept_key("dGhlIHNhbXBsZSBub25jZQ=="),
        "s3pPLMBiTxaQ9kYGzzhZRbK+xOo="
    );
}

#[test]
fn websocket_key_must_decode_to_sixteen_bytes() {
    assert!(valid_client_key("dGhlIHNhbXBsZSBub25jZQ=="));
    assert!(!valid_client_key("not-base64"));
    assert!(!valid_client_key("Zm9v"));
}

#[test]
fn server_frames_use_the_shortest_length_field() {
    assert_eq!(encode_server_frame(OPCODE_TEXT, b"hi"), vec![0x81, 2, b'h', b'i']);
    let mid = encode_server_frame(OPCODE_BINARY, &[0u8; 126]);
    assert_eq!(&mid[..4], &[0x82, 126, 0, 126]);
    assert_eq!(mid.len(), 4 + 126);
    let big = encode_server_frame(OPCODE_BINARY, &vec![0u8; 70_000]);
    assert_eq!(&big[..10], &[0x82, 127, 0, 0, 0, 0, 0, 1, 0x11, 0x70]);
    assert_eq!(big.len(), 10 + 70_000);
}

#[test]
fn client_frames_round_trip_through_the_reader() {
    let mask = [1u8, 2, 3, 4];
    let mut bytes = encode_client_frame(OPCODE_TEXT, mask, b"hello");
    assert_eq!(bytes[0], 0x81);
    assert_eq!(bytes[1], 0x80 | 5);
    bytes.extend_from_slice(b"rest");
    let (frame, used) = read_client_frame(&bytes).unwrap();
    assert_eq!(used, bytes.len() - 4);
    assert_eq!(frame.opcode, OPCODE_TEXT);
    assert_eq!(frame.payload, b"hello".to_vec());

    let long = vec![7u8; 300];
    let bytes = encode_client_frame(OPCODE_BINARY, mask, &long);
    let (frame, used) = read_client_frame(&bytes).unwrap();
    assert_eq!(used, bytes.len());
    assert_eq!(frame.payload, long);
}

#[test]
fn client_frames_are_refused_when_incomplete_unmasked_fragmented_or_large() {
    let bytes = encode_client_frame(OPCODE_TEXT, [9, 9, 9, 9], b"hello");
    assert!(matches!(read_client_frame(&bytes[..bytes.len() - 1]), Err(FrameError::Incomplete)));
    assert!(matches!(read_client_frame(&[0x81]), Err(FrameError::Incomplete)));
    assert!(matches!(read_client_frame(&[0x81, 0x00]), Err(FrameError::Unmasked)));
    assert!(matches!(read_client_frame(&[0x01, 0x80, 0, 0, 0, 0]), Err(FrameError::Fragmented)));
    let too_big = encode_client_frame(OPCODE_BINARY, [0; 4], &vec![0u8; 8193]);
    assert!(matches!(read_client_frame(&too_big), Err(FrameError::TooLarge)));
    let limit = encode_client_frame(OPCODE_BINARY, [0; 4], &vec![0u8; 8192]);
    assert!(read_client_frame(&limit).is_ok());
}

#[test]
fn masking_twice_gives_the_data_back() {
    let mask = [0xde, 0xad, 0xbe, 0xef];
    let data = b"some payload bytes".to_vec();
    let masked = apply_mask(&data, &mask);
    assert_eq!(masked[0], b's' ^ 0xde);
    assert_eq!(masked[4], b' ' ^ 0xde);
    assert_eq!(apply_mask(&masked, &mask), data);
}

#[test]
fn frames_become_messages_by_opcode() {
    let frame = |opcode, payload: &[u8]| WebSocketFrame { opcode, payload: payload.to_vec() };
    assert_eq!(
        message_from_frame(frame(OPCODE_TEXT, b"hi")),
        Ok(WebSocketMessage::Text("hi".to_owned()))
    );
    assert_eq!(message_from_frame(frame(OPCODE_TEXT, &[0xff])), Err(MessageError::InvalidUtf8));
    assert_eq!(
        message_from_frame(frame(OPCODE_BINARY, &[1, 2])),
        Ok(WebSocketMessage::Binary(vec![1, 2]))
    );
    assert_eq!(
        message_from_frame(frame(OPCODE_PING, &[3])),
        Ok(WebSocketMessage::Ping(vec![3]))
    );
    assert_eq!(message_from_frame(frame(OPCODE_PONG, &[])), Ok(WebSocketMessage::Pong));
    assert_eq!(message_from_frame(frame(OPCODE_CLOSE, &[])), Ok(WebSocketMessage::Close));
    assert_eq!(message_from_frame(frame(0x3, &[])), Err(MessageError::UnsupportedOpcode));
}

#[test]
fn close_payloads_hold_the_code_and_a_short_reason() {
    assert_eq!(close_payload(4003, "cap"), vec![0x0f, 0xa3, b'c', b'a', b'p']);
    let long = "x".repeat(200);
    assert_eq!(close_payload(1000, &long).len(), 2 + 123);
}

#[test]
fn share_urls_carry_the_token_in_the_fragment() {
    assert_eq!(
        token_from_url("https://share.rmux.io/#s=abc&t=TOKEN&p=1"),
        Some("TOKEN".to_owned())
    );
    assert_eq!(token_from_url("https://share.rmux.io/#t=first&t=second"), Some("first".to_owned()));
    assert_eq!(token_from_url("https://share.rmux.io/?t=query"), None);
    assert_eq!(token_from_url("https://share.rmux.io/#tt=x"), None);
    assert_eq!(token_from_url("https://share.rmux.io/#t="), Some(String::new()));
}

#[test]
fn websocket_endpoints_follow_the_base_scheme() {
    assert_eq!(websocket_endpoint("https://relay.example"), "wss://relay.example/share");
    assert_eq!(websocket_endpoint("HTTPS://relay.example"), "wss://relay.example/share");
    assert_eq!(websocket_endpoint("http://127.0.0.1:9777"), "ws://127.0.0.1:9777/share");
}
