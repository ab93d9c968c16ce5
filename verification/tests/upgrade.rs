use rmux_web::http::request_with_headers;
use rmux_web::upgrade::{
    handshake_step, route_request, upgrade_decision, HandshakeAction, HandshakeEvent,
    HandshakeStage,
};

fn headers(pairs: &[(&str, &str)]) -> Vec<(String, String)> {
    pairs.iter().map(|(k, v)| (k.to_string(), v.to_string())).collect()
}

fn upgrade_headers() -> Vec<(String, String)> {
    headers(&[("upgrade", "websocket"), ("connection", "Upgrade")])
}

#[test]
fn routing_answers_405_404_or_upgrades_the_share_endpoint() {
    let post = request_with_headers("POST", "/share", upgrade_headers());
    assert_eq!(route_request(&post), Err((405, "unsupported method\n")));
    let root = request_with_headers("GET", "/", Vec::new());
    assert_eq!(route_request(&root), Err((404, "not found\n")));
    let plain = request_with_headers("GET", "/share", Vec::new());
    assert_eq!(route_request(&plain), Err((404, "not found\n")));
    let head = request_with_headers("HEAD", "/share", upgrade_headers());
    assert_eq!(route_request(&head), Err((404, "not found\n")));
    let ws = request_with_headers("GET", "/share", upgrade_headers());
    assert_eq!(route_request(&ws), Ok(()));
}

#[test]
fn upgrade_checks_key_then_version_then_key_shape() {
    let none = request_with_headers("GET", "/share", headers(&[("sec-websocket-version", "13")]));
    assert_eq!(upgrade_decision(&none), Err((400, "missing websocket key\n")));
    let old = request_with_headers(
        "GET",
        "/share",
        headers(&[("sec-websocket-key", "bad"), ("sec-websocket-version", "8")]),
    );
    assert_eq!(upgrade_decision(&old), Err((400, "unsupported websocket version\n")));
    let missing_version = request_with_headers("GET", "/share", headers(&[("sec-websocket-key", "bad")]));
    assert_eq!(
        upgrade_decision(&missing_version),
        Err((400, "unsupported websocket version\n"))
    );
    let bad = request_with_headers(
        "GET",
        "/share",
        headers(&[("sec-websocket-key", "bad"), ("sec-websocket-version", " 13 ")]),
    );
    assert_eq!(upgrade_decision(&bad), Err((400, "invalid websocket key\n")));
    let good = request_with_headers(
        "GET",
        "/share",
        headers(&[
            ("sec-websocket-key", "dGhlIHNhbXBsZSBub25jZQ=="),
            ("sec-websocket-version", "13"),
        ]),
    );
    assert_eq!(upgrade_decision(&good), Ok("s3pPLMBiTxaQ9kYGzzhZRbK+xOo=".to_owned()));
}

#[test]
fn handshake_closes_with_the_right_codes() {
    assert_eq!(
        handshake_step(HandshakeStage::Accepted, &HandshakeEvent::Origin(false)),
        (HandshakeStage::Finished, HandshakeAction::Close(4004, "origin_required"))
    );
    let (stage, action) = handshake_step(HandshakeStage::Accepted, &HandshakeEvent::Origin(true));
    assert_eq!((stage, action), (HandshakeStage::AwaitingHello, HandshakeAction::ReadHello));
    assert_eq!(
        handshake_step(stage, &HandshakeEvent::Hello(Some((4006, "invalid_hello")))),
        (HandshakeStage::Finished, HandshakeAction::Close(4006, "invalid_hello"))
    );
    assert_eq!(
        handshake_step(stage, &HandshakeEvent::Evicted),
        (HandshakeStage::Finished, HandshakeAction::Stop)
    );
    let (stage, action) = handshake_step(stage, &HandshakeEvent::Hello(None));
    assert_eq!((stage, action), (HandshakeStage::CheckingToken, HandshakeAction::CheckToken));
    assert_eq!(
        handshake_step(
            stage,
            &HandshakeEvent::TokenChecked { origin_allowed: Some(false), secret_known: true }
        ),
        (HandshakeStage::Finished, HandshakeAction::Close(4004, "origin_not_allowed"))
    );
    assert_eq!(
        handshake_step(stage, &HandshakeEvent::TokenChecked { origin_allowed: None, secret_known: false }),
        (HandshakeStage::Finished, HandshakeAction::Close(4000, "invalid_auth"))
    );
    let (stage, action) = handshake_step(
        stage,
        &HandshakeEvent::TokenChecked { origin_allowed: Some(true), secret_known: true },
    );
    assert_eq!((stage, action), (HandshakeStage::AwaitingAuth, HandshakeAction::SendChallenge));
    let (stage, action) = handshake_step(stage, &HandshakeEvent::Auth(None));
    assert_eq!((stage, action), (HandshakeStage::OpeningShare, HandshakeAction::OpenShare));
    assert_eq!(
        handshake_step(stage, &HandshakeEvent::Evicted),
        (HandshakeStage::OpeningShare, HandshakeAction::Ignore)
    );
    assert_eq!(
        handshake_step(
            stage,
            &HandshakeEvent::ShareOpened(Err("missing web-share pairing code".to_owned()))
        ),
        (HandshakeStage::Finished, HandshakeAction::Close(4008, "pin_required"))
    );
    assert_eq!(
        handshake_step(stage, &HandshakeEvent::ShareOpened(Ok(false))),
        (HandshakeStage::Finished, HandshakeAction::Close(4004, "origin_not_allowed"))
    );
    assert_eq!(
        handshake_step(stage, &HandshakeEvent::ShareOpened(Ok(true))),
        (HandshakeStage::Finished, HandshakeAction::Ready)
    );
}
