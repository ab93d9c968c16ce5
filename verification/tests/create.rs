use rmux_web::create::{create_share, create_share_drawing, DrawnSecrets};
use rmux_web::secrets::SecretHash;
use rmux_web::share::{CreateShareOptions, ShareError};
use rmux_web::share_record::WebShareUrlOptions;

const NOW: u128 = 1_700_000_000_000_000_000;

fn options() -> CreateShareOptions {
    CreateShareOptions {
        writable: true,
        controls: false,
        pane_scope: false,
        session_target: true,
        max_readers: Some(3),
        kill_session_on_expire: true,
        ttl_seconds: Some(60),
        expires_at_unix: None,
    }
}

fn url_options() -> WebShareUrlOptions {
    WebShareUrlOptions { show_viewers: true, no_navbar: false, no_disclaimer: false, terminal_theme: None }
}

fn secrets() -> DrawnSecrets {
    DrawnSecrets {
        share_id: "abcdefgh".to_owned(),
        read_token: "READ".to_owned(),
        operator_token: Some("OPER".to_owned()),
        pairing_code: Some("012345".to_owned()),
    }
}

fn create(o: CreateShareOptions, listener: bool) -> Result<(rmux_web::share_record::WebShareRecord, rmux_web::create::WebShareCreated), ShareError> {
    create_share(
        listener,
        o,
        true,
        "https://share.example".to_owned(),
        "https://share.rmux.io".to_owned(),
        "https://share.rmux.io".to_owned(),
        "alpha".to_owned(),
        url_options(),
        secrets(),
        NOW,
    )
}

#[test]
fn create_share_assembles_the_record_and_the_response() {
    let (record, created) = create(options(), true).unwrap();
    assert!(!record.allow_loopback_development_origins);
    assert_eq!(record.expires_at, Some(NOW + 60_000_000_000));
    assert_eq!(record.max_readers, 3);
    assert_eq!(record.lease_book.reader_count(), 0);
    assert_eq!(record.read_token_hash, SecretHash::from_secret("READ"));
    assert_eq!(record.operator_token_hash, Some(SecretHash::from_secret("OPER")));
    assert_eq!(created.share_id, "abcdefgh");
    assert_eq!(created.read_url, "https://share.rmux.io/#e=wss://share.example/share&t=READ");
    assert_eq!(
        created.operator_url,
        Some("https://share.rmux.io/#e=wss://share.example/share&t=OPER".to_owned())
    );
    assert_eq!(created.expires_at_unix, Some(1_700_000_060));
    assert_eq!(created.pairing_code, Some("012345".to_owned()));
    assert_eq!(
        created.output,
        "read https://share.rmux.io/#e=wss://share.example/share&t=READ\nshare expires at 2023-11-14T22:14:20+00:00\nsession will be killed on expiry\npin 012345\n"
    );
}

#[test]
fn create_share_checks_in_order() {
    assert_eq!(create(options(), false).err(), Some(ShareError::ListenerUnavailable));
    let mut o = options();
    o.session_target = false;
    o.ttl_seconds = Some(0);
    assert_eq!(create(o, true).err(), Some(ShareError::KillOnExpireRequiresSession));
    let mut o = options();
    o.ttl_seconds = Some(0);
    assert_eq!(create(o, true).err(), Some(ShareError::TtlOutOfRange));
    let mut o = options();
    o.max_readers = Some(0);
    o.ttl_seconds = Some(0);
    assert_eq!(create(o, true).err(), Some(ShareError::NoReadSlot));
}

#[test]
fn create_share_drawing_draws_what_the_request_needs() {
    let (record, created) = create_share_drawing(
        true,
        options(),
        false,
        false,
        "http://127.0.0.1:7681".to_owned(),
        "https://share.rmux.io".to_owned(),
        "https://share.rmux.io".to_owned(),
        "alpha".to_owned(),
        url_options(),
        NOW,
    )
    .unwrap();
    assert!(record.allow_loopback_development_origins);
    assert!(record.pairing_code.is_none());
    assert!(created.operator_url.is_some());
    assert_eq!(created.share_id.len(), 8);
}
