use rmux_web::leases::LeaseBook;
use rmux_web::registry::{backoff_key, WebListenerState, WebShareRegistry};
use rmux_web::secrets::SecretHash;
use rmux_web::settings::WebShareSettings;
use rmux_web::share::{ShareError, WebShareConnectRole, WebShareGrant};
use rmux_web::share_output::{
    created_output, list_output, lookup_output, stopped_all_output, stopped_output,
    RFC3339_MAX_SECONDS,
};
use rmux_web::share_record::{WebShareRecord, WebShareSummary, WebShareUrlOptions};
use rmux_web::urls::token_from_url;

fn record(endpoint_origin: &str, writable: bool, pin: Option<&str>) -> WebShareRecord {
    WebShareRecord {
        allow_loopback_development_origins: false,
        endpoint_origin: endpoint_origin.to_owned(),
        expires_at: Some(1_700_000_000_999_999_999),
        frontend_origin: "https://share.rmux.io".to_owned(),
        frontend_url: "https://share.rmux.io".to_owned(),
        kill_session_on_expire: false,
        lease_book: LeaseBook::new(1),
        max_readers: 1,
        operator_token_hash: if writable { Some(SecretHash::from_secret("op")) } else { None },
        pairing_code: pin.map(str::to_owned),
        controls: false,
        share_id: "abcdefgh".to_owned(),
        scope: "alpha:0".to_owned(),
        url_options: WebShareUrlOptions {
            show_viewers: true,
            no_navbar: false,
            no_disclaimer: false,
            terminal_theme: None,
        },
        read_token_hash: SecretHash::from_secret("read"),
        writable,
    }
}

#[test]
fn read_links_name_a_public_endpoint_and_carry_the_token() {
    let r = record("https://share.example", false, None);
    let url = r.read_url("TOKEN");
    assert_eq!(url, "https://share.rmux.io/#e=wss://share.example/share&t=TOKEN");
    assert!(url.contains("#e=wss://share.example/share&t="));
    assert_eq!(token_from_url(&url), Some("TOKEN".to_owned()));
    assert_eq!(
        r.redacted_read_url(),
        "https://share.rmux.io/#e=wss://share.example/share&t=[REDACTED]"
    );
}

#[test]
fn local_links_leave_the_endpoint_out_and_add_display_options() {
    let mut r = record("http://127.0.0.1:9777", true, None);
    r.url_options.no_navbar = true;
    r.url_options.no_disclaimer = true;
    r.url_options.terminal_theme = Some("dark".to_owned());
    let url = r.read_url("abc");
    assert_eq!(url, "https://share.rmux.io/#t=abc&navbar=off&disclaimer=off&theme=dark");
    assert_eq!(token_from_url(&url), Some("abc".to_owned()));
    assert_eq!(
        r.operator_url(Some("op")),
        Some("https://share.rmux.io/#t=op&navbar=off&disclaimer=off&theme=dark".to_owned())
    );
    let read_only = record("http://127.0.0.1:9777", false, None);
    assert_eq!(read_only.operator_url(Some("op")), None);
}

#[test]
fn records_admit_connections_through_their_pairing_code() {
    let mut r = record("https://share.example", true, Some("123456"));
    assert_eq!(r.check_pairing_code(None), Err(ShareError::MissingPairingCode));
    assert!(matches!(
        r.connect(Some("000000"), WebShareConnectRole::Read),
        Err(ShareError::InvalidPairingCode)
    ));
    assert!(matches!(r.connect(Some("123456"), WebShareConnectRole::Read), Ok(WebShareGrant::Read(_))));
    assert!(matches!(
        r.connect(Some("123456"), WebShareConnectRole::Read),
        Err(ShareError::ReadLimitReached)
    ));
    assert!(matches!(
        r.connect(Some("123456"), WebShareConnectRole::Operator),
        Ok(WebShareGrant::Operator(_))
    ));
    let s = r.summary();
    assert_eq!(s.active_readers, 1);
    assert!(s.operator_connected);
    assert_eq!(s.expires_at_unix, Some(1_700_000_000));
    assert_eq!(
        s.read_url.as_deref(),
        Some("https://share.rmux.io/#e=wss://share.example/share&t=[REDACTED]")
    );
    let mut read_only = record("https://share.example", false, None);
    assert!(matches!(
        read_only.connect(None, WebShareConnectRole::Operator),
        Err(ShareError::NotWritable)
    ));
}

#[test]
fn the_listener_state_gates_configuration() {
    let mut registry = WebShareRegistry::new(WebShareSettings::default_settings());
    let (listener, line) = registry.config().unwrap();
    assert_eq!(listener.port, 9777);
    assert_eq!(line, "127.0.0.1:9777 https://share.rmux.io\n");
    registry.mark_listener_unavailable("address in use".to_owned());
    assert_eq!(
        registry.require_listener_available(),
        Err("web-share listener unavailable: address in use".to_owned())
    );
    assert!(registry.config().is_err());
    registry.mark_listener_available();
    assert_eq!(registry.require_listener_available(), Ok(()));
    assert_eq!(WebListenerState::Available, WebListenerState::Available);
}

#[test]
fn attempts_count_against_the_share_or_the_unknown_token_id() {
    assert_eq!(backoff_key(Some("abcdefgh"), "tid"), "abcdefgh");
    assert_eq!(backoff_key(None, "tid"), "token_id:tid");
}

#[test]
fn only_failed_authentication_slows_later_attempts() {
    let mut registry = WebShareRegistry::new(WebShareSettings::default_settings());
    assert_eq!(registry.delay_before_attempt_at("s", 0), 0);
    assert!(registry.settle_attempt_at("s", Err(ShareError::ReadLimitReached), 0).is_none());
    assert_eq!(registry.delay_before_attempt_at("s", 0), 0);
    let f = registry.settle_attempt_at("s", Err(ShareError::InvalidPairingCode), 0).unwrap();
    assert_eq!(f.fails, 1);
    assert_eq!(registry.delay_before_attempt_at("s", 0), 100_000_000);
    let f = registry.settle_attempt_at("s", Err(ShareError::NotFound), 0).unwrap();
    assert_eq!(f.fails, 2);
    assert!(registry.settle_attempt_at("s", Ok(()), 0).is_none());
    assert_eq!(registry.delay_before_attempt_at("s", 0), 0);
}

#[test]
fn created_output_lists_link_expiry_kill_and_pin() {
    assert_eq!(created_output("URL", None, None, false), "read URL\n");
    assert_eq!(
        created_output("URL", Some("123456"), Some(0), true),
        "read URL\nshare expires at 1970-01-01T00:00:00+00:00\nsession will be killed on expiry\npin 123456\n"
    );
    assert_eq!(
        created_output("U", None, Some(1_700_000_000), false),
        "read U\nshare expires at 2023-11-14T22:13:20+00:00\n"
    );
}

#[test]
fn listings_have_a_line_per_share() {
    let one = WebShareSummary {
        share_id: "aaaa".to_owned(),
        scope: "alpha".to_owned(),
        read_url: Some("https://x/#t=[REDACTED]".to_owned()),
        writable: false,
        controls: false,
        active_readers: 0,
        max_readers: 5,
        operator_connected: false,
        expires_at_unix: None,
        kill_session_on_expire: false,
    };
    let mut two = one.clone();
    two.share_id = "bbbb".to_owned();
    two.read_url = None;
    assert_eq!(
        list_output(&[one.clone(), two]),
        "aaaa alpha https://x/#t=[REDACTED]\nbbbb alpha -\n"
    );
    assert_eq!(list_output(&[]), "");
    assert_eq!(lookup_output(Some(&one)), "aaaa alpha https://x/#t=[REDACTED]\n");
    assert_eq!(lookup_output(None), "");
    assert_eq!(stopped_output("aaaa", true), "stopped aaaa\n");
    assert_eq!(stopped_output("aaaa", false), "missing aaaa\n");
    assert_eq!(stopped_all_output(3), "stopped 3\n");
}

#[test]
fn created_output_formats_the_last_date_chrono_holds() {
    assert_eq!(
        created_output("U", None, Some(RFC3339_MAX_SECONDS), false),
        "read U\nshare expires at +262142-12-31T23:59:59+00:00\n"
    );
}
