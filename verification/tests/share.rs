use rmux_web::commands::{
    contains_cross_target_option, is_target_option, parsed_command_blocks_for_prompt,
    parsed_commands_block_for_prompt, parsed_commands_open_attached_output,
    web_controls_command_allowed, web_controls_commands_allowed, CommandArgument, ParsedCommand,
};
use rmux_web::leases::LeaseBook;
use rmux_web::settings::{
    duration_until_unix, tmux_compat_input, SettingsError, SourceInput, WebShareSettings,
};
use rmux_web::share::{
    check_kill_on_expire_target, check_pairing_code, connect, expiry_kills_session,
    is_auth_failure_for_backoff, resolve_expiration, validate_create, CreateShareOptions,
    ShareError, WebShareConnectRole, WebShareConnectionCounts, WebShareGrant,
    WebShareRevokeReason, DEFAULT_MAX_READERS,
};
use rmux_web::urls::{local_endpoint_origin, DEFAULT_PORT};

const NANOS: u128 = 1_000_000_000;

fn word(s: &str) -> CommandArgument {
    CommandArgument::String(s.to_owned())
}

fn command(name: &str, arguments: Vec<CommandArgument>) -> ParsedCommand {
    ParsedCommand { name: name.to_owned(), arguments }
}

fn block(commands: Vec<ParsedCommand>) -> CommandArgument {
    CommandArgument::Commands(commands)
}

fn options() -> CreateShareOptions {
    CreateShareOptions {
        writable: false,
        controls: false,
        pane_scope: true,
        session_target: false,
        max_readers: None,
        kill_session_on_expire: false,
        ttl_seconds: None,
        expires_at_unix: None,
    }
}

#[test]
fn tmux_compat_input_preserves_runtime_commands() {
    let input = SourceInput {
        current_file: "/tmp/.tmux.conf".to_owned(),
        contents: "set -g status off\nrun-shell 'true'\nset -g @plugin 'tmux-plugins/tpm'\n"
            .to_owned(),
    };

    let preserved = tmux_compat_input(&input);

    assert_eq!(preserved.current_file, input.current_file);
    assert_eq!(preserved.contents, input.contents);
}

#[test]
fn attached_key_dispatch_block_detection_handles_combined_flags() {
    let parsed = vec![command(
        "command-prompt",
        vec![word("-bF"), block(vec![command("display-message", vec![word("hi")])])],
    )];
    assert!(!parsed_commands_block_for_prompt(&parsed));

    let parsed = vec![command(
        "command-prompt",
        vec![word("-p"), word("test"), block(vec![command("display-message", vec![word("hi")])])],
    )];
    assert!(parsed_commands_block_for_prompt(&parsed));

    let parsed = vec![command(
        "confirm-before",
        vec![word("-by"), block(vec![command("kill-window", vec![])])],
    )];
    assert!(!parsed_commands_block_for_prompt(&parsed));

    let parsed = vec![command("display-panes", vec![])];
    assert!(parsed_commands_block_for_prompt(&parsed));

    let parsed = vec![command("display-panes", vec![word("-b")])];
    assert!(!parsed_commands_block_for_prompt(&parsed));
}

#[test]
fn commands_block_detection_handles_combined_flags() {
    assert!(!parsed_command_blocks_for_prompt(&command("command-prompt", vec![word("-bF")])));
    assert!(!parsed_command_blocks_for_prompt(&command("command-prompt", vec![word("-iI")])));
    assert!(parsed_command_blocks_for_prompt(&command("command-prompt", vec![word("-p"), word("x")])));
    assert!(!parsed_command_blocks_for_prompt(&command("confirm-before", vec![word("-by")])));
    // `-i` makes only command-prompt incremental.
    assert!(parsed_command_blocks_for_prompt(&command("confirm-before", vec![word("-i")])));
    assert!(parsed_command_blocks_for_prompt(&command("display-panes", vec![])));
    assert!(!parsed_command_blocks_for_prompt(&command("display-panes", vec![word("-b")])));
    assert!(!parsed_command_blocks_for_prompt(&command("split-window", vec![])));
}

#[test]
fn web_controls_whitelist_excludes_cross_session_inventory_and_destructive_commands() {
    let split = vec![command("split-window", vec![word("-h")])];
    assert!(web_controls_commands_allowed(&split));

    let split_other = vec![command("split-window", vec![word("-t"), word("other"), word("-h")])];
    assert!(!web_controls_commands_allowed(&split_other));

    let rename_other =
        vec![command("rename-window", vec![word("-t"), word("other:0"), word("web")])];
    assert!(!web_controls_commands_allowed(&rename_other));

    let choose_tree = vec![command("choose-tree", vec![])];
    assert!(!web_controls_commands_allowed(&choose_tree));

    let kill_session = vec![command("kill-session", vec![])];
    assert!(!web_controls_commands_allowed(&kill_session));

    let nested_run_shell = vec![command(
        "if-shell",
        vec![word("true"), block(vec![command("run-shell", vec![word("touch /tmp/rmux-pwned")])])],
    )];
    assert!(!web_controls_commands_allowed(&nested_run_shell));
}

#[test]
fn nested_blocks_are_checked_too() {
    let inner_bad = command(
        "display-panes",
        vec![block(vec![command("select-pane", vec![]), command("kill-server", vec![])])],
    );
    assert!(!web_controls_command_allowed(&inner_bad));
    let inner_good = command(
        "display-panes",
        vec![block(vec![command("select-pane", vec![word("-L")])])],
    );
    assert!(web_controls_command_allowed(&inner_good));
    assert!(web_controls_commands_allowed(&vec![]));
}

#[test]
fn target_options_are_recognised_before_a_double_dash() {
    assert!(is_target_option("-t"));
    assert!(is_target_option("-dt"));
    assert!(is_target_option("-s"));
    assert!(is_target_option("--target"));
    assert!(is_target_option("--session=x"));
    assert!(!is_target_option("--other"));
    assert!(!is_target_option("-"));
    assert!(!is_target_option("t"));
    assert!(!is_target_option("-h"));
    assert!(!contains_cross_target_option(&command(
        "display-message",
        vec![word("--"), word("-t")]
    )));
    assert!(contains_cross_target_option(&command("select-pane", vec![word("-L"), word("-t")])));
}

#[test]
fn list_keys_opens_attached_output() {
    assert!(parsed_commands_open_attached_output(&vec![
        command("display-message", vec![]),
        command("list-keys", vec![]),
    ]));
    assert!(!parsed_commands_open_attached_output(&vec![command("list-buffers", vec![])]));
}

#[test]
fn operators_connect_once_and_readers_up_to_capacity() {
    let mut book = LeaseBook::new(1);
    let read = connect(&mut book, false, None, None, WebShareConnectRole::Read).unwrap();
    assert!(matches!(read, WebShareGrant::Read(_)));
    assert!(matches!(
        connect(&mut book, false, None, None, WebShareConnectRole::Read),
        Err(ShareError::ReadLimitReached)
    ));
    assert!(matches!(
        connect(&mut book, false, None, None, WebShareConnectRole::Operator),
        Err(ShareError::NotWritable)
    ));
    let op = connect(&mut book, true, None, None, WebShareConnectRole::Operator).unwrap();
    assert!(matches!(op, WebShareGrant::Operator(_)));
    assert!(matches!(
        connect(&mut book, true, None, None, WebShareConnectRole::Operator),
        Err(ShareError::OperatorAlreadyConnected)
    ));
    let counts = WebShareConnectionCounts::of_book(&book, 1);
    assert_eq!(counts.readers_active, 1);
    assert!(counts.operator_connected);
    assert_eq!(counts.viewers_connected, 2);
}

#[test]
fn pairing_codes_gate_both_roles() {
    let mut book = LeaseBook::new(4);
    assert!(matches!(
        connect(&mut book, true, Some("123456"), None, WebShareConnectRole::Read),
        Err(ShareError::MissingPairingCode)
    ));
    assert!(matches!(
        connect(&mut book, true, Some("123456"), Some("000000"), WebShareConnectRole::Operator),
        Err(ShareError::InvalidPairingCode)
    ));
    assert!(!book.operator_connected());
    assert_eq!(book.reader_count(), 0);
    assert!(connect(&mut book, true, Some("123456"), Some("123456"), WebShareConnectRole::Read).is_ok());
    assert_eq!(check_pairing_code(None, Some("x")), Ok(()));
    assert_eq!(check_pairing_code(Some("1"), Some("1")), Ok(()));
}

#[test]
fn connection_counts_saturate() {
    let c = WebShareConnectionCounts::new(u16::MAX, 3, true);
    assert_eq!(c.viewers_connected, u16::MAX);
    let c = WebShareConnectionCounts::new(2, 3, false);
    assert_eq!(c.viewers_connected, 2);
}

#[test]
fn auth_failures_are_recognised_by_message() {
    assert!(is_auth_failure_for_backoff(ShareError::InvalidPairingCode.message()));
    assert!(is_auth_failure_for_backoff(ShareError::NotFound.message()));
    assert!(is_auth_failure_for_backoff("invalid web-share key"));
    assert!(!is_auth_failure_for_backoff(ShareError::ReadLimitReached.message()));
    assert_eq!(ShareError::NotWritable.message(), "web-share is not writable for operator role");
}

#[test]
fn revoke_reasons_have_wire_names() {
    assert_eq!(WebShareRevokeReason::PaneGone.as_str(), "pane_gone");
    assert_eq!(WebShareRevokeReason::SessionGone.as_str(), "session_gone");
    assert_eq!(WebShareRevokeReason::StoppedByOwner.as_str(), "stopped_by_owner");
    assert_eq!(WebShareRevokeReason::TtlExpired.as_str(), "ttl_expired");
}

#[test]
fn create_requests_are_checked_in_order() {
    assert_eq!(validate_create(false, options()), Err(ShareError::ListenerUnavailable));
    assert_eq!(validate_create(true, options()), Ok(DEFAULT_MAX_READERS));
    let mut o = options();
    o.controls = true;
    assert_eq!(validate_create(true, o), Err(ShareError::ControlsRequireWritable));
    o.writable = true;
    assert_eq!(validate_create(true, o), Err(ShareError::ControlsRequireSession));
    o.pane_scope = false;
    o.max_readers = Some(0);
    assert_eq!(validate_create(true, o), Err(ShareError::NoReadSlot));
    o.max_readers = Some(9);
    assert_eq!(validate_create(true, o), Ok(9));
}

#[test]
fn kill_on_expire_needs_a_session_target() {
    let mut o = options();
    o.kill_session_on_expire = true;
    assert_eq!(check_kill_on_expire_target(o), Err(ShareError::KillOnExpireRequiresSession));
    o.session_target = true;
    assert_eq!(check_kill_on_expire_target(o), Ok(()));
    assert!(expiry_kills_session(true, true));
    assert!(!expiry_kills_session(true, false));
    assert!(!expiry_kills_session(false, true));
}

#[test]
fn expirations_resolve_within_seven_days() {
    let now = 1_700_000_000 * NANOS;
    assert_eq!(resolve_expiration(None, None, now), Ok(now + 3600 * NANOS));
    assert_eq!(resolve_expiration(Some(60), None, now), Ok(now + 60 * NANOS));
    assert_eq!(resolve_expiration(Some(0), None, now), Err(ShareError::TtlOutOfRange));
    assert_eq!(resolve_expiration(Some(604_801), None, now), Err(ShareError::TtlOutOfRange));
    assert_eq!(resolve_expiration(Some(604_800), None, now), Ok(now + 604_800 * NANOS));
    assert_eq!(
        resolve_expiration(Some(60), Some(1_700_000_100), now),
        Err(ShareError::TtlAndExpiresAtExclusive)
    );
    assert_eq!(
        resolve_expiration(None, Some(1_700_000_100), now),
        Ok(1_700_000_100 * NANOS)
    );
    assert_eq!(
        resolve_expiration(None, Some(1_700_000_000), now),
        Err(ShareError::ExpiryNotInFuture)
    );
    assert_eq!(
        resolve_expiration(None, Some(1_700_000_000 + 604_801), now),
        Err(ShareError::ExpiryTooFar)
    );
    assert_eq!(duration_until_unix(1_700_000_001, now), NANOS);
    assert_eq!(duration_until_unix(1, now), 0);
}

#[test]
fn settings_default_to_loopback_and_refuse_port_zero() {
    let s = WebShareSettings::default_settings();
    assert_eq!(s.host, "127.0.0.1");
    assert_eq!(s.port, DEFAULT_PORT);
    assert_eq!(s.frontend_origin, "https://share.rmux.io");
    assert_eq!(s.local_endpoint_origin(), "http://127.0.0.1:9777");
    assert!(matches!(WebShareSettings::with_port(0), Err(SettingsError::PortOutOfRange)));
    let s = WebShareSettings::with_port(8080).unwrap();
    assert_eq!(s.port, 8080);
    let l = s.listener();
    assert_eq!(l.host, "127.0.0.1");
    assert_eq!(l.port, 8080);
    assert_eq!(l.frontend_origin, "https://share.rmux.io");
    assert_eq!(local_endpoint_origin("::1", 1), "http://::1:1");
}
