use rmux_web::join_move::{
    join_move_message, parse_join_move_flags, JoinMoveError, SizeArg, SplitDirection, ValueFlag,
};
use rmux_web::key_dispatch::{
    attached_key_step, cycle_pane, effective_key_table, AttachedKeyState, KeyAction, KeyBinding,
    KeyContext,
};

fn words(ws: &[&str]) -> Vec<String> {
    ws.iter().map(|w| w.to_string()).collect()
}

fn ctx(now: u64) -> KeyContext {
    KeyContext {
        default_table: "root".to_owned(),
        prefix_table: "prefix".to_owned(),
        prefix_timeout_ms: 0,
        repeat_time_ms: 500,
        initial_repeat_time_ms: 0,
        default_is_copy_mode: false,
        now,
    }
}

fn idle() -> AttachedKeyState {
    AttachedKeyState { table: None, table_set_at: None, repeat_deadline: None, repeat_active: false, last_key: None }
}

#[test]
fn prefix_key_enters_the_prefix_table() {
    let (state, action) = attached_key_step(&idle(), &ctx(5), true, None, None, false);
    assert_eq!(action, KeyAction::EnterPrefix { schedule_timeout: false });
    assert_eq!(state.table.as_deref(), Some("prefix"));
    assert_eq!(state.table_set_at, Some(5));
}

#[test]
fn bound_key_in_prefix_table_runs_and_returns_to_default() {
    let s = AttachedKeyState { table: Some("prefix".to_owned()), table_set_at: Some(0), ..idle() };
    let (table, clear) = effective_key_table(&s, &ctx(10));
    assert_eq!((table.as_str(), clear), ("prefix", false));
    let b = KeyBinding { key: 7, repeat: false };
    let (next, action) = attached_key_step(&s, &ctx(10), false, Some(b), None, false);
    assert_eq!(action, KeyAction::Run { key: 7, from_prefix_table: true, repeat_deadline: None });
    assert_eq!(next.table, None);
    assert_eq!(next.last_key, Some(7));
}

#[test]
fn repeatable_binding_stays_in_the_table_until_its_deadline() {
    let s = AttachedKeyState { table: Some("prefix".to_owned()), table_set_at: Some(0), ..idle() };
    let b = KeyBinding { key: 9, repeat: true };
    let (next, action) = attached_key_step(&s, &ctx(10), false, Some(b), None, false);
    assert_eq!(
        action,
        KeyAction::Run { key: 9, from_prefix_table: true, repeat_deadline: Some(10 + 500_000_000) }
    );
    assert_eq!(next.table.as_deref(), Some("prefix"));
    assert!(next.repeat_active);
    let (table, clear) = effective_key_table(&next, &ctx(10 + 500_000_001));
    assert_eq!((table.as_str(), clear), ("root", true));
}

#[test]
fn unbound_key_goes_on_to_the_pane() {
    let (next, action) = attached_key_step(&idle(), &ctx(1), false, None, None, false);
    assert_eq!(action, KeyAction::NotHandled);
    assert_eq!(next.table, None);
    let mut copy = ctx(1);
    copy.default_is_copy_mode = true;
    assert_eq!(attached_key_step(&idle(), &copy, false, None, None, false).1, KeyAction::Consumed);
}

#[test]
fn prefix_table_times_out() {
    let s = AttachedKeyState { table: Some("prefix".to_owned()), table_set_at: Some(0), ..idle() };
    let mut c = ctx(2_000_000_000);
    c.prefix_timeout_ms = 1000;
    let (table, clear) = effective_key_table(&s, &c);
    assert_eq!((table.as_str(), clear), ("root", true));
}

#[test]
fn panes_cycle_both_ways() {
    let panes = vec![0, 1, 3];
    assert_eq!(cycle_pane(&panes, 3, true), Some(0));
    assert_eq!(cycle_pane(&panes, 0, false), Some(3));
    assert_eq!(cycle_pane(&panes, 1, true), Some(3));
    assert_eq!(cycle_pane(&panes, 2, true), None);
}

#[test]
fn join_move_flags_read_up_to_the_first_other_word() {
    let f = parse_join_move_flags(&words(&["-b", "-h", "-l", "30%", "-s", "a:1", "-t", "b:2", "x"]))
        .unwrap();
    assert!(f.before && !f.detached && !f.full_size);
    assert_eq!(f.direction, SplitDirection::Horizontal);
    assert_eq!(f.size, Some(SizeArg::Percentage("30".to_owned())));
    assert_eq!(f.source.as_deref(), Some("a:1"));
    assert_eq!(f.target.as_deref(), Some("b:2"));
    assert_eq!(f.rest, 8);
    let f = parse_join_move_flags(&words(&["-d", "-l", "12", "--", "-f"])).unwrap();
    assert_eq!(f.direction, SplitDirection::Vertical);
    assert_eq!(f.size, Some(SizeArg::Absolute("12".to_owned())));
    assert_eq!(f.rest, 4);
    assert!(!f.full_size);
}

#[test]
fn join_move_flags_refuse_pairs_and_missing_values() {
    assert_eq!(parse_join_move_flags(&words(&["-h", "-v"])), Err(JoinMoveError::DirectionTwice));
    assert_eq!(
        parse_join_move_flags(&words(&["-l", "3", "-p", "50"])),
        Err(JoinMoveError::SizeTwice)
    );
    assert_eq!(
        parse_join_move_flags(&words(&["-t"])),
        Err(JoinMoveError::MissingValue(ValueFlag::Target))
    );
    assert_eq!(
        join_move_message("join-pane", JoinMoveError::DirectionTwice),
        Some("join-pane accepts only one of -h or -v".to_owned())
    );
    assert_eq!(
        join_move_message("move-pane", JoinMoveError::SizeTwice),
        Some("move-pane accepts only one of -l or -p".to_owned())
    );
}
