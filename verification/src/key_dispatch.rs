//! How an attached client's key press is dispatched: which key table it is
//! looked up in (the prefix table times out, a repeat window expires), when
//! it enters the prefix table, when it returns to the default table, and how
//! long a repeatable binding stays armed. Binding lookups are made by the
//! caller and handed in; this decides the rest. Instants are nanoseconds
//! on a monotonic clock.

use vstd::prelude::*;

use crate::ansi::str_eq;

verus! {

/// What an attached client remembers between key presses.
pub struct AttachedKeyState {
    /// The key table the client is in, when not the default one.
    pub table: Option<String>,
    /// When that table was entered.
    pub table_set_at: Option<u64>,
    /// Until when a repeatable binding stays armed.
    pub repeat_deadline: Option<u64>,
    pub repeat_active: bool,
    /// The key of the last binding run.
    pub last_key: Option<u64>,
}

/// The plain value of a client's key state.
pub struct KeyStateView {
    pub table: Option<Seq<char>>,
    pub table_set_at: Option<u64>,
    pub repeat_deadline: Option<u64>,
    pub repeat_active: bool,
    pub last_key: Option<u64>,
}

/// The characters of an optional string.
pub open spec fn opt_chars(s: Option<String>) -> Option<Seq<char>> {
    match s {
        Some(x) => Some(x@),
        None => None,
    }
}

/// The plain value of a key state.
pub open spec fn key_state_view(s: AttachedKeyState) -> KeyStateView {
    KeyStateView {
        table: opt_chars(s.table),
        table_set_at: s.table_set_at,
        repeat_deadline: s.repeat_deadline,
        repeat_active: s.repeat_active,
        last_key: s.last_key,
    }
}

/// A key binding found for the key: its key and whether it repeats.
#[derive(Debug, Clone, Copy, PartialEq, Eq, Structural)]
pub struct KeyBinding {
    pub key: u64,
    pub repeat: bool,
}

/// The session's settings that the dispatch reads, and the instant of the
/// key press.
pub struct KeyContext {
    /// The client's default key table.
    pub default_table: String,
    /// The name of the prefix table.
    pub prefix_table: String,
    pub prefix_timeout_ms: u64,
    pub repeat_time_ms: u64,
    pub initial_repeat_time_ms: u64,
    /// Whether the default table is a copy-mode table.
    pub default_is_copy_mode: bool,
    pub now: u64,
}

/// What to do with the key press.
#[derive(Debug, Clone, Copy, PartialEq, Eq, Structural)]
pub enum KeyAction {
    /// The key was the prefix: the client is now in the prefix table; arm
    /// the prefix timeout when it is not zero.
    EnterPrefix { schedule_timeout: bool },
    /// The key is consumed without running anything.
    Consumed,
    /// The key is not handled here and goes on to the pane.
    NotHandled,
    /// Run the binding of `key`; `from_prefix_table` when it was found in
    /// the prefix table; arm the repeat timeout at `repeat_deadline`.
    Run { key: u64, from_prefix_table: bool, repeat_deadline: Option<u64> },
}

/// Whole milliseconds from `since` to `now`, zero if `since` is later.
pub open spec fn elapsed_ms(now: u64, since: u64) -> int {
    if now >= since {
        (now - since) / 1_000_000
    } else {
        0
    }
}

/// The table a key press is looked up in, and whether the client's table
/// must be cleared first: the default table once the repeat window has
/// passed or the prefix table has timed out (outside a repeat), else the
/// client's table (the default one when it has none).
pub open spec fn spec_effective_table(
    s: KeyStateView,
    default: Seq<char>,
    prefix: Seq<char>,
    prefix_timeout_ms: u64,
    now: u64,
) -> (Seq<char>, bool) {
    let expired = (s.repeat_deadline matches Some(d) && now > d);
    let prefix_timed_out = s.table == Some(prefix) && prefix_timeout_ms != 0 && !s.repeat_active
        && (s.table_set_at matches Some(at) && elapsed_ms(now, at) > prefix_timeout_ms);
    if expired || prefix_timed_out {
        (default, true)
    } else {
        match s.table {
            Some(t) => (t, false),
            None => (default, false),
        }
    }
}

/// A client back in its default table, with nothing armed.
pub open spec fn idle_state() -> KeyStateView {
    KeyStateView { table: None, table_set_at: None, repeat_deadline: None, repeat_active: false, last_key: None }
}

/// The repeat window of a binding, in milliseconds: the initial repeat time
/// for the first press of a repeatable binding when set, else the repeat
/// time; zero for a binding that does not repeat.
pub open spec fn repeat_window_ms(s: KeyStateView, b: KeyBinding, repeat_ms: u64, initial_ms: u64) -> u64 {
    let first = !s.repeat_active || s.last_key != Some(b.key);
    if b.repeat {
        if first && initial_ms != 0 {
            initial_ms
        } else {
            repeat_ms
        }
    } else {
        0
    }
}

/// The client's next key state and the action for a key press. `table`
/// and `clear` are what `spec_effective_table` gives; `binding` is the
/// binding of the key in that table and `default_binding` in the default
/// table; `drop_unbound` tells whether an unbound key in the client's own
/// table is dropped.
pub open spec fn spec_key_step(
    s: KeyStateView,
    default: Seq<char>,
    prefix: Seq<char>,
    prefix_timeout_ms: u64,
    repeat_ms: u64,
    initial_ms: u64,
    default_is_copy_mode: bool,
    now: u64,
    prefix_match: bool,
    binding: Option<KeyBinding>,
    default_binding: Option<KeyBinding>,
    drop_unbound: bool,
) -> (KeyStateView, KeyAction) {
    let (table, clear0) = spec_effective_table(s, default, prefix, prefix_timeout_ms, now);
    if table == default && prefix_match {
        (
            KeyStateView {
                table: Some(prefix),
                table_set_at: Some(now),
                repeat_deadline: None,
                repeat_active: false,
                last_key: None,
            },
            KeyAction::EnterPrefix { schedule_timeout: prefix_timeout_ms != 0 },
        )
    } else {
        let from_prefix = table == prefix;
        let switch = s.repeat_active && table != default && (binding matches Some(b) && !b.repeat);
        let found = if switch {
            default_binding
        } else {
            binding
        };
        let clear = clear0 || switch;
        let off_default = (s.table matches Some(t) && t != default);
        match found {
            None => if s.table is Some && drop_unbound {
                (idle_state(), KeyAction::Consumed)
            } else {
                (
                    if clear || off_default {
                        idle_state()
                    } else {
                        s
                    },
                    if default_is_copy_mode {
                        KeyAction::Consumed
                    } else {
                        KeyAction::NotHandled
                    },
                )
            },
            Some(b) => {
                let window = repeat_window_ms(s, b, repeat_ms, initial_ms);
                let deadline = if b.repeat {
                    Some((now + 1_000_000 * (if window > 1 {
                        window
                    } else {
                        1
                    })) as u64)
                } else {
                    None
                };
                let back = off_default && !b.repeat;
                (
                    KeyStateView {
                        table: if back || clear {
                            None
                        } else {
                            s.table
                        },
                        table_set_at: if back || clear {
                            None
                        } else {
                            s.table_set_at
                        },
                        repeat_deadline: deadline,
                        repeat_active: b.repeat,
                        last_key: Some(b.key),
                    },
                    KeyAction::Run { key: b.key, from_prefix_table: from_prefix, repeat_deadline: deadline },
                )
            },
        }
    }
}

/// Copies an optional string.
fn copy_opt(s: &Option<String>) -> (r: Option<String>)
    ensures
        opt_chars(r) == opt_chars(*s),
{
    match s {
        Some(x) => Some(x.clone()),
        None => None,
    }
}

/// The table a key press is looked up in, and whether the client's table
/// is cleared first.
pub fn effective_key_table(state: &AttachedKeyState, ctx: &KeyContext) -> (r: (String, bool))
    ensures
        (r.0@, r.1) == spec_effective_table(
            key_state_view(*state),
            ctx.default_table@,
            ctx.prefix_table@,
            ctx.prefix_timeout_ms,
            ctx.now,
        ),
{
    let expired = match state.repeat_deadline {
        Some(d) => ctx.now > d,
        None => false,
    };
    let in_prefix = match &state.table {
        Some(t) => str_eq(t.as_str(), ctx.prefix_table.as_str()),
        None => false,
    };
    let timed_out = in_prefix && ctx.prefix_timeout_ms != 0 && !state.repeat_active && match state.table_set_at {
        Some(at) => {
            let ms: u64 = if ctx.now >= at {
                (ctx.now - at) / 1_000_000
            } else {
                0
            };
            ms > ctx.prefix_timeout_ms
        },
        None => false,
    };
    if expired || timed_out {
        (ctx.default_table.clone(), true)
    } else {
        match &state.table {
            Some(t) => (t.clone(), false),
            None => (ctx.default_table.clone(), false),
        }
    }
}

/// A client back in its default table, with nothing armed.
fn idle() -> (s: AttachedKeyState)
    ensures
        key_state_view(s) == idle_state(),
{
    AttachedKeyState { table: None, table_set_at: None, repeat_deadline: None, repeat_active: false, last_key: None }
}

/// Decides a key press of an attached client: its next key state and what
/// to do. `binding` is the key's binding in the table that
/// `effective_key_table` gives, `default_binding` its binding in the
/// default table, `prefix_match` whether it is a prefix key, and
/// `drop_unbound` whether an unbound key in the client's own table is
/// dropped.
pub fn attached_key_step(
    state: &AttachedKeyState,
    ctx: &KeyContext,
    prefix_match: bool,
    binding: Option<KeyBinding>,
    default_binding: Option<KeyBinding>,
    drop_unbound: bool,
) -> (r: (AttachedKeyState, KeyAction))
    requires
        ctx.now + 1_000_000 * (ctx.repeat_time_ms + ctx.initial_repeat_time_ms + 1) <= u64::MAX,
    ensures
        (key_state_view(r.0), r.1) == spec_key_step(
            key_state_view(*state),
            ctx.default_table@,
            ctx.prefix_table@,
            ctx.prefix_timeout_ms,
            ctx.repeat_time_ms,
            ctx.initial_repeat_time_ms,
            ctx.default_is_copy_mode,
            ctx.now,
            prefix_match,
            binding,
            default_binding,
            drop_unbound,
        ),
{
    let (table, clear0) = effective_key_table(state, ctx);
    let is_default = str_eq(table.as_str(), ctx.default_table.as_str());
    if is_default && prefix_match {
        return (
            AttachedKeyState {
                table: Some(ctx.prefix_table.clone()),
                table_set_at: Some(ctx.now),
                repeat_deadline: None,
                repeat_active: false,
                last_key: None,
            },
            KeyAction::EnterPrefix { schedule_timeout: ctx.prefix_timeout_ms != 0 },
        );
    }
    let from_prefix = str_eq(table.as_str(), ctx.prefix_table.as_str());
    let switch = state.repeat_active && !is_default && match binding {
        Some(b) => !b.repeat,
        None => false,
    };
    let found = if switch {
        default_binding
    } else {
        binding
    };
    let clear = clear0 || switch;
    let off_default = match &state.table {
        Some(t) => !str_eq(t.as_str(), ctx.default_table.as_str()),
        None => false,
    };
    match found {
        None => {
            if state.table.is_some() && drop_unbound {
                return (idle(), KeyAction::Consumed);
            }
            let next = if clear || off_default {
                idle()
            } else {
                AttachedKeyState {
                    table: copy_opt(&state.table),
                    table_set_at: state.table_set_at,
                    repeat_deadline: state.repeat_deadline,
                    repeat_active: state.repeat_active,
                    last_key: state.last_key,
                }
            };
            let action = if ctx.default_is_copy_mode {
                KeyAction::Consumed
            } else {
                KeyAction::NotHandled
            };
            (next, action)
        },
        Some(b) => {
            let first = !state.repeat_active || match state.last_key {
                Some(k) => k != b.key,
                None => true,
            };
            let window: u64 = if b.repeat {
                if first && ctx.initial_repeat_time_ms != 0 {
                    ctx.initial_repeat_time_ms
                } else {
                    ctx.repeat_time_ms
                }
            } else {
                0
            };
            let deadline = if b.repeat {
                let ms: u64 = if window > 1 {
                    window
                } else {
                    1
                };
                Some(ctx.now + 1_000_000 * ms)
            } else {
                None
            };
            let back = off_default && !b.repeat;
            let next = if back || clear {
                AttachedKeyState {
                    table: None,
                    table_set_at: None,
                    repeat_deadline: deadline,
                    repeat_active: b.repeat,
                    last_key: Some(b.key),
                }
            } else {
                AttachedKeyState {
                    table: copy_opt(&state.table),
                    table_set_at: state.table_set_at,
                    repeat_deadline: deadline,
                    repeat_active: b.repeat,
                    last_key: Some(b.key),
                }
            };
            (next, KeyAction::Run { key: b.key, from_prefix_table: from_prefix, repeat_deadline: deadline })
        },
    }
}

/// The prefix is entered only from the default table; a binding that does
/// not repeat leaves the client in its default table with nothing armed;
/// a repeatable one keeps it where it was (unless its table had lapsed) and
/// arms the repeat at least a millisecond ahead.
pub proof fn lemma_key_step_tables(
    s: KeyStateView,
    default: Seq<char>,
    prefix: Seq<char>,
    prefix_timeout_ms: u64,
    repeat_ms: u64,
    initial_ms: u64,
    copy: bool,
    now: u64,
    prefix_match: bool,
    binding: Option<KeyBinding>,
    default_binding: Option<KeyBinding>,
    drop_unbound: bool,
)
    requires
        now + 1_000_000 * (repeat_ms + initial_ms + 1) <= u64::MAX,
    ensures
        ({
            let (next, action) = spec_key_step(
                s,
                default,
                prefix,
                prefix_timeout_ms,
                repeat_ms,
                initial_ms,
                copy,
                now,
                prefix_match,
                binding,
                default_binding,
                drop_unbound,
            );
            &&& action is EnterPrefix ==> spec_effective_table(s, default, prefix, prefix_timeout_ms, now).0 == default
                && next.table == Some(prefix)
            &&& (action matches KeyAction::Run { key, repeat_deadline, .. } && repeat_deadline is None)
                ==> next.table is None || next.table == Some(default) || next.table == s.table && !(s.table
                matches Some(t) && t != default)
            &&& action matches KeyAction::Run { repeat_deadline: Some(d), .. } ==> now < d && next.repeat_active
        }),
{
}

/// During a repeat, a key whose binding in the client's (non-default)
/// table does not repeat is resolved in the default table instead: it runs
/// the default table's binding when there is one, and otherwise the client
/// drops back to its default table with nothing armed and the key is
/// consumed (an unbound key it drops, or a copy-mode default table) or goes
/// on to the pane. Any binding run is one of the two handed in.
pub proof fn lemma_non_repeating_key_falls_back_to_default(
    s: KeyStateView,
    default: Seq<char>,
    prefix: Seq<char>,
    prefix_timeout_ms: u64,
    repeat_ms: u64,
    initial_ms: u64,
    copy: bool,
    now: u64,
    prefix_match: bool,
    binding: Option<KeyBinding>,
    default_binding: Option<KeyBinding>,
    drop_unbound: bool,
)
    ensures
        ({
            let (next, action) = spec_key_step(
                s,
                default,
                prefix,
                prefix_timeout_ms,
                repeat_ms,
                initial_ms,
                copy,
                now,
                prefix_match,
                binding,
                default_binding,
                drop_unbound,
            );
            &&& action matches KeyAction::Run { key, .. } ==> ((binding matches Some(b) && key == b.key) || (
            default_binding matches Some(d) && key == d.key))
            &&& (s.repeat_active && spec_effective_table(s, default, prefix, prefix_timeout_ms, now).0 != default
                && (binding matches Some(b) && !b.repeat)) ==> match default_binding {
                Some(d) => action matches KeyAction::Run { key, .. } && key == d.key,
                None => next == idle_state() && action == (if (s.table is Some && drop_unbound) || copy {
                    KeyAction::Consumed
                } else {
                    KeyAction::NotHandled
                }),
            }
        }),
{
}

/// The pane after the active one in a window's panes (listed by index, in
/// order), going forward or back and wrapping around; `None` when the
/// active pane is not listed.
pub open spec fn spec_cycle_pane(panes: Seq<u32>, active: u32, forward: bool) -> Option<u32> {
    match panes.index_of_first(active) {
        Some(p) => {
            let n = panes.len() as int;
            Some(
                if forward {
                    panes[(p + 1) % n]
                } else {
                    panes[(p + n - 1) % n]
                },
            )
        },
        None => None,
    }
}

/// The pane to select when cycling from the active one.
pub fn cycle_pane(panes: &Vec<u32>, active: u32, forward: bool) -> (r: Option<u32>)
    ensures
        r == spec_cycle_pane(panes@, active, forward),
{
    let mut i: usize = 0;
    while i < panes.len()
        invariant
            i <= panes@.len(),
            forall|j: int| 0 <= j < i ==> panes@[j] != active,
        decreases panes@.len() - i,
    {
        if panes[i] == active {
            let n = panes.len();
            proof {
                assert(panes@.contains(active));
                panes@.index_of_first_ensures(active);
                let q = panes@.index_of_first(active)->Some_0;
                assert(q == i as int) by {
                    if q < i as int {
                        assert(panes@[q] != active);
                    }
                }
                if i == 0 {
                    assert((0 + n as int - 1) % (n as int) == n as int - 1) by (nonlinear_arith)
                        requires
                            n >= 1,
                    ;
                } else {
                    assert((i as int + n as int - 1) % (n as int) == i as int - 1) by (nonlinear_arith)
                        requires
                            1 <= i < n,
                    ;
                }
            }
            let next = if forward {
                (i + 1) % n
            } else if i == 0 {
                n - 1
            } else {
                i - 1
            };
            return Some(panes[next]);
        }
        i = i + 1;
    }
    proof {
        panes@.index_of_first_ensures(active);
    }
    None
}

} // verus!
