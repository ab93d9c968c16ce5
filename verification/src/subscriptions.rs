//! The checks and messages of pane-output subscriptions: how many events a
//! cursor read may return, how much recent output a lag notice carries, and
//! what a refused subscription is told.

use vstd::prelude::*;
use vstd::string::StringExecFns;

use crate::text::{ascii_chars, decimal, decimal_string};

verus! {

/// How many events a cursor read returns: the requested count, capped at
/// `default`, or `default` when none was asked; asking for none is refused.
pub fn cursor_event_limit(requested: Option<u16>, default: usize) -> (r: Result<usize, String>)
    ensures
        match requested {
            Some(0) => r matches Err(m) && m@ == "pane output cursor max_events must be greater than zero"@,
            Some(v) => r == Ok::<usize, String>(if (v as int) < default { v as usize } else { default }),
            None => r == Ok::<usize, String>(default),
        },
{
    match requested {
        Some(0) => Err("pane output cursor max_events must be greater than zero".to_owned()),
        Some(value) => {
            let v = value as usize;
            Ok(if v < default { v } else { default })
        },
        None => Ok(default),
    }
}

/// The recent output a lag notice carries: its last `max` bytes. When bytes
/// were cut, the oldest sequence number is no longer known.
pub fn lag_recent_output(recent: Vec<u8>, oldest_sequence: Option<u64>, max: usize) -> (r: (Vec<u8>, Option<u64>))
    ensures
        recent@.len() > max ==> r.0@ == recent@.subrange(recent@.len() - max, recent@.len() as int) && r.1 is None,
        recent@.len() <= max ==> r.0@ == recent@ && r.1 == oldest_sequence,
{
    if recent.len() > max {
        let mut bytes = recent;
        let len = bytes.len();
        let kept = bytes.split_off(len - max);
        (kept, None)
    } else {
        (recent, oldest_sequence)
    }
}

/// Which limit refused a subscription.
#[derive(Debug, Clone, Copy, PartialEq, Eq, Structural)]
pub enum SubscriptionLimitError {
    PerConnection { limit: usize },
    PerPane { limit: usize },
}

/// What a subscription refused by `e` is told.
pub open spec fn limit_message(e: SubscriptionLimitError) -> Seq<char> {
    match e {
        SubscriptionLimitError::PerConnection { limit } => "pane output subscription limit exceeded for connection (limit "@
            + ascii_chars(decimal(limit as nat)) + ")"@,
        SubscriptionLimitError::PerPane { limit } => "pane output subscription limit exceeded for pane (limit "@
            + ascii_chars(decimal(limit as nat)) + ")"@,
    }
}

/// The message of a refused subscription.
pub fn subscription_limit_error(e: SubscriptionLimitError) -> (m: String)
    ensures
        m@ == limit_message(e),
{
    let mut out = String::new();
    match e {
        SubscriptionLimitError::PerConnection { limit } => {
            out.append("pane output subscription limit exceeded for connection (limit ");
            let digits = decimal_string(limit as u64);
            out.append(digits.as_str());
        },
        SubscriptionLimitError::PerPane { limit } => {
            out.append("pane output subscription limit exceeded for pane (limit ");
            let digits = decimal_string(limit as u64);
            out.append(digits.as_str());
        },
    }
    out.append(")");
    proof {
        assert(out@ =~= limit_message(e));
    }
    out
}

} // verus!
