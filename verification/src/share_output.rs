//! The text the `web-share` commands print: the links and details of a new
//! share, the list of shares, and what a stop did.

use vstd::prelude::*;
use vstd::string::StringExecFns;

use crate::share_record::WebShareSummary;
use crate::text::{ascii_chars, decimal, decimal_string};

verus! {

/// Latest Unix second that the expiry line formats: the last second of
/// `chrono`'s range of dates, 262142-12-31T23:59:59Z. A later second makes
/// `chrono` panic.
pub const RFC3339_MAX_SECONDS: u64 = 8_210_266_876_799;

/// What `chrono` writes for a Unix second as an RFC 3339 date and time in
/// UTC (`DateTime::<Utc>::to_rfc3339`).
pub uninterp spec fn rfc3339_of_unix(secs: u64) -> Seq<char>;

/// Calls `chrono::DateTime::<Utc>::from` on the system time `secs` seconds
/// after the Unix epoch, then `to_rfc3339`. Trusted: the result is the named
/// formatting; for seconds up to `RFC3339_MAX_SECONDS` the date is in range,
/// so neither the time arithmetic nor `chrono` panics.
#[verifier::external_body]
fn format_unix_rfc3339(secs: u64) -> (s: String)
    requires
        secs <= RFC3339_MAX_SECONDS,
    ensures
        s@ == rfc3339_of_unix(secs),
{
    let at = std::time::UNIX_EPOCH + std::time::Duration::from_secs(secs);
    chrono::DateTime::<chrono::Utc>::from(at).to_rfc3339()
}

/// What creating a share prints: its read link, then its expiry, whether the
/// session dies with it, and its pairing code, each on a line when present.
pub open spec fn spec_created_output(
    read_url: Seq<char>,
    pairing_code: Option<Seq<char>>,
    expires_at_unix: Option<u64>,
    kill_session_on_expire: bool,
) -> Seq<char> {
    "read "@ + read_url + "\n"@ + (match expires_at_unix {
        Some(at) => "share expires at "@ + rfc3339_of_unix(at) + "\n"@,
        None => Seq::empty(),
    }) + (if kill_session_on_expire {
        "session will be killed on expiry\n"@
    } else {
        Seq::empty()
    }) + match pairing_code {
        Some(code) => "pin "@ + code + "\n"@,
        None => Seq::empty(),
    }
}

/// Writes what creating a share prints.
pub fn created_output(
    read_url: &str,
    pairing_code: Option<&str>,
    expires_at_unix: Option<u64>,
    kill_session_on_expire: bool,
) -> (out: String)
    requires
        expires_at_unix matches Some(at) ==> at <= RFC3339_MAX_SECONDS,
    ensures
        out@ == spec_created_output(
            read_url@,
            match pairing_code {
                Some(c) => Some(c@),
                None => None,
            },
            expires_at_unix,
            kill_session_on_expire,
        ),
{
    let mut out = String::new();
    out.append("read ");
    out.append(read_url);
    out.append("\n");
    let ghost first = out@;
    if let Some(at) = expires_at_unix {
        let formatted = format_unix_rfc3339(at);
        out.append("share expires at ");
        out.append(formatted.as_str());
        out.append("\n");
    }
    let ghost second = out@;
    if kill_session_on_expire {
        out.append("session will be killed on expiry\n");
    }
    let ghost third = out@;
    if let Some(code) = pairing_code {
        out.append("pin ");
        out.append(code);
        out.append("\n");
    }
    proof {
        let pc = match pairing_code {
            Some(c) => Some(c@),
            None => None,
        };
        assert(out@ =~= spec_created_output(read_url@, pc, expires_at_unix, kill_session_on_expire));
    }
    out
}

/// One listing line: the share id, its scope and its redacted read link
/// (or `-`).
pub open spec fn listing_line(s: WebShareSummary) -> Seq<char> {
    s.share_id@ + " "@ + s.scope@ + " "@ + match s.read_url {
        Some(u) => u@,
        None => "-"@,
    } + "\n"@
}

/// The listing of shares, one line each, in order.
pub open spec fn spec_list_output(shares: Seq<WebShareSummary>) -> Seq<char>
    decreases shares.len(),
{
    if shares.len() == 0 {
        Seq::empty()
    } else {
        spec_list_output(shares.drop_last()) + listing_line(shares.last())
    }
}

/// Appends a share's listing line.
fn append_listing_line(out: &mut String, share: &WebShareSummary)
    ensures
        final(out)@ == old(out)@ + listing_line(*share),
{
    out.append(share.share_id.as_str());
    out.append(" ");
    out.append(share.scope.as_str());
    out.append(" ");
    match &share.read_url {
        Some(url) => out.append(url.as_str()),
        None => out.append("-"),
    }
    out.append("\n");
}

/// Writes the listing of shares.
pub fn list_output(shares: &[WebShareSummary]) -> (out: String)
    ensures
        out@ == spec_list_output(shares@),
{
    let mut out = String::new();
    let mut i: usize = 0;
    while i < shares.len()
        invariant
            i <= shares@.len(),
            out@ == spec_list_output(shares@.subrange(0, i as int)),
        decreases shares@.len() - i,
    {
        append_listing_line(&mut out, &shares[i]);
        proof {
            let prefix = shares@.subrange(0, i + 1);
            assert(prefix.drop_last() =~= shares@.subrange(0, i as int));
            assert(prefix.last() == shares@[i as int]);
        }
        i = i + 1;
    }
    assert(shares@.subrange(0, shares@.len() as int) =~= shares@);
    out
}

/// Writes what looking a share up prints: its listing line, or nothing.
pub fn lookup_output(share: Option<&WebShareSummary>) -> (out: String)
    ensures
        out@ == match share {
            Some(s) => listing_line(*s),
            None => Seq::<char>::empty(),
        },
{
    match share {
        Some(s) => {
            let mut out = String::new();
            append_listing_line(&mut out, s);
            out
        },
        None => String::new(),
    }
}

/// Writes what stopping a share prints: `stopped` or `missing`, then its id.
pub fn stopped_output(share_id: &str, stopped: bool) -> (out: String)
    ensures
        out@ == (if stopped {
            "stopped "@
        } else {
            "missing "@
        }) + share_id@ + "\n"@,
{
    let mut out = String::new();
    if stopped {
        out.append("stopped ");
    } else {
        out.append("missing ");
    }
    out.append(share_id);
    out.append("\n");
    out
}

/// Writes what stopping every share prints: `stopped` and how many.
pub fn stopped_all_output(stopped: u32) -> (out: String)
    ensures
        out@ == "stopped "@ + ascii_chars(decimal(stopped as nat)) + "\n"@,
{
    let mut out = String::new();
    out.append("stopped ");
    let count = decimal_string(stopped as u64);
    out.append(count.as_str());
    out.append("\n");
    out
}

} // verus!
