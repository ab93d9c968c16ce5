//! The listener's view of an HTTP request: its method, routing path and
//! headers (names in lower case), and whether it asks for a websocket.

use vstd::prelude::*;
use vstd::utf8::encode_utf8;

use crate::ansi::str_eq;
use crate::urls::{bytes_eq_ignore_ascii_case, eq_ignore_ascii_case, first_byte, lemma_first_byte_bounds};

verus! {

/// `websocket`.
pub const WEBSOCKET_TOKEN: [u8; 9] = [0x77, 0x65, 0x62, 0x73, 0x6f, 0x63, 0x6b, 0x65, 0x74];
/// `upgrade`.
pub const UPGRADE_TOKEN: [u8; 7] = [0x75, 0x70, 0x67, 0x72, 0x61, 0x64, 0x65];

/// A parsed request head.
#[derive(Debug, Clone)]
pub struct HttpRequest {
    pub method: String,
    pub path: String,
    pub headers: Vec<(String, String)>,
}

/// Whether a byte is a space or a tab.
pub open spec fn is_blank(c: u8) -> bool {
    c == 0x20 || c == 0x09
}

/// Skips blanks forwards from `lo` within `[lo, hi)`.
pub open spec fn trim_lo(b: Seq<u8>, lo: int, hi: int) -> int
    decreases hi - lo,
{
    if lo < hi && is_blank(b[lo]) {
        trim_lo(b, lo + 1, hi)
    } else {
        lo
    }
}

/// Skips blanks backwards from `hi` within `[lo, hi)`.
pub open spec fn trim_hi(b: Seq<u8>, lo: int, hi: int) -> int
    decreases hi - lo,
{
    if lo < hi && is_blank(b[hi - 1]) {
        trim_hi(b, lo, hi - 1)
    } else {
        hi
    }
}

/// The bytes of `[lo, hi)` without surrounding blanks.
pub open spec fn trimmed(b: Seq<u8>, lo: int, hi: int) -> Seq<u8> {
    let l = trim_lo(b, lo, hi);
    b.subrange(l, trim_hi(b, l, hi))
}

/// Whether some comma-separated item from `from`, trimmed, is `upgrade` in
/// any case.
pub open spec fn has_upgrade_token(b: Seq<u8>, from: int) -> bool
    decreases b.len() - from,
{
    if from < 0 || from > b.len() {
        false
    } else {
        let e = first_byte(b, from, b.len() as int, 0x2c);
        if eq_ignore_ascii_case(trimmed(b, from, e), UPGRADE_TOKEN@) {
            true
        } else if e < b.len() {
            proof {
                lemma_first_byte_bounds(b, from, b.len() as int, 0x2c);
            }
            has_upgrade_token(b, e + 1)
        } else {
            false
        }
    }
}

/// The value of the first header with the given name.
pub fn header<'a>(headers: &'a Vec<(String, String)>, name: &str) -> (value: Option<&'a str>)
    ensures
        value is None ==> forall|i: int| 0 <= i < headers@.len() ==> #[trigger] headers@[i].0@ != name@,
        value matches Some(v) ==> exists|i: int|
            0 <= i < headers@.len() && headers@[i].0@ == name@ && #[trigger] headers@[i].1@ == v@
                && forall|j: int| 0 <= j < i ==> #[trigger] headers@[j].0@ != name@,
{
    let mut i: usize = 0;
    while i < headers.len()
        invariant
            i <= headers@.len(),
            forall|j: int| 0 <= j < i ==> #[trigger] headers@[j].0@ != name@,
        decreases headers@.len() - i,
    {
        if str_eq(headers[i].0.as_str(), name) {
            assert(headers@[i as int].1@ == headers[i as int].1@);
            return Some(headers[i].1.as_str());
        }
        i = i + 1;
    }
    None
}

/// Scans `[lo, hi)` for its trimmed bounds.
fn trim_bounds(b: &[u8], lo: usize, hi: usize) -> (r: (usize, usize))
    requires
        lo <= hi <= b@.len(),
    ensures
        r.0 == trim_lo(b@, lo as int, hi as int),
        r.1 == trim_hi(b@, r.0 as int, hi as int),
        lo <= r.0 <= r.1 <= hi,
{
    let mut l = lo;
    while l < hi && (b[l] == 0x20 || b[l] == 0x09)
        invariant
            lo <= l <= hi <= b@.len(),
            trim_lo(b@, lo as int, hi as int) == trim_lo(b@, l as int, hi as int),
        decreases hi - l,
    {
        l = l + 1;
    }
    let mut h = hi;
    while h > l && (b[h - 1] == 0x20 || b[h - 1] == 0x09)
        invariant
            lo <= l <= h <= hi <= b@.len(),
            l == trim_lo(b@, lo as int, hi as int),
            trim_hi(b@, l as int, hi as int) == trim_hi(b@, l as int, h as int),
        decreases h - l,
    {
        h = h - 1;
    }
    (l, h)
}

/// Whether a `Connection` value lists the `upgrade` token.
pub fn connection_has_upgrade(value: &[u8]) -> (r: bool)
    ensures
        r == has_upgrade_token(value@, 0),
{
    let mut from: usize = 0;
    while from <= value.len()
        invariant
            has_upgrade_token(value@, 0) == has_upgrade_token(value@, from as int),
        decreases value@.len() + 1 - from,
    {
        let mut e = from;
        while e < value.len() && value[e] != 0x2c
            invariant
                from <= e <= value@.len(),
                first_byte(value@, from as int, value@.len() as int, 0x2c) == first_byte(
                    value@,
                    e as int,
                    value@.len() as int,
                    0x2c,
                ),
            decreases value@.len() - e,
        {
            e = e + 1;
        }
        let (l, h) = trim_bounds(value, from, e);
        let (_, rest) = value.split_at(l);
        let (item, _) = rest.split_at(h - l);
        assert(item@ =~= trimmed(value@, from as int, e as int));
        if bytes_eq_ignore_ascii_case(item, &UPGRADE_TOKEN) {
            return true;
        }
        if e >= value.len() {
            return false;
        }
        from = e + 1;
    }
    false
}

/// Whether headers ask to upgrade to a websocket: the first `upgrade`
/// header is `websocket` and the first `connection` header lists `upgrade`,
/// both in any case.
pub open spec fn wants_websocket(headers: Seq<(String, String)>) -> bool {
    exists|i: int, j: int|
        0 <= i < headers.len() && 0 <= j < headers.len()
            && #[trigger] headers[i].0@ == "upgrade"@ && (forall|k: int| 0 <= k < i ==> #[trigger] headers[k].0@ != "upgrade"@)
            && eq_ignore_ascii_case(encode_utf8(headers[i].1@), WEBSOCKET_TOKEN@)
            && #[trigger] headers[j].0@ == "connection"@ && (forall|k: int| 0 <= k < j ==> #[trigger] headers[k].0@ != "connection"@)
            && has_upgrade_token(encode_utf8(headers[j].1@), 0)
}

impl HttpRequest {
    /// Whether the request asks to upgrade to a websocket: an `upgrade`
    /// header of `websocket` and a `connection` header listing `upgrade`,
    /// both in any case.
    pub fn is_websocket_upgrade(&self) -> (r: bool)
        ensures
            r == wants_websocket(self.headers@),
    {
        let upgrade = match header(&self.headers, "upgrade") {
            Some(v) => v,
            None => return false,
        };
        let connection = match header(&self.headers, "connection") {
            Some(v) => v,
            None => return false,
        };
        let is_ws = bytes_eq_ignore_ascii_case(upgrade.as_bytes(), &WEBSOCKET_TOKEN);
        let has_up = connection_has_upgrade(connection.as_bytes());
        proof {
            let i = choose|i: int|
                0 <= i < self.headers@.len() && self.headers@[i].0@ == "upgrade"@ && #[trigger] self.headers@[i].1@ == upgrade@
                    && forall|j: int| 0 <= j < i ==> #[trigger] self.headers@[j].0@ != "upgrade"@;
            let j = choose|j: int|
                0 <= j < self.headers@.len() && self.headers@[j].0@ == "connection"@ && #[trigger] self.headers@[j].1@ == connection@
                    && forall|k: int| 0 <= k < j ==> #[trigger] self.headers@[k].0@ != "connection"@;
            assert forall|i2: int, j2: int|
                0 <= i2 < self.headers@.len() && 0 <= j2 < self.headers@.len()
                    && #[trigger] self.headers@[i2].0@ == "upgrade"@ && (forall|k: int| 0 <= k < i2 ==> #[trigger] self.headers@[k].0@ != "upgrade"@)
                    && #[trigger] self.headers@[j2].0@ == "connection"@ && (forall|k: int| 0 <= k < j2 ==> #[trigger] self.headers@[k].0@ != "connection"@)
                implies i2 == i && j2 == j by {
                if i2 < i {
                    assert(self.headers@[i2].0@ != "upgrade"@);
                }
                if i < i2 {
                    assert(self.headers@[i].0@ != "upgrade"@);
                }
                if j2 < j {
                    assert(self.headers@[j2].0@ != "connection"@);
                }
                if j < j2 {
                    assert(self.headers@[j].0@ != "connection"@);
                }
            }
        }
        is_ws && has_up
    }
}

/// A request with the given method, path and headers.
pub fn request_with_headers(method: &str, path: &str, headers: Vec<(String, String)>) -> (r: HttpRequest)
    ensures
        r.method@ == method@,
        r.path@ == path@,
        r.headers@ == headers@,
{
    HttpRequest { method: method.to_owned(), path: path.to_owned(), headers }
}

} // verus!
