//! Addresses of the web-share listener: the websocket endpoint of a base
//! URL, the local endpoint origin, the token in a share URL's fragment, the
//! routing path of a request target, the websocket upgrade test of a
//! request, and the listener's default settings.

use vstd::prelude::*;
use vstd::utf8::{decode_utf8, encode_utf8, valid_utf8};

use crate::bytes::{matches_at, push_all};
use crate::text::{
    ascii_chars, decimal, lemma_ascii_boundaries, lemma_ascii_encoding,
    lemma_decimal_ascii, lemma_valid_between_boundaries, push_decimal, utf8_string, all_ascii,
};

verus! {

broadcast use vstd::utf8::group_utf8_lib;

/// `://`.
pub const SCHEME_SEPARATOR: [u8; 3] = [0x3a, 0x2f, 0x2f];
/// `/share`.
pub const SHARE_PATH: [u8; 6] = [0x2f, 0x73, 0x68, 0x61, 0x72, 0x65];
/// `https`.
pub const HTTPS: [u8; 5] = [0x68, 0x74, 0x74, 0x70, 0x73];
/// `wss`.
pub const WSS: [u8; 3] = [0x77, 0x73, 0x73];
/// `ws`.
pub const WS: [u8; 2] = [0x77, 0x73];
/// `http://`.
pub const HTTP_PREFIX: [u8; 7] = [0x68, 0x74, 0x74, 0x70, 0x3a, 0x2f, 0x2f];
/// Port the listener binds by default.
pub const DEFAULT_PORT: u16 = 9777;

/// Whether `needle` occurs in `b` at `i`.
pub open spec fn occurs_at(b: Seq<u8>, i: int, needle: Seq<u8>) -> bool {
    0 <= i && i + needle.len() <= b.len() && b.subrange(i, i + needle.len()) == needle
}

/// Whether `i` is the first place `needle` occurs in `b` at or after `from`.
pub open spec fn first_occurrence(b: Seq<u8>, from: int, needle: Seq<u8>, i: int) -> bool {
    &&& from <= i
    &&& occurs_at(b, i, needle)
    &&& forall|j: int| from <= j < i ==> !#[trigger] occurs_at(b, j, needle)
}

/// Whether `needle` occurs in `b` at or after `from`.
pub open spec fn occurs_from(b: Seq<u8>, from: int, needle: Seq<u8>) -> bool {
    exists|i: int| from <= i && #[trigger] occurs_at(b, i, needle)
}

/// Finds the first place `needle` occurs in `b` at or after `from`.
pub fn find_from(b: &[u8], from: usize, needle: &[u8]) -> (r: Option<usize>)
    requires
        from <= b@.len(),
    ensures
        r matches Some(i) ==> first_occurrence(b@, from as int, needle@, i as int),
        r is None ==> !occurs_from(b@, from as int, needle@),
{
    let mut i = from;
    while i < b.len()
        invariant
            from <= i <= b@.len(),
            forall|j: int| from <= j < i ==> !#[trigger] occurs_at(b@, j, needle@),
        decreases b@.len() - i,
    {
        if matches_at(b, i, needle) {
            return Some(i);
        }
        i = i + 1;
    }
    if matches_at(b, i, needle) {
        return Some(i);
    }
    assert forall|j: int| from <= j implies !#[trigger] occurs_at(b@, j, needle@) by {
        if j > i {
            assert(j + needle@.len() > b@.len());
        }
    }
    None
}

/// A byte folded to lower case if it is an upper-case ASCII letter.
pub open spec fn ascii_lower(c: u8) -> u8 {
    if 0x41 <= c && c <= 0x5a {
        (c + 32) as u8
    } else {
        c
    }
}

/// Whether two byte strings are equal ignoring ASCII case.
pub open spec fn eq_ignore_ascii_case(a: Seq<u8>, b: Seq<u8>) -> bool {
    a.len() == b.len() && forall|i: int| 0 <= i < a.len() ==> #[trigger] ascii_lower(a[i]) == ascii_lower(b[i])
}

/// Compares two byte strings ignoring ASCII case.
pub fn bytes_eq_ignore_ascii_case(a: &[u8], b: &[u8]) -> (r: bool)
    ensures
        r == eq_ignore_ascii_case(a@, b@),
{
    if a.len() != b.len() {
        return false;
    }
    let mut i: usize = 0;
    while i < a.len()
        invariant
            a@.len() == b@.len(),
            i <= a@.len(),
            forall|j: int| 0 <= j < i ==> #[trigger] ascii_lower(a@[j]) == ascii_lower(b@[j]),
        decreases a@.len() - i,
    {
        let x = if 0x41 <= a[i] && a[i] <= 0x5a { a[i] + 32 } else { a[i] };
        let y = if 0x41 <= b[i] && b[i] <= 0x5a { b[i] + 32 } else { b[i] };
        assert(x == ascii_lower(a@[i as int]));
        assert(y == ascii_lower(b@[i as int]));
        if x != y {
            return false;
        }
        i = i + 1;
    }
    true
}

/// The websocket endpoint of a base URL with a scheme: `wss` for an `https`
/// base (in any case), else `ws`, then `://`, the rest of the base and
/// `/share`, as bytes.
pub open spec fn spec_websocket_endpoint(b: Seq<u8>, p: int) -> Seq<u8> {
    (if eq_ignore_ascii_case(b.subrange(0, p), HTTPS@) {
        WSS@
    } else {
        WS@
    }) + SCHEME_SEPARATOR@ + b.subrange(p + 3, b.len() as int) + SHARE_PATH@
}

/// Where `://` first occurs in a base URL.
pub open spec fn scheme_separator_at(b: Seq<u8>) -> int {
    choose|p: int| first_occurrence(b, 0, SCHEME_SEPARATOR@, p)
}

/// The bytes of the websocket endpoint of a base URL that holds `://`.
pub open spec fn spec_endpoint_of(b: Seq<u8>) -> Seq<u8> {
    spec_websocket_endpoint(b, scheme_separator_at(b))
}

/// A needle first occurs in one place only.
proof fn lemma_first_occurrence_unique(b: Seq<u8>, from: int, needle: Seq<u8>, p: int, q: int)
    requires
        first_occurrence(b, from, needle, p),
        first_occurrence(b, from, needle, q),
    ensures
        p == q,
{
    if p < q {
        assert(!occurs_at(b, p, needle));
    }
    if q < p {
        assert(!occurs_at(b, q, needle));
    }
}

/// The websocket endpoint of a base URL, which must hold `://`.
pub fn websocket_endpoint(base_url: &str) -> (endpoint: String)
    requires
        occurs_from(encode_utf8(base_url@), 0, SCHEME_SEPARATOR@),
    ensures
        exists|p: int|
            first_occurrence(encode_utf8(base_url@), 0, SCHEME_SEPARATOR@, p) && valid_utf8(
                spec_websocket_endpoint(encode_utf8(base_url@), p),
            ) && endpoint@ == decode_utf8(#[trigger] spec_websocket_endpoint(encode_utf8(base_url@), p)),
        encode_utf8(endpoint@) == spec_endpoint_of(encode_utf8(base_url@)),
{
    let b = base_url.as_bytes();
    let p = match find_from(b, 0, &SCHEME_SEPARATOR) {
        Some(p) => p,
        None => {
            return String::new();
        },
    };
    let (scheme, rest) = b.split_at(p);
    let (_, authority) = rest.split_at(3);
    assert(authority@ =~= b@.subrange(p + 3, b@.len() as int));
    let mut out: Vec<u8> = Vec::new();
    if bytes_eq_ignore_ascii_case(scheme, &HTTPS) {
        push_all(&mut out, &WSS);
    } else {
        push_all(&mut out, &WS);
    }
    push_all(&mut out, &SCHEME_SEPARATOR);
    push_all(&mut out, authority);
    push_all(&mut out, &SHARE_PATH);
    proof {
        let e = spec_websocket_endpoint(b@, p as int);
        assert(out@ =~= e);
        assert(b@.subrange(p as int, p + 3) == SCHEME_SEPARATOR@);
        assert(b@[p + 2] == 0x2f);
        lemma_ascii_boundaries(b@, p + 2);
        vstd::utf8::is_char_boundary_start_end_of_seq(b@);
        lemma_valid_between_boundaries(b@, p + 3, b@.len() as int);
        let head = if eq_ignore_ascii_case(b@.subrange(0, p as int), HTTPS@) { WSS@ } else { WS@ };
        assert(all_ascii(head + SCHEME_SEPARATOR@));
        lemma_ascii_encoding(head + SCHEME_SEPARATOR@);
        assert(all_ascii(SHARE_PATH@));
        lemma_ascii_encoding(SHARE_PATH@);
        vstd::utf8::valid_utf8_concat(head + SCHEME_SEPARATOR@, authority@);
        vstd::utf8::valid_utf8_concat(head + SCHEME_SEPARATOR@ + authority@, SHARE_PATH@);
    }
    let endpoint = utf8_string(out.as_slice());
    proof {
        let bb = encode_utf8(base_url@);
        let q = scheme_separator_at(bb);
        assert(first_occurrence(bb, 0, SCHEME_SEPARATOR@, p as int));
        lemma_first_occurrence_unique(bb, 0, SCHEME_SEPARATOR@, p as int, q);
        vstd::utf8::decode_utf8_encode_utf8(out@);
    }
    endpoint
}

/// Builds the origin of the local endpoint.
pub fn local_endpoint_origin(host: &str, port: u16) -> (origin: String)
    ensures
        origin@ == ascii_chars(HTTP_PREFIX@) + host@ + ascii_chars(seq![0x3au8]) + ascii_chars(
            decimal(port as nat),
        ),
{
    let mut out: Vec<u8> = Vec::new();
    push_all(&mut out, &HTTP_PREFIX);
    push_all(&mut out, host.as_bytes());
    out.push(0x3a);
    push_decimal(&mut out, port as u64);
    proof {
        lemma_decimal_ascii(port as nat);
        assert(all_ascii(HTTP_PREFIX@));
        lemma_ascii_encoding(HTTP_PREFIX@);
        let tail = seq![0x3au8] + decimal(port as nat);
        assert(all_ascii(tail));
        lemma_ascii_encoding(tail);
        lemma_ascii_encoding(seq![0x3au8]);
        lemma_ascii_encoding(decimal(port as nat));
        assert(ascii_chars(tail) =~= ascii_chars(seq![0x3au8]) + ascii_chars(decimal(port as nat)));
        let chars = ascii_chars(HTTP_PREFIX@) + host@ + ascii_chars(tail);
        crate::text::lemma_encode_concat(ascii_chars(HTTP_PREFIX@), host@);
        crate::text::lemma_encode_concat(ascii_chars(HTTP_PREFIX@) + host@, ascii_chars(tail));
        assert(out@ =~= encode_utf8(chars));
        assert(chars =~= ascii_chars(HTTP_PREFIX@) + host@ + ascii_chars(seq![0x3au8]) + ascii_chars(
            decimal(port as nat),
        ));
    }
    utf8_string(out.as_slice())
}

/// Where the `&`-separated segment starting at `i` ends.
pub open spec fn segment_end(b: Seq<u8>, i: int) -> int
    decreases b.len() - i,
{
    if i >= b.len() {
        b.len() as int
    } else if b[i] == 0x26 {
        i
    } else {
        segment_end(b, i + 1)
    }
}

/// The first place in `b[i..end]` holding byte `c`, or `end`.
pub open spec fn first_byte(b: Seq<u8>, i: int, end: int, c: u8) -> int
    decreases end - i,
{
    if i >= end {
        end
    } else if b[i] == c {
        i
    } else {
        first_byte(b, i + 1, end, c)
    }
}

/// A segment ends at or after its start, and no later than the bytes.
pub proof fn lemma_segment_end_bounds(b: Seq<u8>, i: int)
    requires
        i <= b.len(),
    ensures
        i <= segment_end(b, i) <= b.len(),
        segment_end(b, i) < b.len() ==> b[segment_end(b, i)] == 0x26,
        forall|k: int| i <= k < segment_end(b, i) ==> #[trigger] b[k] != 0x26,
    decreases b.len() - i,
{
    if i < b.len() && b[i] != 0x26 {
        lemma_segment_end_bounds(b, i + 1);
    }
}

/// The first place holding `c` lies in the range, and nothing before it
/// holds `c`.
pub proof fn lemma_first_byte_bounds(b: Seq<u8>, i: int, end: int, c: u8)
    requires
        0 <= i <= end <= b.len(),
    ensures
        i <= first_byte(b, i, end, c) <= end,
        first_byte(b, i, end, c) < end ==> b[first_byte(b, i, end, c)] == c,
        forall|k: int| i <= k < first_byte(b, i, end, c) ==> #[trigger] b[k] != c,
    decreases end - i,
{
    if i < end && b[i] != c {
        lemma_first_byte_bounds(b, i + 1, end, c);
    }
}

/// The value of the `t` parameter among the `&`-separated parameters from
/// byte `from`: the first parameter whose name (before its first `=`) is
/// `t`, as a byte range.
pub open spec fn spec_token_param(b: Seq<u8>, from: int) -> Option<(int, int)>
    decreases b.len() - from,
{
    if from < 0 || from > b.len() {
        None
    } else {
        let e = segment_end(b, from);
        let q = first_byte(b, from, e, 0x3d);
        if q < e && q == from + 1 && b[from] == 0x74 {
            Some((q + 1, e))
        } else if e < b.len() {
            proof {
                lemma_segment_end_bounds(b, from);
            }
            spec_token_param(b, e + 1)
        } else {
            None
        }
    }
}

/// The access token of a share URL: in the fragment after the first `#`,
/// the value of the first parameter named `t`.
pub open spec fn spec_token_from_url(b: Seq<u8>) -> Option<(int, int)> {
    let h = first_byte(b, 0, b.len() as int, 0x23);
    if h < b.len() {
        spec_token_param(b, h + 1)
    } else {
        None
    }
}

/// Scans for the first place in `b[i..end]` holding `c`.
fn find_byte(b: &[u8], i: usize, end: usize, c: u8) -> (r: usize)
    requires
        i <= end <= b@.len(),
    ensures
        r == first_byte(b@, i as int, end as int, c),
{
    let mut k = i;
    while k < end
        invariant
            i <= k <= end <= b@.len(),
            first_byte(b@, i as int, end as int, c) == first_byte(b@, k as int, end as int, c),
        decreases end - k,
    {
        if b[k] == c {
            return k;
        }
        k = k + 1;
    }
    end
}

/// Scans for where the segment starting at `i` ends.
fn find_segment_end(b: &[u8], i: usize) -> (r: usize)
    requires
        i <= b@.len(),
    ensures
        r == segment_end(b@, i as int),
{
    let mut k = i;
    while k < b.len()
        invariant
            i <= k <= b@.len(),
            segment_end(b@, i as int) == segment_end(b@, k as int),
        decreases b@.len() - k,
    {
        if b[k] == 0x26 {
            return k;
        }
        k = k + 1;
    }
    k
}

/// Reads the access token from a share URL, if it has one.
pub fn token_from_url(url: &str) -> (token: Option<String>)
    ensures
        match spec_token_from_url(encode_utf8(url@)) {
            Some((lo, hi)) => token matches Some(t) && t@ == decode_utf8(encode_utf8(url@).subrange(lo, hi)),
            None => token is None,
        },
{
    let b = url.as_bytes();
    let h = find_byte(b, 0, b.len(), 0x23);
    if h >= b.len() {
        return None;
    }
    let mut from = h + 1;
    while from <= b.len()
        invariant
            h < b@.len(),
            b@ == encode_utf8(url@),
            spec_token_from_url(b@) == spec_token_param(b@, from as int),
            h + 1 <= from,
        decreases b@.len() + 1 - from,
    {
        let e = find_segment_end(b, from);
        proof {
            lemma_segment_end_bounds(b@, from as int);
        }
        let q = find_byte(b, from, e, 0x3d);
        proof {
            lemma_first_byte_bounds(b@, from as int, e as int, 0x3d);
        }
        if q < e && q == from + 1 && b[from] == 0x74 {
            let (_, tail) = b.split_at(q + 1);
            let (value, _) = tail.split_at(e - q - 1);
            proof {
                assert(value@ =~= b@.subrange(q + 1, e as int));
                lemma_ascii_boundaries(b@, q as int);
                if e < b@.len() {
                    lemma_ascii_boundaries(b@, e as int);
                } else {
                    vstd::utf8::is_char_boundary_start_end_of_seq(b@);
                }
                lemma_valid_between_boundaries(b@, q + 1, e as int);
            }
            return Some(utf8_string(value));
        }
        if e >= b.len() {
            return None;
        }
        from = e + 1;
    }
    None
}

/// The routing path of a request target: the part before the first `?`.
pub open spec fn spec_path_from_target(b: Seq<u8>) -> Seq<u8> {
    b.subrange(0, first_byte(b, 0, b.len() as int, 0x3f))
}

/// The routing path of a request target, ignoring its query.
pub fn path_from_target(target: &str) -> (path: &str)
    ensures
        path@ == decode_utf8(spec_path_from_target(encode_utf8(target@))),
{
    let b = target.as_bytes();
    let q = find_byte(b, 0, b.len(), 0x3f);
    proof {
        lemma_first_byte_bounds(b@, 0, b@.len() as int, 0x3f);
        vstd::utf8::is_char_boundary_start_end_of_seq(b@);
        if q < b@.len() {
            lemma_ascii_boundaries(b@, q as int);
        }
        lemma_valid_between_boundaries(b@, 0, q as int);
    }
    let (head, _) = b.split_at(q);
    assert(head@ =~= spec_path_from_target(b@));
    match crate::text::str_from_utf8(head) {
        Some(p) => p,
        None => "",
    }
}

} // verus!
