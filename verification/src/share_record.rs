//! A live share: its links, its secrets, its slots and its summary. A share
//! link opens the hosted frontend with the websocket endpoint, the access
//! token and the display options in the URL fragment.

use vstd::prelude::*;
use vstd::utf8::{encode_utf8, valid_utf8};

use crate::bytes::{bytes_eq, push_all};
use crate::leases::LeaseBook;
use crate::secrets::SecretHash;
use crate::share::{
    check_pairing_code, connect, grant_role, opt_str_view, spec_check_pairing_code, spec_connect,
    ShareError, WebShareConnectRole, WebShareGrant, NANOS_PER_SECOND,
};
use crate::text::{all_ascii, lemma_ascii_encoding, utf8_string};
use crate::urls::{
    first_byte, occurs_from, segment_end,
    spec_endpoint_of, spec_token_from_url, spec_token_param, websocket_endpoint, SCHEME_SEPARATOR,
};

verus! {

broadcast use vstd::utf8::group_utf8_lib;

/// The endpoint of the local listener, which links leave out.
pub const DEFAULT_LOCAL_WEBSOCKET_ENDPOINT: [u8; 25] = [
    0x77, 0x73, 0x3a, 0x2f, 0x2f, 0x31, 0x32, 0x37, 0x2e, 0x30, 0x2e, 0x30, 0x2e, 0x31, 0x3a, 0x39,
    0x37, 0x37, 0x37, 0x2f, 0x73, 0x68, 0x61, 0x72, 0x65,
];

/// `/#`, between the frontend URL and the fragment.
pub const FRAGMENT_START: [u8; 2] = [0x2f, 0x23];

/// `e=`, the endpoint parameter.
pub const ENDPOINT_PARAM: [u8; 2] = [0x65, 0x3d];

/// `t=`, the token parameter.
pub const TOKEN_PARAM: [u8; 2] = [0x74, 0x3d];

/// `&`, between parameters.
pub const PARAM_SEPARATOR: [u8; 1] = [0x26];

/// `&navbar=off`.
pub const NO_NAVBAR_PARAM: [u8; 11] = [0x26, 0x6e, 0x61, 0x76, 0x62, 0x61, 0x72, 0x3d, 0x6f, 0x66, 0x66];

/// `&disclaimer=off`.
pub const NO_DISCLAIMER_PARAM: [u8; 15] = [
    0x26, 0x64, 0x69, 0x73, 0x63, 0x6c, 0x61, 0x69, 0x6d, 0x65, 0x72, 0x3d, 0x6f, 0x66, 0x66,
];

/// `&theme=`.
pub const THEME_PARAM: [u8; 7] = [0x26, 0x74, 0x68, 0x65, 0x6d, 0x65, 0x3d];

/// `[REDACTED]`, in place of a token that is not shown.
pub const REDACTED_TOKEN: [u8; 10] = [0x5b, 0x52, 0x45, 0x44, 0x41, 0x43, 0x54, 0x45, 0x44, 0x5d];

/// How the frontend shows a share.
#[derive(Debug, Clone, PartialEq, Eq)]
pub struct WebShareUrlOptions {
    pub show_viewers: bool,
    pub no_navbar: bool,
    pub no_disclaimer: bool,
    /// The theme's URL value, if one is chosen.
    pub terminal_theme: Option<String>,
}

/// The bytes of an optional theme value.
pub open spec fn theme_bytes(theme: Option<String>) -> Option<Seq<u8>> {
    match theme {
        Some(t) => Some(encode_utf8(t@)),
        None => None,
    }
}

/// The parameters after the token: the display options, each led by `&`.
pub open spec fn option_params(no_navbar: bool, no_disclaimer: bool, theme: Option<Seq<u8>>) -> Seq<u8> {
    (if no_navbar {
        NO_NAVBAR_PARAM@
    } else {
        Seq::empty()
    }) + (if no_disclaimer {
        NO_DISCLAIMER_PARAM@
    } else {
        Seq::empty()
    }) + match theme {
        Some(v) => THEME_PARAM@ + v,
        None => Seq::empty(),
    }
}

/// The endpoint parameter: none for the local listener's endpoint, else
/// `e=` and the endpoint, then `&`.
pub open spec fn endpoint_params(endpoint: Seq<u8>) -> Seq<u8> {
    if endpoint == DEFAULT_LOCAL_WEBSOCKET_ENDPOINT@ {
        Seq::empty()
    } else {
        ENDPOINT_PARAM@ + endpoint + PARAM_SEPARATOR@
    }
}

/// The bytes of a share link: the frontend URL, `/#`, then the endpoint
/// parameter, the token parameter and the display options.
pub open spec fn spec_share_url(
    frontend_url: Seq<u8>,
    endpoint: Seq<u8>,
    token: Seq<u8>,
    no_navbar: bool,
    no_disclaimer: bool,
    theme: Option<Seq<u8>>,
) -> Seq<u8> {
    frontend_url + FRAGMENT_START@ + endpoint_params(endpoint) + TOKEN_PARAM@ + token + option_params(
        no_navbar,
        no_disclaimer,
        theme,
    )
}

/// A live share.
pub struct WebShareRecord {
    pub allow_loopback_development_origins: bool,
    /// The origin of the websocket endpoint that links point to.
    pub endpoint_origin: String,
    /// When the share expires, in nanoseconds since the Unix epoch.
    pub expires_at: Option<u128>,
    pub frontend_origin: String,
    pub frontend_url: String,
    pub kill_session_on_expire: bool,
    pub lease_book: LeaseBook,
    pub max_readers: u16,
    pub operator_token_hash: Option<SecretHash>,
    pub pairing_code: Option<String>,
    pub controls: bool,
    pub share_id: String,
    /// What the share shows, as its summary names it.
    pub scope: String,
    pub url_options: WebShareUrlOptions,
    pub read_token_hash: SecretHash,
    pub writable: bool,
}

/// What a listing shows of a share.
#[derive(Debug, Clone, PartialEq, Eq)]
pub struct WebShareSummary {
    pub share_id: String,
    pub scope: String,
    pub read_url: Option<String>,
    pub writable: bool,
    pub controls: bool,
    pub active_readers: u16,
    pub max_readers: u16,
    pub operator_connected: bool,
    pub expires_at_unix: Option<u64>,
    pub kill_session_on_expire: bool,
}

impl WebShareRecord {
    /// The links of this share can be built: its endpoint origin has a scheme.
    pub open spec fn has_endpoint_scheme(&self) -> bool {
        occurs_from(encode_utf8(self.endpoint_origin@), 0, SCHEME_SEPARATOR@)
    }

    /// The bytes of this share's link carrying `token`.
    pub open spec fn link_bytes(&self, token: Seq<u8>) -> Seq<u8> {
        spec_share_url(
            encode_utf8(self.frontend_url@),
            spec_endpoint_of(encode_utf8(self.endpoint_origin@)),
            token,
            self.url_options.no_navbar,
            self.url_options.no_disclaimer,
            theme_bytes(self.url_options.terminal_theme),
        )
    }

    /// Builds this share's link carrying the token's bytes.
    fn share_url(&self, token: &[u8]) -> (url: String)
        requires
            self.has_endpoint_scheme(),
            valid_utf8(token@),
        ensures
            encode_utf8(url@) == self.link_bytes(token@),
    {
        let endpoint = websocket_endpoint(self.endpoint_origin.as_str());
        let e = endpoint.as_str().as_bytes();
        let mut out: Vec<u8> = Vec::new();
        push_all(&mut out, self.frontend_url.as_str().as_bytes());
        push_all(&mut out, &FRAGMENT_START);
        push_endpoint_params(&mut out, e);
        push_all(&mut out, &TOKEN_PARAM);
        push_all(&mut out, token);
        push_option_params(&mut out, &self.url_options);
        proof {
            assert(out@ =~= self.link_bytes(token@));
            lemma_share_url_valid(
                encode_utf8(self.frontend_url@),
                e@,
                token@,
                self.url_options.no_navbar,
                self.url_options.no_disclaimer,
                theme_bytes(self.url_options.terminal_theme),
            );
            vstd::utf8::decode_utf8_encode_utf8(out@);
        }
        utf8_string(out.as_slice())
    }

    /// The read link carrying the read token.
    pub fn read_url(&self, token: &str) -> (url: String)
        requires
            self.has_endpoint_scheme(),
        ensures
            encode_utf8(url@) == self.link_bytes(encode_utf8(token@)),
    {
        self.share_url(token.as_bytes())
    }

    /// The read link with the token redacted, as listings show it.
    pub fn redacted_read_url(&self) -> (url: String)
        requires
            self.has_endpoint_scheme(),
        ensures
            encode_utf8(url@) == self.link_bytes(REDACTED_TOKEN@),
    {
        proof {
            assert(all_ascii(REDACTED_TOKEN@));
            lemma_ascii_encoding(REDACTED_TOKEN@);
        }
        self.share_url(&REDACTED_TOKEN)
    }

    /// The operator link, for a writable share only; the token is redacted
    /// when not given.
    pub fn operator_url(&self, token: Option<&str>) -> (url: Option<String>)
        requires
            self.has_endpoint_scheme(),
        ensures
            url is Some <==> self.operator_token_hash is Some,
            url matches Some(u) ==> encode_utf8(u@) == self.link_bytes(
                match token {
                    Some(t) => encode_utf8(t@),
                    None => REDACTED_TOKEN@,
                },
            ),
    {
        if self.operator_token_hash.is_none() {
            return None;
        }
        match token {
            Some(t) => Some(self.read_url(t)),
            None => Some(self.redacted_read_url()),
        }
    }

    /// Checks a connection's pairing code against this share's.
    pub fn check_pairing_code(&self, pin: Option<&str>) -> (r: Result<(), ShareError>)
        ensures
            r == spec_check_pairing_code(self.pairing_code_view(), opt_str_view(pin)),
    {
        check_pairing_code(
            match &self.pairing_code {
                Some(code) => Some(code.as_str()),
                None => None,
            },
            pin,
        )
    }

    /// The characters of this share's pairing code, if it has one.
    pub open spec fn pairing_code_view(&self) -> Option<Seq<char>> {
        match self.pairing_code {
            Some(code) => Some(code@),
            None => None,
        }
    }

    /// Admits a connection in the role it asks for: an operator needs a
    /// writable share; both roles need the pairing code, if the share has one.
    pub fn connect(&mut self, pin: Option<&str>, role: WebShareConnectRole) -> (r: Result<WebShareGrant, ShareError>)
        ensures
            (match r {
                Ok(g) => Ok(grant_role(g)),
                Err(e) => Err(e),
            }) == spec_connect(
                old(self).lease_book.readers(),
                old(self).lease_book.capacity(),
                old(self).lease_book.operator(),
                old(self).operator_token_hash is Some,
                old(self).pairing_code_view(),
                opt_str_view(pin),
                role,
            ),
            final(self).lease_book.capacity() == old(self).lease_book.capacity(),
            r matches Ok(WebShareGrant::Read(_)) ==> final(self).lease_book.readers()
                == old(self).lease_book.readers() + 1 && final(self).lease_book.operator()
                == old(self).lease_book.operator(),
            r matches Ok(WebShareGrant::Operator(_)) ==> final(self).lease_book.readers()
                == old(self).lease_book.readers() && final(self).lease_book.operator(),
            r is Err ==> final(self).lease_book.readers() == old(self).lease_book.readers()
                && final(self).lease_book.operator() == old(self).lease_book.operator(),
            final(self).pairing_code == old(self).pairing_code,
            final(self).operator_token_hash == old(self).operator_token_hash,
    {
        let has_operator_token = self.operator_token_hash.is_some();
        let pairing = match &self.pairing_code {
            Some(code) => Some(code.as_str()),
            None => None,
        };
        connect(&mut self.lease_book, has_operator_token, pairing, pin, role)
    }

    /// What a listing shows of this share: the redacted read link, the
    /// reader count (held at `u16::MAX`) and the expiry in whole Unix
    /// seconds.
    pub fn summary(&self) -> (s: WebShareSummary)
        requires
            self.has_endpoint_scheme(),
        ensures
            s.share_id@ == self.share_id@,
            s.scope@ == self.scope@,
            s.read_url matches Some(u) && encode_utf8(u@) == self.link_bytes(REDACTED_TOKEN@),
            s.writable == self.writable,
            s.controls == self.controls,
            s.active_readers == (if self.lease_book.readers() > u16::MAX {
                u16::MAX as nat
            } else {
                self.lease_book.readers()
            }),
            s.max_readers == self.max_readers,
            s.operator_connected == self.lease_book.operator(),
            s.expires_at_unix == match self.expires_at {
                Some(at) => if at / NANOS_PER_SECOND <= u64::MAX {
                    Some((at / NANOS_PER_SECOND) as u64)
                } else {
                    None::<u64>
                },
                None => None::<u64>,
            },
            s.kill_session_on_expire == self.kill_session_on_expire,
    {
        let n = self.lease_book.reader_count();
        let active: u16 = if n > (u16::MAX as usize) {
            u16::MAX
        } else {
            n as u16
        };
        let expires_at_unix = match self.expires_at {
            Some(at) => {
                let secs = at / NANOS_PER_SECOND;
                if secs <= (u64::MAX as u128) {
                    Some(secs as u64)
                } else {
                    None
                }
            },
            None => None,
        };
        WebShareSummary {
            share_id: self.share_id.clone(),
            scope: self.scope.clone(),
            read_url: Some(self.redacted_read_url()),
            writable: self.writable,
            controls: self.controls,
            active_readers: active,
            max_readers: self.max_readers,
            operator_connected: self.lease_book.operator_connected(),
            expires_at_unix,
            kill_session_on_expire: self.kill_session_on_expire,
        }
    }
}

/// Appends the endpoint parameter of a link.
fn push_endpoint_params(out: &mut Vec<u8>, endpoint: &[u8])
    ensures
        final(out)@ == old(out)@ + endpoint_params(endpoint@),
{
    if !bytes_eq(endpoint, &DEFAULT_LOCAL_WEBSOCKET_ENDPOINT) {
        push_all(out, &ENDPOINT_PARAM);
        push_all(out, endpoint);
        push_all(out, &PARAM_SEPARATOR);
        assert(out@ =~= old(out)@ + endpoint_params(endpoint@));
    } else {
        assert(out@ =~= old(out)@ + endpoint_params(endpoint@));
    }
}

/// Appends the display options of a link.
fn push_option_params(out: &mut Vec<u8>, options: &WebShareUrlOptions)
    ensures
        final(out)@ == old(out)@ + option_params(
            options.no_navbar,
            options.no_disclaimer,
            theme_bytes(options.terminal_theme),
        ),
{
    let ghost start = out@;
    if options.no_navbar {
        push_all(out, &NO_NAVBAR_PARAM);
    }
    let ghost nav = out@.subrange(start.len() as int, out@.len() as int);
    assert(nav =~= (if options.no_navbar { NO_NAVBAR_PARAM@ } else { Seq::<u8>::empty() }));
    assert(out@ =~= start + nav);
    if options.no_disclaimer {
        push_all(out, &NO_DISCLAIMER_PARAM);
    }
    let ghost mid = out@;
    assert(mid =~= start + nav + (if options.no_disclaimer {
        NO_DISCLAIMER_PARAM@
    } else {
        Seq::<u8>::empty()
    }));
    match &options.terminal_theme {
        Some(theme) => {
            push_all(out, &THEME_PARAM);
            push_all(out, theme.as_str().as_bytes());
        },
        None => {},
    }
    assert(out@ =~= old(out)@ + option_params(
        options.no_navbar,
        options.no_disclaimer,
        theme_bytes(options.terminal_theme),
    ));
}

/// The bytes of a share link are valid UTF-8 when its parts are.
proof fn lemma_share_url_valid(
    frontend_url: Seq<u8>,
    endpoint: Seq<u8>,
    token: Seq<u8>,
    no_navbar: bool,
    no_disclaimer: bool,
    theme: Option<Seq<u8>>,
)
    requires
        valid_utf8(frontend_url),
        valid_utf8(endpoint),
        valid_utf8(token),
        theme matches Some(v) ==> valid_utf8(v),
    ensures
        valid_utf8(spec_share_url(frontend_url, endpoint, token, no_navbar, no_disclaimer, theme)),
{
    assert(all_ascii(FRAGMENT_START@));
    lemma_ascii_encoding(FRAGMENT_START@);
    assert(all_ascii(ENDPOINT_PARAM@));
    lemma_ascii_encoding(ENDPOINT_PARAM@);
    assert(all_ascii(PARAM_SEPARATOR@));
    lemma_ascii_encoding(PARAM_SEPARATOR@);
    assert(all_ascii(TOKEN_PARAM@));
    lemma_ascii_encoding(TOKEN_PARAM@);
    assert(all_ascii(NO_NAVBAR_PARAM@));
    lemma_ascii_encoding(NO_NAVBAR_PARAM@);
    assert(all_ascii(NO_DISCLAIMER_PARAM@));
    lemma_ascii_encoding(NO_DISCLAIMER_PARAM@);
    assert(all_ascii(THEME_PARAM@));
    lemma_ascii_encoding(THEME_PARAM@);
    assert(valid_utf8(Seq::<u8>::empty())) by {
        lemma_ascii_encoding(Seq::<u8>::empty());
    }
    let ep = endpoint_params(endpoint);
    if endpoint != DEFAULT_LOCAL_WEBSOCKET_ENDPOINT@ {
        vstd::utf8::valid_utf8_concat(ENDPOINT_PARAM@, endpoint);
        vstd::utf8::valid_utf8_concat(ENDPOINT_PARAM@ + endpoint, PARAM_SEPARATOR@);
    }
    let nav = if no_navbar { NO_NAVBAR_PARAM@ } else { Seq::<u8>::empty() };
    let dis = if no_disclaimer { NO_DISCLAIMER_PARAM@ } else { Seq::<u8>::empty() };
    let th = match theme {
        Some(v) => THEME_PARAM@ + v,
        None => Seq::<u8>::empty(),
    };
    if let Some(v) = theme {
        vstd::utf8::valid_utf8_concat(THEME_PARAM@, v);
    }
    vstd::utf8::valid_utf8_concat(nav, dis);
    vstd::utf8::valid_utf8_concat(nav + dis, th);
    assert(option_params(no_navbar, no_disclaimer, theme) == nav + dis + th);
    vstd::utf8::valid_utf8_concat(frontend_url, FRAGMENT_START@);
    vstd::utf8::valid_utf8_concat(frontend_url + FRAGMENT_START@, ep);
    vstd::utf8::valid_utf8_concat(frontend_url + FRAGMENT_START@ + ep, TOKEN_PARAM@);
    vstd::utf8::valid_utf8_concat(frontend_url + FRAGMENT_START@ + ep + TOKEN_PARAM@, token);
    vstd::utf8::valid_utf8_concat(
        frontend_url + FRAGMENT_START@ + ep + TOKEN_PARAM@ + token,
        option_params(no_navbar, no_disclaimer, theme),
    );
}

/// The first place holding `c` is `k` when nothing before it does.
proof fn lemma_first_byte_at(b: Seq<u8>, i: int, end: int, c: u8, k: int)
    requires
        0 <= i <= k < end <= b.len(),
        b[k] == c,
        forall|j: int| i <= j < k ==> b[j] != c,
    ensures
        first_byte(b, i, end, c) == k,
    decreases k - i,
{
    if i < k {
        lemma_first_byte_at(b, i + 1, end, c, k);
    }
}

/// The segment from `i` ends at `k` when no `&` comes before it and `k` is
/// an `&` or the end.
proof fn lemma_segment_end_at(b: Seq<u8>, i: int, k: int)
    requires
        0 <= i <= k <= b.len(),
        k == b.len() || b[k] == 0x26,
        forall|j: int| i <= j < k ==> b[j] != 0x26,
    ensures
        segment_end(b, i) == k,
    decreases k - i,
{
    if i < k {
        lemma_segment_end_at(b, i + 1, k);
    }
}

/// A `t=` parameter at `s` whose value holds no `&` and runs to an `&` or
/// the end is the token parameter.
proof fn lemma_token_param_at(u: Seq<u8>, s: int, token: Seq<u8>)
    requires
        0 <= s,
        s + 2 + token.len() <= u.len(),
        u[s] == 0x74,
        u[s + 1] == 0x3d,
        u.subrange(s + 2, s + 2 + token.len()) == token,
        !token.contains(0x26),
        s + 2 + token.len() == u.len() || u[s + 2 + token.len()] == 0x26,
    ensures
        spec_token_param(u, s) == Some((s + 2, s + 2 + token.len())),
{
    let k = s + 2 + token.len();
    assert forall|j: int| s <= j < k implies u[j] != 0x26 by {
        if j >= s + 2 {
            assert(u[j] == token[j - s - 2]);
        }
    }
    lemma_segment_end_at(u, s, k);
    lemma_first_byte_at(u, s, k, 0x3d, s + 1);
}

/// The display options are empty or start with `&`.
proof fn lemma_option_params_lead(no_navbar: bool, no_disclaimer: bool, theme: Option<Seq<u8>>)
    ensures
        option_params(no_navbar, no_disclaimer, theme).len() == 0 || option_params(
            no_navbar,
            no_disclaimer,
            theme,
        )[0] == 0x26,
{
    let nav = if no_navbar { NO_NAVBAR_PARAM@ } else { Seq::<u8>::empty() };
    let dis = if no_disclaimer { NO_DISCLAIMER_PARAM@ } else { Seq::<u8>::empty() };
    let th = match theme {
        Some(v) => THEME_PARAM@ + v,
        None => Seq::<u8>::empty(),
    };
    assert(option_params(no_navbar, no_disclaimer, theme) == nav + dis + th);
    if nav.len() == 0 && dis.len() > 0 {
        assert((nav + dis + th)[0] == dis[0]);
    }
    if nav.len() == 0 && dis.len() == 0 && th.len() > 0 {
        assert((nav + dis + th)[0] == th[0]);
        if let Some(v) = theme {
            assert(th[0] == THEME_PARAM@[0]);
        }
    }
}

/// A share link carries its token: the `t` parameter of the link's fragment
/// is the token the link was built with, provided the frontend URL holds no
/// `#` and neither the endpoint nor the token holds an `&`.
pub proof fn lemma_link_carries_its_token(
    frontend_url: Seq<u8>,
    endpoint: Seq<u8>,
    token: Seq<u8>,
    no_navbar: bool,
    no_disclaimer: bool,
    theme: Option<Seq<u8>>,
)
    requires
        !frontend_url.contains(0x23),
        !endpoint.contains(0x26),
        !token.contains(0x26),
    ensures
        ({
            let u = spec_share_url(frontend_url, endpoint, token, no_navbar, no_disclaimer, theme);
            spec_token_from_url(u) matches Some((lo, hi)) && u.subrange(lo, hi) == token
        }),
{
    let u = spec_share_url(frontend_url, endpoint, token, no_navbar, no_disclaimer, theme);
    let f = frontend_url.len() as int;
    let ep = endpoint_params(endpoint);
    let opts = option_params(no_navbar, no_disclaimer, theme);
    assert(u == frontend_url + FRAGMENT_START@ + ep + TOKEN_PARAM@ + token + opts);
    assert forall|j: int| 0 <= j < f + 1 implies u[j] != 0x23 by {
        if j < f {
            assert(u[j] == frontend_url[j]);
            if u[j] == 0x23 {
                assert(frontend_url.contains(0x23));
            }
        }
    }
    lemma_first_byte_at(u, 0, u.len() as int, 0x23, f + 1);
    let s = f + 2;
    let t = s + ep.len();
    assert(u.subrange(t + 2, t + 2 + token.len()) =~= token);
    assert(u[t] == 0x74);
    assert(u[t + 1] == 0x3d);
    lemma_option_params_lead(no_navbar, no_disclaimer, theme);
    if t + 2 + token.len() < u.len() {
        assert(u[t + 2 + token.len()] == opts[0]);
    }
    lemma_token_param_at(u, t, token);
    if ep.len() > 0 {
        let k = s + 2 + endpoint.len();
        assert forall|j: int| s <= j < k implies u[j] != 0x26 by {
            if j >= s + 2 {
                assert(u[j] == endpoint[j - s - 2]);
                if u[j] == 0x26 {
                    assert(endpoint.contains(0x26));
                }
            }
        }
        assert(u[k] == 0x26);
        lemma_segment_end_at(u, s, k);
        lemma_first_byte_at(u, s, k, 0x3d, s + 1);
        assert(u[s] == 0x65);
        assert(k + 1 == t);
    }
}

/// Each display option adds its own parameter, whatever the others are:
/// a link that hides the disclaimer is the same link with `&disclaimer=off`
/// put right after the navbar option (before any theme), and a link that
/// hides the navbar is the same link with `&navbar=off` put right after the
/// token. A link with no display option ends with its token.
pub proof fn lemma_display_options_are_independent(
    frontend_url: Seq<u8>,
    endpoint: Seq<u8>,
    token: Seq<u8>,
    no_navbar: bool,
    no_disclaimer: bool,
    theme: Option<Seq<u8>>,
)
    ensures
        ({
            let plain = spec_share_url(frontend_url, endpoint, token, no_navbar, false, theme);
            let p = spec_share_url(frontend_url, endpoint, token, no_navbar, false, None).len() as int;
            &&& 0 <= p <= plain.len()
            &&& spec_share_url(frontend_url, endpoint, token, no_navbar, true, theme) == plain.subrange(0, p)
                + NO_DISCLAIMER_PARAM@ + plain.subrange(p, plain.len() as int)
        }),
        ({
            let plain = spec_share_url(frontend_url, endpoint, token, false, no_disclaimer, theme);
            let p = spec_share_url(frontend_url, endpoint, token, false, false, None).len() as int;
            &&& 0 <= p <= plain.len()
            &&& spec_share_url(frontend_url, endpoint, token, true, no_disclaimer, theme) == plain.subrange(0, p)
                + NO_NAVBAR_PARAM@ + plain.subrange(p, plain.len() as int)
        }),
        ({
            let bare = spec_share_url(frontend_url, endpoint, token, false, false, None);
            &&& bare.len() >= token.len()
            &&& bare.subrange(bare.len() - token.len(), bare.len() as int) == token
        }),
{
    let head = frontend_url + FRAGMENT_START@ + endpoint_params(endpoint) + TOKEN_PARAM@ + token;
    let nav = if no_navbar { NO_NAVBAR_PARAM@ } else { Seq::<u8>::empty() };
    let dis = if no_disclaimer { NO_DISCLAIMER_PARAM@ } else { Seq::<u8>::empty() };
    let th = match theme {
        Some(v) => THEME_PARAM@ + v,
        None => Seq::<u8>::empty(),
    };
    assert(spec_share_url(frontend_url, endpoint, token, no_navbar, false, theme) =~= head + nav + th);
    assert(spec_share_url(frontend_url, endpoint, token, no_navbar, false, None) =~= head + nav);
    assert(spec_share_url(frontend_url, endpoint, token, no_navbar, true, theme) =~= head + nav
        + NO_DISCLAIMER_PARAM@ + th);
    let plain = head + nav + th;
    let p = (head + nav).len() as int;
    assert(plain.subrange(0, p) =~= head + nav);
    assert(plain.subrange(p, plain.len() as int) =~= th);
    assert(spec_share_url(frontend_url, endpoint, token, false, no_disclaimer, theme) =~= head + dis + th);
    assert(spec_share_url(frontend_url, endpoint, token, false, false, None) =~= head);
    assert(spec_share_url(frontend_url, endpoint, token, true, no_disclaimer, theme) =~= head + NO_NAVBAR_PARAM@ + dis
        + th);
    let plain2 = head + dis + th;
    assert(plain2.subrange(0, head.len() as int) =~= head);
    assert(plain2.subrange(head.len() as int, plain2.len() as int) =~= dis + th);
    assert(head.subrange(head.len() - token.len(), head.len() as int) =~= token);
}

} // verus!
