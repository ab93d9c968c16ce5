//! What a share connection is answered before it is authenticated: how a
//! request is routed, whether its websocket upgrade is accepted, and the
//! steps of the handshake that follows, with the close code of each way it
//! can fail.

use vstd::prelude::*;
use vstd::utf8::encode_utf8;

use crate::ansi::str_eq;
use crate::encoding::base64_std_decode;
use crate::http::{header, wants_websocket, HttpRequest};
use crate::protocol::{close_for_auth_error, spec_close_for_auth_error};
use crate::websocket::{spec_accept_key, valid_client_key, websocket_accept_key};

verus! {

/// Whether a character is white space in the sense of Unicode's
/// `White_Space` property, which `char::is_whitespace` follows.
pub open spec fn is_unicode_whitespace(c: char) -> bool {
    let u = c as u32;
    ||| 0x09 <= u <= 0x0d
    ||| u == 0x20
    ||| u == 0x85
    ||| u == 0xa0
    ||| u == 0x1680
    ||| 0x2000 <= u <= 0x200a
    ||| u == 0x2028
    ||| u == 0x2029
    ||| u == 0x202f
    ||| u == 0x205f
    ||| u == 0x3000
}

/// `s` without its leading white space.
pub open spec fn trim_start_ws(s: Seq<char>) -> Seq<char>
    decreases s.len(),
{
    if s.len() > 0 && is_unicode_whitespace(s[0]) {
        trim_start_ws(s.drop_first())
    } else {
        s
    }
}

/// `s` without its trailing white space.
pub open spec fn trim_end_ws(s: Seq<char>) -> Seq<char>
    decreases s.len(),
{
    if s.len() > 0 && is_unicode_whitespace(s.last()) {
        trim_end_ws(s.drop_last())
    } else {
        s
    }
}

/// `s` without leading and trailing white space.
pub open spec fn spec_trim(s: Seq<char>) -> Seq<char> {
    trim_end_ws(trim_start_ws(s))
}

/// Calls `str::trim`. Trusted: as std documents it, the result is the
/// string without its leading and trailing white space (Unicode
/// `White_Space`).
#[verifier::external_body]
fn trim_whitespace(s: &str) -> (r: &str)
    ensures
        r@ == spec_trim(s@),
{
    s.trim()
}

/// The value of the first header named `name`, if any.
pub open spec fn first_header(headers: Seq<(String, String)>, name: Seq<char>) -> Option<Seq<char>>
    decreases headers.len(),
{
    if headers.len() == 0 {
        None
    } else if headers[0].0@ == name {
        Some(headers[0].1@)
    } else {
        first_header(headers.drop_first(), name)
    }
}

/// The first header named `name` sits at `i`.
proof fn lemma_first_header_at(headers: Seq<(String, String)>, name: Seq<char>, i: int)
    requires
        0 <= i < headers.len(),
        headers[i].0@ == name,
        forall|j: int| 0 <= j < i ==> #[trigger] headers[j].0@ != name,
    ensures
        first_header(headers, name) == Some(headers[i].1@),
    decreases i,
{
    if i > 0 {
        let rest = headers.drop_first();
        assert(headers[0].0@ != name);
        assert forall|j: int| 0 <= j < i - 1 implies #[trigger] rest[j].0@ != name by {
            assert(rest[j] == headers[j + 1]);
        }
        lemma_first_header_at(rest, name, i - 1);
    }
}

/// No header is named `name`.
proof fn lemma_first_header_none(headers: Seq<(String, String)>, name: Seq<char>)
    requires
        forall|j: int| 0 <= j < headers.len() ==> #[trigger] headers[j].0@ != name,
    ensures
        first_header(headers, name) is None,
    decreases headers.len(),
{
    if headers.len() > 0 {
        let rest = headers.drop_first();
        assert(headers[0].0@ != name);
        assert forall|j: int| 0 <= j < rest.len() implies #[trigger] rest[j].0@ != name by {
            assert(rest[j] == headers[j + 1]);
        }
        lemma_first_header_none(rest, name);
    }
}

/// The value of the first header named `name`.
fn first_header_value<'a>(headers: &'a Vec<(String, String)>, name: &str) -> (v: Option<&'a str>)
    ensures
        match v {
            Some(x) => first_header(headers@, name@) == Some(x@),
            None => first_header(headers@, name@) is None,
        },
{
    let v = header(headers, name);
    proof {
        match v {
            Some(x) => {
                let i = choose|i: int|
                    0 <= i < headers@.len() && headers@[i].0@ == name@ && #[trigger] headers@[i].1@ == x@
                        && forall|j: int| 0 <= j < i ==> #[trigger] headers@[j].0@ != name@;
                lemma_first_header_at(headers@, name@, i);
            },
            None => lemma_first_header_none(headers@, name@),
        }
    }
    v
}

/// How a request is answered: a websocket share upgrade, or a status and
/// body. Only `GET` and `HEAD` are served, and only a websocket upgrade of
/// `GET /share` is not a 404.
pub open spec fn spec_route(method: Seq<char>, path: Seq<char>, headers: Seq<(String, String)>) -> Result<(), (u16, Seq<char>)> {
    if method != "GET"@ && method != "HEAD"@ {
        Err((405, "unsupported method\n"@))
    } else if method == "GET"@ && path == "/share"@ && wants_websocket(headers) {
        Ok(())
    } else {
        Err((404, "not found\n"@))
    }
}

/// Routes a request: `Ok` for a websocket upgrade of the share endpoint,
/// else the status and body to answer with.
pub fn route_request(req: &HttpRequest) -> (r: Result<(), (u16, &'static str)>)
    ensures
        match r {
            Ok(()) => spec_route(req.method@, req.path@, req.headers@) is Ok,
            Err((code, body)) => spec_route(req.method@, req.path@, req.headers@) == Err::<(), (u16, Seq<char>)>(
                (code, body@),
            ),
        },
{
    let get = str_eq(req.method.as_str(), "GET");
    let head = str_eq(req.method.as_str(), "HEAD");
    if !get && !head {
        return Err((405, "unsupported method\n"));
    }
    if get && str_eq(req.path.as_str(), "/share") && req.is_websocket_upgrade() {
        return Ok(());
    }
    Err((404, "not found\n"))
}

/// Whether a websocket upgrade is accepted, and with which
/// `Sec-WebSocket-Accept` value; else the status and body of the refusal:
/// a missing key, then a version other than 13 (blanks around it allowed),
/// then a key that is not base64 of sixteen bytes.
pub open spec fn spec_upgrade(headers: Seq<(String, String)>) -> Result<Seq<char>, (u16, Seq<char>)> {
    match first_header(headers, "sec-websocket-key"@) {
        None => Err((400, "missing websocket key\n"@)),
        Some(key) => if !(first_header(headers, "sec-websocket-version"@) matches Some(v) && spec_trim(v)
            == "13"@) {
            Err((400, "unsupported websocket version\n"@))
        } else if !(base64_std_decode(encode_utf8(key)) matches Some(b) && b.len() == 16) {
            Err((400, "invalid websocket key\n"@))
        } else {
            Ok(spec_accept_key(key))
        },
    }
}

/// Decides a websocket upgrade: the accept value, or the refusal.
pub fn upgrade_decision(req: &HttpRequest) -> (r: Result<String, (u16, &'static str)>)
    ensures
        match r {
            Ok(accept) => spec_upgrade(req.headers@) == Ok::<Seq<char>, (u16, Seq<char>)>(accept@),
            Err((code, body)) => spec_upgrade(req.headers@) == Err::<Seq<char>, (u16, Seq<char>)>((code, body@)),
        },
{
    let key = match first_header_value(&req.headers, "sec-websocket-key") {
        None => return Err((400, "missing websocket key\n")),
        Some(k) => k,
    };
    let version_ok = match first_header_value(&req.headers, "sec-websocket-version") {
        None => false,
        Some(v) => str_eq(trim_whitespace(v), "13"),
    };
    if !version_ok {
        return Err((400, "unsupported websocket version\n"));
    }
    if !valid_client_key(key) {
        return Err((400, "invalid websocket key\n"));
    }
    Ok(websocket_accept_key(key))
}

/// Where the handshake after the upgrade stands.
#[derive(Debug, Clone, Copy, PartialEq, Eq, Structural)]
pub enum HandshakeStage {
    /// The upgrade was accepted; the origin is checked first.
    Accepted,
    /// Waiting for the client's hello.
    AwaitingHello,
    /// The hello's token is being looked up.
    CheckingToken,
    /// The challenge was sent; waiting for the encrypted auth message.
    AwaitingAuth,
    /// The share is being opened for the authenticated client.
    OpeningShare,
    /// The handshake is over.
    Finished,
}

/// What happened, as the connection's driver saw it.
#[derive(Debug, PartialEq, Eq)]
pub enum HandshakeEvent {
    /// The upgrade request did or did not carry an `Origin` header.
    Origin(bool),
    /// The hello was read and parsed, or failed with a close code and reason.
    Hello(Option<(u16, &'static str)>),
    /// The hello's token was looked up: whether its share allows the origin
    /// (`None` when the token is unknown there), and whether its secret is
    /// known.
    TokenChecked { origin_allowed: Option<bool>, secret_known: bool },
    /// The auth message was read and opened, or failed with a close code
    /// and reason.
    Auth(Option<(u16, &'static str)>),
    /// The share was opened (with whether it allows the origin), or opening
    /// failed with the error's text.
    ShareOpened(Result<bool, String>),
    /// A newer connection evicted this one from the pre-auth queue.
    Evicted,
}

/// What the driver does next.
#[derive(Debug, Clone, Copy, PartialEq, Eq)]
pub enum HandshakeAction {
    /// Read the client's hello.
    ReadHello,
    /// Look the hello's token up.
    CheckToken,
    /// Derive the keys, send the challenge and read the auth message.
    SendChallenge,
    /// Open the share with the auth message's pairing code.
    OpenShare,
    /// After the uniform delay, close with this code and reason.
    Close(u16, &'static str),
    /// Drop the connection without a word.
    Stop,
    /// Send the ready message and serve the share.
    Ready,
    /// Nothing: the event does not apply at this stage.
    Ignore,
}

/// The handshake's next stage and action, with `None` for an ignored event;
/// a close is given by its code and reason.
pub open spec fn spec_handshake_step(stage: HandshakeStage, event: HandshakeEvent) -> (HandshakeStage, Option<
    Result<HandshakeAction, (u16, Seq<char>)>,
>) {
    match (stage, event) {
        (HandshakeStage::Accepted, HandshakeEvent::Origin(false)) => (
            HandshakeStage::Finished,
            Some(Err((4004, "origin_required"@))),
        ),
        (HandshakeStage::Accepted, HandshakeEvent::Origin(true)) => (
            HandshakeStage::AwaitingHello,
            Some(Ok(HandshakeAction::ReadHello)),
        ),
        (HandshakeStage::AwaitingHello, HandshakeEvent::Hello(None)) => (
            HandshakeStage::CheckingToken,
            Some(Ok(HandshakeAction::CheckToken)),
        ),
        (HandshakeStage::AwaitingHello, HandshakeEvent::Hello(Some((code, reason)))) => (
            HandshakeStage::Finished,
            Some(Err((code, reason@))),
        ),
        (HandshakeStage::AwaitingHello, HandshakeEvent::Evicted) => (
            HandshakeStage::Finished,
            Some(Ok(HandshakeAction::Stop)),
        ),
        (HandshakeStage::CheckingToken, HandshakeEvent::TokenChecked { origin_allowed, secret_known }) => {
            if origin_allowed == Some(false) {
                (HandshakeStage::Finished, Some(Err((4004, "origin_not_allowed"@))))
            } else if !secret_known {
                (HandshakeStage::Finished, Some(Err((4000, "invalid_auth"@))))
            } else {
                (HandshakeStage::AwaitingAuth, Some(Ok(HandshakeAction::SendChallenge)))
            }
        },
        (HandshakeStage::AwaitingAuth, HandshakeEvent::Auth(None)) => (
            HandshakeStage::OpeningShare,
            Some(Ok(HandshakeAction::OpenShare)),
        ),
        (HandshakeStage::AwaitingAuth, HandshakeEvent::Auth(Some((code, reason)))) => (
            HandshakeStage::Finished,
            Some(Err((code, reason@))),
        ),
        (HandshakeStage::AwaitingAuth, HandshakeEvent::Evicted) => (
            HandshakeStage::Finished,
            Some(Ok(HandshakeAction::Stop)),
        ),
        (HandshakeStage::OpeningShare, HandshakeEvent::ShareOpened(Err(message))) => (
            HandshakeStage::Finished,
            Some(Err(spec_close_for_auth_error(message@))),
        ),
        (HandshakeStage::OpeningShare, HandshakeEvent::ShareOpened(Ok(false))) => (
            HandshakeStage::Finished,
            Some(Err((4004, "origin_not_allowed"@))),
        ),
        (HandshakeStage::OpeningShare, HandshakeEvent::ShareOpened(Ok(true))) => (
            HandshakeStage::Finished,
            Some(Ok(HandshakeAction::Ready)),
        ),
        _ => (stage, None),
    }
}

/// The view of an action: a close by its code and reason, `None` for
/// `Ignore`, else the action itself.
pub open spec fn action_view(a: HandshakeAction) -> Option<Result<HandshakeAction, (u16, Seq<char>)>> {
    match a {
        HandshakeAction::Close(code, reason) => Some(Err((code, reason@))),
        HandshakeAction::Ignore => None,
        _ => Some(Ok(a)),
    }
}

/// Takes one step of the handshake.
pub fn handshake_step(stage: HandshakeStage, event: &HandshakeEvent) -> (r: (HandshakeStage, HandshakeAction))
    ensures
        (r.0, action_view(r.1)) == spec_handshake_step(stage, *event),
{
    match (stage, event) {
        (HandshakeStage::Accepted, HandshakeEvent::Origin(false)) => (
            HandshakeStage::Finished,
            HandshakeAction::Close(4004, "origin_required"),
        ),
        (HandshakeStage::Accepted, HandshakeEvent::Origin(true)) => (HandshakeStage::AwaitingHello, HandshakeAction::ReadHello),
        (HandshakeStage::AwaitingHello, HandshakeEvent::Hello(None)) => (HandshakeStage::CheckingToken, HandshakeAction::CheckToken),
        (HandshakeStage::AwaitingHello, HandshakeEvent::Hello(Some((code, reason)))) => (
            HandshakeStage::Finished,
            HandshakeAction::Close(*code, *reason),
        ),
        (HandshakeStage::AwaitingHello, HandshakeEvent::Evicted) => (HandshakeStage::Finished, HandshakeAction::Stop),
        (HandshakeStage::CheckingToken, HandshakeEvent::TokenChecked { origin_allowed, secret_known }) => {
            if *origin_allowed == Some(false) {
                (HandshakeStage::Finished, HandshakeAction::Close(4004, "origin_not_allowed"))
            } else if !*secret_known {
                (HandshakeStage::Finished, HandshakeAction::Close(4000, "invalid_auth"))
            } else {
                (HandshakeStage::AwaitingAuth, HandshakeAction::SendChallenge)
            }
        },
        (HandshakeStage::AwaitingAuth, HandshakeEvent::Auth(None)) => (HandshakeStage::OpeningShare, HandshakeAction::OpenShare),
        (HandshakeStage::AwaitingAuth, HandshakeEvent::Auth(Some((code, reason)))) => (
            HandshakeStage::Finished,
            HandshakeAction::Close(*code, *reason),
        ),
        (HandshakeStage::AwaitingAuth, HandshakeEvent::Evicted) => (HandshakeStage::Finished, HandshakeAction::Stop),
        (HandshakeStage::OpeningShare, HandshakeEvent::ShareOpened(Err(message))) => {
            let (code, reason) = close_for_auth_error(message.as_str());
            (HandshakeStage::Finished, HandshakeAction::Close(code, reason))
        },
        (HandshakeStage::OpeningShare, HandshakeEvent::ShareOpened(Ok(allowed))) => {
            if *allowed {
                (HandshakeStage::Finished, HandshakeAction::Ready)
            } else {
                (HandshakeStage::Finished, HandshakeAction::Close(4004, "origin_not_allowed"))
            }
        },
        _ => (stage, HandshakeAction::Ignore),
    }
}

/// Every way the handshake fails before a share is opened closes with 4004
/// for a missing or refused origin, 4000 for an unknown token, or the
/// code of the failed read; nothing but a successful share opening makes
/// the connection ready, and eviction only ends it while a read is waited
/// for.
pub proof fn lemma_ready_only_after_open(stage: HandshakeStage, event: HandshakeEvent)
    ensures
        spec_handshake_step(stage, event).1 == Some(Ok::<HandshakeAction, (u16, Seq<char>)>(HandshakeAction::Ready))
            ==> stage == HandshakeStage::OpeningShare && event == HandshakeEvent::ShareOpened(Ok(true)),
        event == HandshakeEvent::Evicted && spec_handshake_step(stage, event).1 is Some ==> (stage
            == HandshakeStage::AwaitingHello || stage == HandshakeStage::AwaitingAuth),
        stage == HandshakeStage::Finished ==> spec_handshake_step(stage, event) == (stage, None::<
            Result<HandshakeAction, (u16, Seq<char>)>,
        >),
{
}

} // verus!
