//! Decisions of the web-share protocol: how an authentication failure closes
//! the socket, which operator frames are accepted and what they ask for, and
//! the binary frames sent to the browser.

use vstd::prelude::*;
use vstd::utf8::{decode_utf8, encode_utf8, valid_utf8};

use crate::bytes::{be16, contains_bytes, find_bytes, from_be16, push_all, read_be16, u16_be_bytes};
use crate::text::{ascii_chars, lemma_ascii_encoding, str_from_utf8};

verus! {

broadcast use vstd::utf8::group_utf8_lib;

/// The protocol version this server speaks.
pub const WEB_SHARE_PROTOCOL_VERSION: u16 = 3;
/// Largest operator input frame, in bytes.
pub const OPERATOR_INPUT_FRAME_MAX: usize = 4096;
/// Longest key token, in bytes.
pub const KEY_TOKEN_MAX: usize = 64;
/// Largest terminal dimension a resize may ask for.
pub const RESIZE_DIMENSION_MAX: u16 = 9999;

/// Raw terminal output.
pub const WS_OUTPUT_RAW: u8 = 0x01;
/// A resize notification.
pub const WS_RESIZE_NOTIFY: u8 = 0x02;
/// A full snapshot.
pub const WS_SNAPSHOT_FULL: u8 = 0x10;
/// A session layout view.
pub const WS_SESSION_VIEW: u8 = 0x11;
/// A session pane frame.
pub const WS_SESSION_PANE_FRAME: u8 = 0x12;
/// Operator text input.
pub const WS_INPUT_TEXT: u8 = 0x80;
/// Operator key input.
pub const WS_INPUT_KEY: u8 = 0x81;
/// Operator resize request.
pub const WS_RESIZE_REQUEST: u8 = 0x82;
/// Operator raw attach input.
pub const WS_ATTACH_INPUT: u8 = 0x83;

/// Whether `needle` occurs in `haystack`, compared as UTF-8 bytes.
pub open spec fn text_contains(haystack: Seq<char>, needle: Seq<char>) -> bool {
    contains_bytes(encode_utf8(haystack), encode_utf8(needle))
}

/// The close code and reason for an authentication error message.
pub open spec fn spec_close_for_auth_error(error: Seq<char>) -> (u16, Seq<char>) {
    if text_contains(error, "read limit"@) {
        (4003, "read_cap_reached"@)
    } else if text_contains(error, "operator is already connected"@) {
        (4007, "operator_already_connected"@)
    } else if text_contains(error, "missing web-share pairing code"@) {
        (4008, "pin_required"@)
    } else if text_contains(error, "not writable"@) {
        (4006, "operator_on_read_only"@)
    } else {
        (4000, "invalid_auth"@)
    }
}

/// Whether `needle` occurs in `haystack`.
pub fn str_contains(haystack: &str, needle: &str) -> (r: bool)
    ensures
        r == text_contains(haystack@, needle@),
{
    find_bytes(haystack.as_bytes(), needle.as_bytes())
}

/// Chooses the close code and reason for a failed authentication.
pub fn close_for_auth_error(error: &str) -> (r: (u16, &'static str))
    ensures
        (r.0, r.1@) == spec_close_for_auth_error(error@),
{
    if str_contains(error, "read limit") {
        return (4003, "read_cap_reached");
    }
    if str_contains(error, "operator is already connected") {
        return (4007, "operator_already_connected");
    }
    if str_contains(error, "missing web-share pairing code") {
        return (4008, "pin_required");
    }
    if str_contains(error, "not writable") {
        return (4006, "operator_on_read_only");
    }
    (4000, "invalid_auth")
}

/// A session may be logged out only by an operator with controls.
pub fn session_logout_allowed(is_operator: bool, controls: bool) -> (r: bool)
    ensures
        r == (is_operator && controls),
{
    is_operator && controls
}

/// What a session client's logout request leads to.
#[derive(Debug, Clone, Copy, PartialEq, Eq, Structural)]
pub enum LogoutDecision {
    /// Log the session out and close with 1000 `session_closed`.
    Allowed,
    /// Close with 4006 `logout_requires_controls`.
    RequiresControls,
    /// Close with 4006 `logout_requires_operator`.
    RequiresOperator,
}

/// Decides a session client's logout request.
pub fn session_logout_decision(is_operator: bool, controls: bool) -> (d: LogoutDecision)
    ensures
        d == (if is_operator && controls {
            LogoutDecision::Allowed
        } else if is_operator {
            LogoutDecision::RequiresControls
        } else {
            LogoutDecision::RequiresOperator
        }),
{
    if session_logout_allowed(is_operator, controls) {
        LogoutDecision::Allowed
    } else if is_operator {
        LogoutDecision::RequiresControls
    } else {
        LogoutDecision::RequiresOperator
    }
}

/// A binary frame: the opcode followed by the body.
pub open spec fn spec_binary_payload(opcode: u8, body: Seq<u8>) -> Seq<u8> {
    seq![opcode] + body
}

/// Builds a binary frame.
pub fn binary_payload(opcode: u8, body: &[u8]) -> (frame: Vec<u8>)
    ensures
        frame@ == spec_binary_payload(opcode, body@),
{
    let mut frame: Vec<u8> = Vec::with_capacity(1);
    frame.push(opcode);
    push_all(&mut frame, body);
    assert(frame@ =~= spec_binary_payload(opcode, body@));
    frame
}

/// The resize notification for a size.
pub open spec fn spec_resize_payload(cols: u16, rows: u16) -> Seq<u8> {
    spec_binary_payload(WS_RESIZE_NOTIFY, be16(cols) + be16(rows))
}

/// Builds the resize notification for a size.
pub fn resize_payload(cols: u16, rows: u16) -> (frame: Vec<u8>)
    ensures
        frame@ == spec_resize_payload(cols, rows),
{
    let c = u16_be_bytes(cols);
    let r = u16_be_bytes(rows);
    let body = [c[0], c[1], r[0], r[1]];
    assert(body@ =~= be16(cols) + be16(rows));
    binary_payload(WS_RESIZE_NOTIFY, &body)
}

/// Why an operator frame is refused: the close code and reason.
pub type CloseReason = (u16, &'static str);

/// What an operator frame holds: its opcode and body, or why it is refused.
pub open spec fn spec_operator_frame(payload: Seq<u8>) -> Result<(u8, Seq<u8>), (u16, Seq<char>)> {
    if payload.len() == 0 {
        Err((4006, "empty_operator_frame"@))
    } else if payload.len() > OPERATOR_INPUT_FRAME_MAX {
        Err((4002, "operator_frame_too_large"@))
    } else {
        Ok((payload[0], payload.subrange(1, payload.len() as int)))
    }
}

/// Splits an operator frame into its opcode and body.
pub fn parse_operator_frame(payload: &[u8]) -> (r: Result<(u8, &[u8]), CloseReason>)
    ensures
        match r {
            Ok((op, body)) => spec_operator_frame(payload@) == Ok::<(u8, Seq<u8>), (u16, Seq<char>)>((op, body@)),
            Err((code, reason)) => spec_operator_frame(payload@) == Err::<(u8, Seq<u8>), (u16, Seq<char>)>((code, reason@)),
        },
{
    if payload.len() == 0 {
        return Err((4006, "empty_operator_frame"));
    }
    if payload.len() > OPERATOR_INPUT_FRAME_MAX {
        return Err((4002, "operator_frame_too_large"));
    }
    let (head, body) = payload.split_at(1);
    assert(body@ =~= payload@.subrange(1, payload@.len() as int));
    Ok((head[0], body))
}

/// Whether a byte is printable ASCII or a space.
pub open spec fn key_token_byte(b: u8) -> bool {
    (0x21 <= b && b <= 0x7e) || b == 0x20
}

/// What a key-input body holds: the key token, or why it is refused.
pub open spec fn spec_key_token(body: Seq<u8>) -> Result<Seq<char>, (u16, Seq<char>)> {
    if !valid_utf8(body) {
        Err((4006, "invalid_key_utf8"@))
    } else if body.len() > KEY_TOKEN_MAX || exists|i: int| 0 <= i < body.len() && !key_token_byte(#[trigger] body[i]) {
        Err((4006, "invalid_key_token"@))
    } else {
        Ok(decode_utf8(body))
    }
}

/// Checks a key-input body: UTF-8, at most 64 bytes, printable ASCII or
/// spaces only.
pub fn validate_key_token(body: &[u8]) -> (r: Result<&str, CloseReason>)
    ensures
        match r {
            Ok(key) => spec_key_token(body@) == Ok::<Seq<char>, (u16, Seq<char>)>(key@),
            Err((code, reason)) => spec_key_token(body@) == Err::<Seq<char>, (u16, Seq<char>)>((code, reason@)),
        },
{
    let key = match str_from_utf8(body) {
        Some(key) => key,
        None => return Err((4006, "invalid_key_utf8")),
    };
    if body.len() > KEY_TOKEN_MAX {
        return Err((4006, "invalid_key_token"));
    }
    let mut i: usize = 0;
    while i < body.len()
        invariant
            i <= body@.len(),
            valid_utf8(body@),
            body@.len() <= KEY_TOKEN_MAX,
            forall|j: int| 0 <= j < i ==> key_token_byte(#[trigger] body@[j]),
        decreases body@.len() - i,
    {
        let b = body[i];
        if !((0x21 <= b && b <= 0x7e) || b == 0x20) {
            assert(!key_token_byte(body@[i as int]));
            return Err((4006, "invalid_key_token"));
        }
        i = i + 1;
    }
    Ok(key)
}

/// What a resize body holds: the columns and rows, or why it is refused.
pub open spec fn spec_resize(body: Seq<u8>) -> Result<(u16, u16), (u16, Seq<char>)> {
    if body.len() != 4 {
        Err((4006, "invalid_resize_payload"@))
    } else {
        let cols = from_be16(body.subrange(0, 2));
        let rows = from_be16(body.subrange(2, 4));
        if cols == 0 || rows == 0 || cols > RESIZE_DIMENSION_MAX || rows > RESIZE_DIMENSION_MAX {
            Err((4006, "invalid_resize_size"@))
        } else {
            Ok((cols, rows))
        }
    }
}

/// Reads a resize body: two big-endian dimensions, each from 1 to 9999.
pub fn parse_resize(body: &[u8]) -> (r: Result<(u16, u16), CloseReason>)
    ensures
        match r {
            Ok(size) => spec_resize(body@) == Ok::<(u16, u16), (u16, Seq<char>)>(size),
            Err((code, reason)) => spec_resize(body@) == Err::<(u16, u16), (u16, Seq<char>)>((code, reason@)),
        },
{
    if body.len() != 4 {
        return Err((4006, "invalid_resize_payload"));
    }
    let cols = read_be16(body, 0);
    let rows = read_be16(body, 2);
    if cols == 0 || rows == 0 || cols > RESIZE_DIMENSION_MAX || rows > RESIZE_DIMENSION_MAX {
        return Err((4006, "invalid_resize_size"));
    }
    Ok((cols, rows))
}

/// What an operator of a pane share asks for.
#[derive(Debug, Clone, Copy, PartialEq, Eq, Structural)]
pub enum PaneOperatorRequest {
    Text,
    Key,
    Resize,
    Unknown,
}

/// What an operator of a session share asks for.
#[derive(Debug, Clone, Copy, PartialEq, Eq, Structural)]
pub enum SessionOperatorRequest {
    Text,
    Key,
    Resize,
    AttachInput,
    Unknown,
}

/// Classifies a pane operator's opcode.
pub fn pane_operator_request(opcode: u8) -> (r: PaneOperatorRequest)
    ensures
        r == (if opcode == WS_INPUT_TEXT {
            PaneOperatorRequest::Text
        } else if opcode == WS_INPUT_KEY {
            PaneOperatorRequest::Key
        } else if opcode == WS_RESIZE_REQUEST {
            PaneOperatorRequest::Resize
        } else {
            PaneOperatorRequest::Unknown
        }),
{
    if opcode == WS_INPUT_TEXT {
        PaneOperatorRequest::Text
    } else if opcode == WS_INPUT_KEY {
        PaneOperatorRequest::Key
    } else if opcode == WS_RESIZE_REQUEST {
        PaneOperatorRequest::Resize
    } else {
        PaneOperatorRequest::Unknown
    }
}

/// Classifies a session operator's opcode.
pub fn session_operator_request(opcode: u8) -> (r: SessionOperatorRequest)
    ensures
        r == (if opcode == WS_INPUT_TEXT {
            SessionOperatorRequest::Text
        } else if opcode == WS_INPUT_KEY {
            SessionOperatorRequest::Key
        } else if opcode == WS_RESIZE_REQUEST {
            SessionOperatorRequest::Resize
        } else if opcode == WS_ATTACH_INPUT {
            SessionOperatorRequest::AttachInput
        } else {
            SessionOperatorRequest::Unknown
        }),
{
    if opcode == WS_INPUT_TEXT {
        SessionOperatorRequest::Text
    } else if opcode == WS_INPUT_KEY {
        SessionOperatorRequest::Key
    } else if opcode == WS_RESIZE_REQUEST {
        SessionOperatorRequest::Resize
    } else if opcode == WS_ATTACH_INPUT {
        SessionOperatorRequest::AttachInput
    } else {
        SessionOperatorRequest::Unknown
    }
}

/// A key token is any printable ASCII text of at most 64 bytes, spaces
/// included: such a body is accepted as the text it spells; a body of at
/// most 64 bytes that is UTF-8 but holds any other byte is refused as an
/// invalid token, and a longer UTF-8 body too.
pub proof fn lemma_key_tokens_are_printable_ascii(body: Seq<u8>)
    ensures
        body.len() <= 64 && (forall|i: int| 0 <= i < body.len() ==> 0x20 <= #[trigger] body[i] <= 0x7e)
            ==> spec_key_token(body) == Ok::<Seq<char>, (u16, Seq<char>)>(ascii_chars(body)),
        valid_utf8(body) && (exists|i: int| 0 <= i < body.len() && !(0x20 <= #[trigger] body[i] <= 0x7e))
            ==> spec_key_token(body) == Err::<Seq<char>, (u16, Seq<char>)>((4006, "invalid_key_token"@)),
        valid_utf8(body) && body.len() > 64 ==> spec_key_token(body) == Err::<Seq<char>, (u16, Seq<char>)>(
            (4006, "invalid_key_token"@),
        ),
{
    if body.len() <= 64 && (forall|i: int| 0 <= i < body.len() ==> 0x20 <= #[trigger] body[i] <= 0x7e) {
        assert forall|i: int| 0 <= i < body.len() implies #[trigger] body[i] < 0x80 by {
            assert(0x20 <= body[i] <= 0x7e);
        }
        lemma_ascii_encoding(body);
        assert forall|i: int| 0 <= i < body.len() implies key_token_byte(#[trigger] body[i]) by {
            assert(0x20 <= body[i] <= 0x7e);
        }
    }
    if valid_utf8(body) && (exists|i: int| 0 <= i < body.len() && !(0x20 <= #[trigger] body[i] <= 0x7e)) {
        let i = choose|i: int| 0 <= i < body.len() && !(0x20 <= #[trigger] body[i] <= 0x7e);
        assert(!key_token_byte(body[i]));
    }
}

} // verus!
