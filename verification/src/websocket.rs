//! Websocket framing as the web-share listener speaks it: complete
//! (unfragmented) frames, masked from the client and unmasked from the
//! server, with client frames capped at 8 KiB; and the handshake's key
//! checks.

use vstd::prelude::*;
use vstd::utf8::{decode_utf8, encode_utf8, valid_utf8};

use crate::bytes::{
    be16, be64, concat, from_be16, from_be64, lemma_from_be16_be16, lemma_from_be64_be64, push_all, read_be16,
    read_be64, u16_be_bytes, u64_be_bytes,
};
use crate::digest::{sha1, sha1_digest};
use crate::encoding::{base64_std_decode, base64_std_encode, std_decode, std_encode};
use crate::text::str_from_utf8;

verus! {

/// Largest payload, in bytes, of a frame from a client.
pub const CLIENT_FRAME_LIMIT: u64 = 8192;

/// Opcode of a text frame.
pub const OPCODE_TEXT: u8 = 0x1;
/// Opcode of a binary frame.
pub const OPCODE_BINARY: u8 = 0x2;
/// Opcode of a close frame.
pub const OPCODE_CLOSE: u8 = 0x8;
/// Opcode of a ping frame.
pub const OPCODE_PING: u8 = 0x9;
/// Opcode of a pong frame.
pub const OPCODE_PONG: u8 = 0xA;

/// Longest close reason, in bytes, that fits a control frame with its code.
pub const CLOSE_REASON_MAX: usize = 123;

/// The GUID that RFC 6455 appends to the client's key.
pub const WEBSOCKET_GUID: [u8; 36] = [
    50, 53, 56, 69, 65, 70, 65, 53, 45, 69, 57, 49, 52, 45, 52, 55, 68, 65, 45, 57, 53, 67, 65,
    45, 67, 53, 65, 66, 48, 68, 67, 56, 53, 66, 49, 49,
];

/// One complete websocket frame.
#[derive(Debug)]
pub struct WebSocketFrame {
    pub opcode: u8,
    pub payload: Vec<u8>,
}

/// Why bytes from a client are not (yet) a frame.
#[derive(Debug, Clone, Copy, PartialEq, Eq, Structural)]
pub enum FrameError {
    /// More bytes are needed.
    Incomplete,
    /// The frame is not final: fragmented frames are not supported.
    Fragmented,
    /// Client frames must be masked.
    Unmasked,
    /// The payload exceeds the client frame limit.
    TooLarge,
}

/// A websocket message as the reader hands it on.
#[derive(Debug, Clone, PartialEq, Eq)]
pub enum WebSocketMessage {
    Text(String),
    Binary(Vec<u8>),
    Ping(Vec<u8>),
    Pong,
    Close,
}

/// Why a frame is not a message.
#[derive(Debug, Clone, Copy, PartialEq, Eq, Structural)]
pub enum MessageError {
    /// A text frame whose payload is not UTF-8.
    InvalidUtf8,
    /// An opcode this listener does not handle.
    UnsupportedOpcode,
}

/// The length field of a server frame: one byte below 126, else 126 and two
/// bytes, else 127 and eight bytes, big-endian.
pub open spec fn server_length_field(len: nat) -> Seq<u8> {
    if len < 126 {
        seq![len as u8]
    } else if len <= 0xffff {
        seq![126u8] + be16(len as u16)
    } else {
        seq![127u8] + be64(len as u64)
    }
}

/// The bytes of a server frame: final, unmasked, with the given opcode.
pub open spec fn server_frame(opcode: u8, payload: Seq<u8>) -> Seq<u8> {
    seq![0x80u8 | opcode] + server_length_field(payload.len()) + payload
}

/// The length field of a client frame: as a server's, with the mask bit set.
pub open spec fn client_length_field(len: nat) -> Seq<u8> {
    if len < 126 {
        seq![0x80u8 | (len as u8)]
    } else if len <= 0xffff {
        seq![0x80u8 | 126u8] + be16(len as u16)
    } else {
        seq![0x80u8 | 127u8] + be64(len as u64)
    }
}

/// `data` with each byte XORed with the mask byte at its position modulo four.
pub open spec fn masked(data: Seq<u8>, mask: Seq<u8>) -> Seq<u8> {
    Seq::new(data.len(), |i: int| data[i] ^ mask[i % 4])
}

/// The bytes of a client frame: final, masked with `mask`, with the given
/// opcode.
pub open spec fn client_frame(opcode: u8, mask: Seq<u8>, payload: Seq<u8>) -> Seq<u8> {
    seq![0x80u8 | opcode] + client_length_field(payload.len()) + mask + masked(payload, mask)
}

/// The payload length announced at the start of `buf`, and where the mask
/// begins; none while the length's bytes are incomplete.
pub open spec fn announced_length(buf: Seq<u8>) -> Option<(int, int)>
    recommends
        buf.len() >= 2,
{
    let short = buf[1] & 0x7f;
    if short < 126 {
        Some((short as int, 2))
    } else if short == 126 {
        if buf.len() < 4 {
            None
        } else {
            Some((from_be16(buf.subrange(2, 4)) as int, 4))
        }
    } else if buf.len() < 10 {
        None
    } else {
        Some((from_be64(buf.subrange(2, 10)) as int, 10))
    }
}

/// What the start of `buf` holds as a client frame: its opcode, unmasked
/// payload and byte length, or why it holds none. Checks run in the order in
/// which the bytes arrive.
pub open spec fn parse_client_frame(buf: Seq<u8>) -> Result<(u8, Seq<u8>, int), FrameError> {
    if buf.len() < 2 {
        Err(FrameError::Incomplete)
    } else if buf[0] & 0x80 == 0 {
        Err(FrameError::Fragmented)
    } else if buf[1] & 0x80 == 0 {
        Err(FrameError::Unmasked)
    } else {
        match announced_length(buf) {
            None => Err(FrameError::Incomplete),
            Some((len, at)) => if len > CLIENT_FRAME_LIMIT {
                Err(FrameError::TooLarge)
            } else if buf.len() < at + 4 + len {
                Err(FrameError::Incomplete)
            } else {
                Ok(
                    (
                        buf[0] & 0x0f,
                        masked(buf.subrange(at + 4, at + 4 + len), buf.subrange(at, at + 4)),
                        at + 4 + len,
                    ),
                )
            },
        }
    }
}

/// The bytes that `write_frame` sends for a server frame.
pub fn encode_server_frame(opcode: u8, payload: &[u8]) -> (frame: Vec<u8>)
    ensures
        frame@ == server_frame(opcode, payload@),
{
    let mut frame: Vec<u8> = Vec::with_capacity(10);
    frame.push(0x80u8 | opcode);
    let len = payload.len();
    if len < 126 {
        frame.push(len as u8);
    } else if len <= 0xffff {
        frame.push(126u8);
        let b = u16_be_bytes(len as u16);
        push_all(&mut frame, &b);
    } else {
        frame.push(127u8);
        let b = u64_be_bytes(len as u64);
        push_all(&mut frame, &b);
    }
    assert(frame@ =~= seq![0x80u8 | opcode] + server_length_field(payload@.len()));
    push_all(&mut frame, payload);
    assert(frame@ =~= server_frame(opcode, payload@));
    frame
}

/// Appends the length field of a client frame carrying `len` bytes.
pub fn push_client_frame_len(frame: &mut Vec<u8>, len: usize)
    ensures
        final(frame)@ == old(frame)@ + client_length_field(len as nat),
{
    if len < 126 {
        frame.push(0x80u8 | (len as u8));
    } else if len <= 0xffff {
        frame.push(0x80u8 | 126u8);
        let b = u16_be_bytes(len as u16);
        push_all(frame, &b);
    } else {
        frame.push(0x80u8 | 127u8);
        let b = u64_be_bytes(len as u64);
        push_all(frame, &b);
    }
    assert(final(frame)@ =~= old(frame)@ + client_length_field(len as nat));
}

/// XORs `data` with the four-byte mask, position by position.
pub fn apply_mask(data: &[u8], mask: &[u8; 4]) -> (out: Vec<u8>)
    ensures
        out@ == masked(data@, mask@),
{
    let mut out: Vec<u8> = Vec::with_capacity(data.len());
    let mut i: usize = 0;
    while i < data.len()
        invariant
            i <= data@.len(),
            out@.len() == i,
            forall|j: int| 0 <= j < i ==> out@[j] == data@[j] ^ mask@[j % 4],
        decreases data@.len() - i,
    {
        out.push(data[i] ^ mask[i % 4]);
        i = i + 1;
    }
    assert(out@ =~= masked(data@, mask@));
    out
}

/// The bytes of a client frame, as a browser sends it.
pub fn encode_client_frame(opcode: u8, mask: [u8; 4], payload: &[u8]) -> (frame: Vec<u8>)
    ensures
        frame@ == client_frame(opcode, mask@, payload@),
{
    let mut frame: Vec<u8> = Vec::with_capacity(14);
    frame.push(0x80u8 | opcode);
    push_client_frame_len(&mut frame, payload.len());
    push_all(&mut frame, &mask);
    let body = apply_mask(payload, &mask);
    push_all(&mut frame, body.as_slice());
    assert(frame@ =~= client_frame(opcode, mask@, payload@));
    frame
}

/// Reads one client frame from the start of `buf`, returning it with the
/// number of bytes it took.
pub fn read_client_frame(buf: &[u8]) -> (res: Result<(WebSocketFrame, usize), FrameError>)
    ensures
        match res {
            Ok((frame, used)) => parse_client_frame(buf@) == Ok::<(u8, Seq<u8>, int), FrameError>(
                (frame.opcode, frame.payload@, used as int),
            ),
            Err(e) => parse_client_frame(buf@) == Err::<(u8, Seq<u8>, int), FrameError>(e),
        },
{
    if buf.len() < 2 {
        return Err(FrameError::Incomplete);
    }
    let b0 = buf[0];
    let b1 = buf[1];
    if b0 & 0x80 == 0 {
        return Err(FrameError::Fragmented);
    }
    if b1 & 0x80 == 0 {
        return Err(FrameError::Unmasked);
    }
    let opcode = b0 & 0x0f;
    let short = b1 & 0x7f;
    let len: u64;
    let at: usize;
    if short < 126 {
        len = short as u64;
        at = 2;
    } else if short == 126 {
        if buf.len() < 4 {
            return Err(FrameError::Incomplete);
        }
        len = read_be16(buf, 2) as u64;
        at = 4;
    } else {
        if buf.len() < 10 {
            return Err(FrameError::Incomplete);
        }
        len = read_be64(buf, 2);
        at = 10;
    }
    assert(announced_length(buf@) == Some((len as int, at as int)));
    if len > CLIENT_FRAME_LIMIT {
        return Err(FrameError::TooLarge);
    }
    let n = len as usize;
    if buf.len() - at < 4 || buf.len() - at - 4 < n {
        return Err(FrameError::Incomplete);
    }
    let mask = [buf[at], buf[at + 1], buf[at + 2], buf[at + 3]];
    assert(mask@ =~= buf@.subrange(at as int, at + 4));
    let (_, rest) = buf.split_at(at + 4);
    let (data, _) = rest.split_at(n);
    assert(data@ =~= buf@.subrange(at + 4, at + 4 + n));
    let payload = apply_mask(data, &mask);
    Ok((WebSocketFrame { opcode, payload }, at + 4 + n))
}

/// Unmasking a masked byte gives it back.
proof fn lemma_mask_involution(data: Seq<u8>, mask: Seq<u8>)
    requires
        mask.len() == 4,
    ensures
        masked(masked(data, mask), mask) == data,
{
    assert forall|i: int| 0 <= i < data.len() implies #[trigger] masked(masked(data, mask), mask)[i]
        == data[i] by {
        let d = data[i];
        let m = mask[i % 4];
        assert((d ^ m) ^ m == d) by (bit_vector);
    }
    assert(masked(masked(data, mask), mask) =~= data);
}

/// A frame that a client encodes, with a payload within the limit and an
/// opcode of four bits, reads back as that opcode and payload, whatever bytes
/// follow it.
pub proof fn lemma_client_frame_round_trip(opcode: u8, mask: Seq<u8>, payload: Seq<u8>, rest: Seq<u8>)
    requires
        opcode < 16,
        mask.len() == 4,
        payload.len() <= CLIENT_FRAME_LIMIT,
    ensures
        parse_client_frame(client_frame(opcode, mask, payload) + rest) == Ok::<
            (u8, Seq<u8>, int),
            FrameError,
        >((opcode, payload, client_frame(opcode, mask, payload).len() as int)),
{
    let f = client_frame(opcode, mask, payload);
    let buf = f + rest;
    let len = payload.len();
    let b0 = 0x80u8 | opcode;
    assert(b0 & 0x80 != 0 && b0 & 0x0f == opcode) by (bit_vector)
        requires
            b0 == 0x80u8 | opcode,
            opcode < 16,
    ;
    assert(buf[0] == b0);
    let at: int = if len < 126 {
        2
    } else {
        4
    };
    if len < 126 {
        let b1 = 0x80u8 | (len as u8);
        let l8 = len as u8;
        assert(b1 & 0x80 != 0 && b1 & 0x7f == l8) by (bit_vector)
            requires
                b1 == 0x80u8 | l8,
                l8 < 126,
        ;
        assert(buf[1] == b1);
        assert(announced_length(buf) == Some((len as int, 2int)));
    } else {
        let b1 = 0x80u8 | 126u8;
        assert(b1 & 0x80 != 0 && b1 & 0x7f == 126) by (bit_vector)
            requires
                b1 == 0x80u8 | 126u8,
        ;
        assert(buf[1] == b1);
        assert(buf.subrange(2, 4) =~= be16(len as u16));
        lemma_from_be16_be16(len as u16);
        assert(announced_length(buf) == Some((len as int, 4int)));
    }
    assert(buf.subrange(at, at + 4) =~= mask);
    assert(buf.subrange(at + 4, at + 4 + len) =~= masked(payload, mask));
    lemma_mask_involution(payload, mask);
}

/// The payload of a close frame: the big-endian code and at most 123 bytes
/// of the reason.
pub open spec fn close_payload_bytes(code: u16, reason: Seq<u8>) -> Seq<u8> {
    be16(code) + reason.subrange(
        0,
        if reason.len() < CLOSE_REASON_MAX {
            reason.len() as int
        } else {
            CLOSE_REASON_MAX as int
        },
    )
}

/// Builds the payload of a close frame.
pub fn close_payload(code: u16, reason: &str) -> (payload: Vec<u8>)
    ensures
        payload@ == close_payload_bytes(code, encode_utf8(reason@)),
{
    let bytes = reason.as_bytes();
    let keep = if bytes.len() < CLOSE_REASON_MAX {
        bytes.len()
    } else {
        CLOSE_REASON_MAX
    };
    let (kept, _) = bytes.split_at(keep);
    let c = u16_be_bytes(code);
    concat(&c, kept)
}

/// The message that a frame from a client carries.
pub open spec fn frame_message_kind(opcode: u8, payload: Seq<u8>) -> Result<u8, MessageError> {
    if opcode == OPCODE_TEXT {
        if valid_utf8(payload) {
            Ok(OPCODE_TEXT)
        } else {
            Err(MessageError::InvalidUtf8)
        }
    } else if opcode == OPCODE_BINARY || opcode == OPCODE_CLOSE || opcode == OPCODE_PING
        || opcode == OPCODE_PONG {
        Ok(opcode)
    } else {
        Err(MessageError::UnsupportedOpcode)
    }
}

/// Turns a frame into the message a split reader hands on: text (which must
/// be UTF-8), binary, ping with its payload, pong or close.
pub fn message_from_frame(frame: WebSocketFrame) -> (res: Result<WebSocketMessage, MessageError>)
    ensures
        frame_message_kind(frame.opcode, frame.payload@) is Err ==> res == Err::<
            WebSocketMessage,
            MessageError,
        >(frame_message_kind(frame.opcode, frame.payload@)->Err_0),
        frame_message_kind(frame.opcode, frame.payload@) is Ok ==> res is Ok,
        res matches Ok(m) ==> match m {
            WebSocketMessage::Text(t) => frame.opcode == OPCODE_TEXT && t@ == decode_utf8(
                frame.payload@,
            ),
            WebSocketMessage::Binary(b) => frame.opcode == OPCODE_BINARY && b@ == frame.payload@,
            WebSocketMessage::Ping(b) => frame.opcode == OPCODE_PING && b@ == frame.payload@,
            WebSocketMessage::Pong => frame.opcode == OPCODE_PONG,
            WebSocketMessage::Close => frame.opcode == OPCODE_CLOSE,
        },
{
    let opcode = frame.opcode;
    if opcode == OPCODE_TEXT {
        match str_from_utf8(frame.payload.as_slice()) {
            Some(text) => Ok(WebSocketMessage::Text(text.to_owned())),
            None => Err(MessageError::InvalidUtf8),
        }
    } else if opcode == OPCODE_BINARY {
        Ok(WebSocketMessage::Binary(frame.payload))
    } else if opcode == OPCODE_CLOSE {
        Ok(WebSocketMessage::Close)
    } else if opcode == OPCODE_PING {
        Ok(WebSocketMessage::Ping(frame.payload))
    } else if opcode == OPCODE_PONG {
        Ok(WebSocketMessage::Pong)
    } else {
        Err(MessageError::UnsupportedOpcode)
    }
}

/// The `Sec-WebSocket-Accept` value for a client key: standard base64 of
/// SHA-1 over the key and the RFC 6455 GUID.
pub open spec fn spec_accept_key(key: Seq<char>) -> Seq<char> {
    base64_std_encode(sha1(encode_utf8(key) + WEBSOCKET_GUID@))
}

/// Computes the `Sec-WebSocket-Accept` value for a client key.
pub fn websocket_accept_key(key: &str) -> (accept: String)
    ensures
        accept@ == spec_accept_key(key@),
{
    let input = concat(key.as_bytes(), &WEBSOCKET_GUID);
    let digest = sha1_digest(input.as_slice());
    std_encode(&digest)
}

/// Whether a client key is standard base64 of sixteen bytes.
pub fn valid_client_key(key: &str) -> (r: bool)
    ensures
        r == (base64_std_decode(encode_utf8(key@)) matches Some(b) && b.len() == 16),
{
    match std_decode(key.as_bytes()) {
        Some(decoded) => decoded.len() == 16,
        None => false,
    }
}

/// A final, masked client frame that gives its length in the eight-byte
/// form (length byte 127, then the length big-endian) is read by that
/// length: refused as too large as soon as the length exceeds the client
/// limit, whatever follows; otherwise incomplete until the mask and payload
/// are in, then read whole, its payload unmasked.
pub proof fn lemma_eight_byte_length_form(b0: u8, len: u64, rest: Seq<u8>)
    requires
        b0 & 0x80 != 0,
    ensures
        len > CLIENT_FRAME_LIMIT ==> parse_client_frame(seq![b0, 0xffu8] + be64(len) + rest) == Err::<
            (u8, Seq<u8>, int),
            FrameError,
        >(FrameError::TooLarge),
        len <= CLIENT_FRAME_LIMIT && rest.len() < 4 + len ==> parse_client_frame(seq![b0, 0xffu8] + be64(len) + rest)
            == Err::<(u8, Seq<u8>, int), FrameError>(FrameError::Incomplete),
        len <= CLIENT_FRAME_LIMIT && rest.len() >= 4 + len ==> parse_client_frame(seq![b0, 0xffu8] + be64(len) + rest)
            == Ok::<(u8, Seq<u8>, int), FrameError>(
            (b0 & 0x0f, masked(rest.subrange(4, 4 + len), rest.subrange(0, 4)), 14 + len),
        ),
{
    let buf = seq![b0, 0xffu8] + be64(len) + rest;
    let b1 = 0xffu8;
    assert(b1 & 0x80 != 0 && b1 & 0x7f == 127) by (bit_vector)
        requires
            b1 == 0xffu8,
    ;
    assert(buf[0] == b0);
    assert(buf[1] == b1);
    assert(buf.subrange(2, 10) =~= be64(len));
    lemma_from_be64_be64(len);
    assert(announced_length(buf) == Some((len as int, 10int)));
    if len <= CLIENT_FRAME_LIMIT && rest.len() >= 4 + len {
        assert(buf.subrange(14, 14 + len) =~= rest.subrange(4, 4 + len));
        assert(buf.subrange(10, 14) =~= rest.subrange(0, 4));
    }
}

} // verus!
