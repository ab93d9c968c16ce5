//! Text/binary "kind byte" framing on top of encrypted records.
//!
//! Each plaintext record is prefixed with a single kind byte (`0x00` = text,
//! `0x01` = binary) before being sealed. The record layer below seals opaque
//! bytes and is unaware of this byte.

use vstd::prelude::*;
use vstd::utf8::{decode_utf8, encode_utf8, valid_utf8};

use crate::aead::aead_plaintext_max;
use crate::bytes::{push_all, to_vec};
use crate::error::Error;
use crate::text::str_from_utf8;
use crate::record::{
    is_sealed_record, next_seq_after, open_record, RecordOpener, RecordSealer,
};

verus! {

broadcast use vstd::utf8::group_utf8_lib;

/// Kind byte for a UTF-8 text record.
pub const KIND_TEXT: u8 = 0x00;

/// Kind byte for a binary record.
pub const KIND_BINARY: u8 = 0x01;

/// A decrypted web-share message.
#[derive(Debug, Clone, PartialEq, Eq)]
pub enum Message {
    /// A UTF-8 text message.
    Text(String),
    /// A binary message.
    Binary(Vec<u8>),
}

/// What a message holds: the characters of a text message or the bytes of
/// a binary one.
pub enum MessageView {
    Text(Seq<char>),
    Binary(Seq<u8>),
}

impl View for Message {
    type V = MessageView;

    open spec fn view(&self) -> MessageView {
        match self {
            Message::Text(s) => MessageView::Text(s@),
            Message::Binary(b) => MessageView::Binary(b@),
        }
    }
}

/// The plaintext record that carries message `m`: its kind byte followed by
/// its body.
pub open spec fn message_plaintext(m: MessageView) -> Seq<u8> {
    match m {
        MessageView::Text(chars) => seq![KIND_TEXT] + encode_utf8(chars),
        MessageView::Binary(body) => seq![KIND_BINARY] + body,
    }
}

/// The message carried by a decrypted plaintext record.
pub open spec fn decode_message(plain: Seq<u8>) -> Result<MessageView, Error> {
    if plain.len() == 0 {
        Err(Error::EmptyPlaintext)
    } else {
        let body = plain.subrange(1, plain.len() as int);
        if plain[0] == KIND_TEXT {
            if valid_utf8(body) {
                Ok(MessageView::Text(decode_utf8(body)))
            } else {
                Err(Error::InvalidUtf8)
            }
        } else if plain[0] == KIND_BINARY {
            Ok(MessageView::Binary(body))
        } else {
            Err(Error::UnknownKind(plain[0]))
        }
    }
}

/// What opening `frame` gives when record number `expected` is due.
pub open spec fn open_message(key: Seq<u8>, prefix: Seq<u8>, expected: u64, frame: Seq<u8>) -> Result<
    MessageView,
    Error,
> {
    match open_record(key, prefix, expected, frame) {
        Ok(plain) => decode_message(plain),
        Err(e) => Err(e),
    }
}

/// The view of an opened message.
pub open spec fn message_result_view(r: Result<Message, Error>) -> Result<MessageView, Error> {
    match r {
        Ok(m) => Ok(m@),
        Err(e) => Err(e),
    }
}

/// Seals outgoing text/binary messages for one direction.
pub struct Sealer {
    inner: RecordSealer,
}

impl Sealer {
    /// The record sealer underneath.
    pub closed spec fn records(&self) -> RecordSealer {
        self.inner
    }

    /// A message sealer over the given record sealer.
    pub fn new(inner: RecordSealer) -> (s: Self)
        ensures
            s.records() == inner,
    {
        Self { inner }
    }

    /// Seals a text message into a wire frame.
    pub fn seal_text(&mut self, text: &str) -> (res: Result<Vec<u8>, Error>)
        ensures
            final(self).records().key() == old(self).records().key(),
            final(self).records().prefix() == old(self).records().prefix(),
            res is Ok <==> message_plaintext(MessageView::Text(text@)).len()
                <= aead_plaintext_max(),
            res matches Ok(frame) ==> is_sealed_record(
                old(self).records().key(),
                old(self).records().prefix(),
                old(self).records().seq(),
                message_plaintext(MessageView::Text(text@)),
                frame@,
            ),
            res matches Err(e) ==> e == Error::EncryptFailed,
            final(self).records().seq() == (if res is Ok {
                next_seq_after(old(self).records().seq())
            } else {
                old(self).records().seq()
            }),
    {
        self.seal(KIND_TEXT, text.as_bytes())
    }

    /// Seals a binary message into a wire frame.
    pub fn seal_binary(&mut self, body: &[u8]) -> (res: Result<Vec<u8>, Error>)
        ensures
            final(self).records().key() == old(self).records().key(),
            final(self).records().prefix() == old(self).records().prefix(),
            res is Ok <==> message_plaintext(MessageView::Binary(body@)).len()
                <= aead_plaintext_max(),
            res matches Ok(frame) ==> is_sealed_record(
                old(self).records().key(),
                old(self).records().prefix(),
                old(self).records().seq(),
                message_plaintext(MessageView::Binary(body@)),
                frame@,
            ),
            res matches Err(e) ==> e == Error::EncryptFailed,
            final(self).records().seq() == (if res is Ok {
                next_seq_after(old(self).records().seq())
            } else {
                old(self).records().seq()
            }),
    {
        self.seal(KIND_BINARY, body)
    }

    /// Seals `kind` followed by `body` as the next record.
    fn seal(&mut self, kind: u8, body: &[u8]) -> (res: Result<Vec<u8>, Error>)
        ensures
            final(self).records().key() == old(self).records().key(),
            final(self).records().prefix() == old(self).records().prefix(),
            res is Ok <==> 1 + body@.len() <= aead_plaintext_max(),
            res matches Ok(frame) ==> is_sealed_record(
                old(self).records().key(),
                old(self).records().prefix(),
                old(self).records().seq(),
                seq![kind] + body@,
                frame@,
            ),
            res matches Err(e) ==> e == Error::EncryptFailed,
            final(self).records().seq() == (if res is Ok {
                next_seq_after(old(self).records().seq())
            } else {
                old(self).records().seq()
            }),
    {
        let mut plaintext: Vec<u8> = Vec::new();
        plaintext.push(kind);
        push_all(&mut plaintext, body);
        assert(plaintext@ =~= seq![kind] + body@);
        self.inner.seal(plaintext.as_slice())
    }
}

/// Opens incoming text/binary messages for one direction.
pub struct Opener {
    inner: RecordOpener,
}

impl Opener {
    /// The record opener underneath.
    pub closed spec fn records(&self) -> RecordOpener {
        self.inner
    }

    /// A message opener over the given record opener.
    pub fn new(inner: RecordOpener) -> (o: Self)
        ensures
            o.records() == inner,
    {
        Self { inner }
    }

    /// Opens a wire frame into a [`Message`].
    ///
    /// Never panics on attacker-controlled input: a frame that decrypts to no
    /// bytes yields [`Error::EmptyPlaintext`], an unknown kind byte yields
    /// [`Error::UnknownKind`], and invalid UTF-8 in a text record yields
    /// [`Error::InvalidUtf8`]. A frame that the matching sealer produced from
    /// a message, as the record this opener expects, opens to that message.
    pub fn open(&mut self, frame: &[u8]) -> (res: Result<Message, Error>)
        ensures
            final(self).records().key() == old(self).records().key(),
            final(self).records().prefix() == old(self).records().prefix(),
            message_result_view(res) == open_message(
                old(self).records().key(),
                old(self).records().prefix(),
                old(self).records().seq(),
                frame@,
            ),
            final(self).records().seq() == (if open_record(
                old(self).records().key(),
                old(self).records().prefix(),
                old(self).records().seq(),
                frame@,
            ) is Ok {
                next_seq_after(old(self).records().seq())
            } else {
                old(self).records().seq()
            }),
            forall|m: MessageView|
                message_plaintext(m).len() <= aead_plaintext_max() && #[trigger] is_sealed_record(
                    old(self).records().key(),
                    old(self).records().prefix(),
                    old(self).records().seq(),
                    message_plaintext(m),
                    frame@,
                ) ==> message_result_view(res) == Ok::<MessageView, Error>(m),
    {
        let plaintext = self.inner.open(frame);
        proof { lemma_messages_decode_back(); }
        let plaintext = match plaintext {
            Ok(p) => p,
            Err(e) => return Err(e),
        };
        if plaintext.len() == 0 {
            return Err(Error::EmptyPlaintext);
        }
        let kind = plaintext[0];
        let (_, body) = plaintext.as_slice().split_at(1);
        assert(body@ =~= plaintext@.subrange(1, plaintext@.len() as int));
        if kind == KIND_TEXT {
            match str_from_utf8(body) {
                Some(text) => Ok(Message::Text(text.to_owned())),
                None => Err(Error::InvalidUtf8),
            }
        } else if kind == KIND_BINARY {
            Ok(Message::Binary(to_vec(body)))
        } else {
            Err(Error::UnknownKind(kind))
        }
    }
}

/// Every message's plaintext record decodes back to that message.
pub proof fn lemma_messages_decode_back()
    ensures
        forall|m: MessageView| #[trigger] decode_message(message_plaintext(m)) == Ok::<MessageView, Error>(m),
{
    assert forall|m: MessageView| #[trigger] decode_message(message_plaintext(m)) == Ok::<
        MessageView,
        Error,
    >(m) by {
        match m {
            MessageView::Text(chars) => {
                let p = message_plaintext(m);
                assert(p.subrange(1, p.len() as int) =~= encode_utf8(chars));
                vstd::utf8::encode_utf8_valid_utf8(chars);
                vstd::utf8::encode_utf8_decode_utf8(chars);
            },
            MessageView::Binary(body) => {
                let p = message_plaintext(m);
                assert(p.subrange(1, p.len() as int) =~= body);
            },
        }
    }
}

} // verus!
