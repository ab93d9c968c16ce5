//! The encrypted record layer: each record is a marker byte, an 8-byte
//! big-endian sequence number and the AES-256-GCM sealing of the plaintext,
//! authenticated together with the marker and sequence number. Each direction
//! numbers its records from zero and accepts them only in order.

use vstd::prelude::*;

use crate::aead::{
    aead_plaintext_max, aes256gcm_decrypt, aes256gcm_encrypt, aes256gcm_open,
    aes256gcm_seal,
};
use crate::bytes::{be64, from_be64, lemma_from_be64_be64, push_all, read_be64, u64_be_bytes};
use crate::error::Error;

verus! {

/// Marker byte that opens every encrypted record.
pub const ENCRYPTED_FRAME: u8 = 0xE0;

/// Bytes in a record header: the marker and the sequence number.
pub const RECORD_HEADER_LEN: usize = 9;

/// Bytes in the authentication tag that follows the ciphertext.
pub const RECORD_TAG_LEN: usize = 16;

/// The header of the record numbered `seq`.
pub open spec fn record_header(seq: u64) -> Seq<u8> {
    seq![ENCRYPTED_FRAME] + be64(seq)
}

/// The 12-byte nonce of the record numbered `seq`: the direction's 4-byte
/// prefix followed by the big-endian sequence number.
pub open spec fn record_nonce(prefix: Seq<u8>, seq: u64) -> Seq<u8> {
    prefix + be64(seq)
}

/// The sequence number after `seq`; it stays at the maximum once reached.
pub open spec fn next_seq_after(seq: u64) -> u64 {
    if seq == u64::MAX {
        seq
    } else {
        (seq + 1) as u64
    }
}

/// `frame` is the record that key `key` and nonce prefix `prefix` seal from
/// `plain` as record number `seq`.
pub open spec fn is_sealed_record(
    key: Seq<u8>,
    prefix: Seq<u8>,
    seq: u64,
    plain: Seq<u8>,
    frame: Seq<u8>,
) -> bool {
    &&& frame.len() == RECORD_HEADER_LEN + plain.len() + RECORD_TAG_LEN
    &&& frame == record_header(seq) + aes256gcm_seal(
        key,
        record_nonce(prefix, seq),
        record_header(seq),
        plain,
    )
}

/// What opening `frame` gives when record number `expected` is due.
pub open spec fn open_record(key: Seq<u8>, prefix: Seq<u8>, expected: u64, frame: Seq<u8>) -> Result<
    Seq<u8>,
    Error,
> {
    if frame.len() < RECORD_HEADER_LEN + RECORD_TAG_LEN || frame[0] != ENCRYPTED_FRAME {
        Err(Error::InvalidFrame)
    } else if from_be64(frame.subrange(1, 9)) != expected {
        Err(Error::OutOfOrder)
    } else {
        match aes256gcm_open(
            key,
            record_nonce(prefix, expected),
            frame.subrange(0, 9),
            frame.subrange(9, frame.len() as int),
        ) {
            Some(plain) => Ok(plain),
            None => Err(Error::DecryptFailed),
        }
    }
}

/// The bytes held by a result.
pub open spec fn bytes_result_view(r: Result<Vec<u8>, Error>) -> Result<Seq<u8>, Error> {
    match r {
        Ok(v) => Ok(v@),
        Err(e) => Err(e),
    }
}

/// Builds the nonce of record `seq` from the direction's prefix.
pub fn nonce_from_parts(prefix: [u8; 4], seq: u64) -> (nonce: [u8; 12])
    ensures
        nonce@ == record_nonce(prefix@, seq),
{
    let s = u64_be_bytes(seq);
    let nonce = [prefix[0], prefix[1], prefix[2], prefix[3], s[0], s[1], s[2], s[3], s[4], s[5], s[6], s[7]];
    assert(nonce@ =~= record_nonce(prefix@, seq));
    nonce
}

/// Seals the records of one direction.
pub struct RecordSealer {
    key: [u8; 32],
    nonce_prefix: [u8; 4],
    next_seq: u64,
}

/// Opens the records of one direction, in order.
pub struct RecordOpener {
    key: [u8; 32],
    nonce_prefix: [u8; 4],
    next_seq: u64,
}

impl RecordSealer {
    /// The direction's key.
    pub closed spec fn key(&self) -> Seq<u8> {
        self.key@
    }

    /// The direction's nonce prefix.
    pub closed spec fn prefix(&self) -> Seq<u8> {
        self.nonce_prefix@
    }

    /// The number of the next record to seal.
    pub closed spec fn seq(&self) -> u64 {
        self.next_seq
    }

    /// A sealer that numbers its first record zero.
    pub fn new(key: [u8; 32], nonce_prefix: [u8; 4]) -> (s: Self)
        ensures
            s.key() == key@,
            s.prefix() == nonce_prefix@,
            s.seq() == 0,
    {
        RecordSealer { key, nonce_prefix, next_seq: 0 }
    }

    /// Seals `plaintext` as the next record. On success the sequence number
    /// advances; when encryption refuses the plaintext nothing changes.
    pub fn seal(&mut self, plaintext: &[u8]) -> (res: Result<Vec<u8>, Error>)
        ensures
            final(self).key() == old(self).key(),
            final(self).prefix() == old(self).prefix(),
            res is Ok <==> plaintext@.len() <= aead_plaintext_max(),
            res matches Ok(frame) ==> is_sealed_record(
                old(self).key(),
                old(self).prefix(),
                old(self).seq(),
                plaintext@,
                frame@,
            ),
            res matches Err(e) ==> e == Error::EncryptFailed,
            final(self).seq() == (if res is Ok {
                next_seq_after(old(self).seq())
            } else {
                old(self).seq()
            }),
    {
        let seq = self.next_seq;
        let mut out: Vec<u8> = Vec::with_capacity(RECORD_HEADER_LEN + 1);
        out.push(ENCRYPTED_FRAME);
        let seq_bytes = u64_be_bytes(seq);
        push_all(&mut out, &seq_bytes);
        assert(out@ =~= record_header(seq));
        let nonce = nonce_from_parts(self.nonce_prefix, seq);
        let sealed = aes256gcm_encrypt(&self.key, &nonce, out.as_slice(), plaintext);
        match sealed {
            Some(ct) => {
                let ghost header = out@;
                push_all(&mut out, ct.as_slice());
                self.next_seq = self.next_seq.saturating_add(1);
                Ok(out)
            },
            None => Err(Error::EncryptFailed),
        }
    }
}

impl RecordOpener {
    /// The direction's key.
    pub closed spec fn key(&self) -> Seq<u8> {
        self.key@
    }

    /// The direction's nonce prefix.
    pub closed spec fn prefix(&self) -> Seq<u8> {
        self.nonce_prefix@
    }

    /// The number of the next record to accept.
    pub closed spec fn seq(&self) -> u64 {
        self.next_seq
    }

    /// An opener that expects record zero first.
    pub fn new(key: [u8; 32], nonce_prefix: [u8; 4]) -> (o: Self)
        ensures
            o.key() == key@,
            o.prefix() == nonce_prefix@,
            o.seq() == 0,
    {
        RecordOpener { key, nonce_prefix, next_seq: 0 }
    }

    /// Opens `frame` as the next record. On success the expected sequence
    /// number advances; on any error nothing changes. A frame that the
    /// matching sealer produced as this record opens to what it sealed.
    pub fn open(&mut self, frame: &[u8]) -> (res: Result<Vec<u8>, Error>)
        ensures
            final(self).key() == old(self).key(),
            final(self).prefix() == old(self).prefix(),
            bytes_result_view(res) == open_record(
                old(self).key(),
                old(self).prefix(),
                old(self).seq(),
                frame@,
            ),
            final(self).seq() == (if res is Ok {
                next_seq_after(old(self).seq())
            } else {
                old(self).seq()
            }),
            forall|plain: Seq<u8>|
                plain.len() <= aead_plaintext_max() && #[trigger] is_sealed_record(
                    old(self).key(),
                    old(self).prefix(),
                    old(self).seq(),
                    plain,
                    frame@,
                ) ==> bytes_result_view(res) == Ok::<Seq<u8>, Error>(plain),
    {
        if frame.len() < RECORD_HEADER_LEN + RECORD_TAG_LEN || frame[0] != ENCRYPTED_FRAME {
            proof { self.lemma_sealed_records_are_well_formed(frame@); }
            return Err(Error::InvalidFrame);
        }
        let seq = read_be64(frame, 1);
        if seq != self.next_seq {
            proof { self.lemma_sealed_records_are_well_formed(frame@); }
            return Err(Error::OutOfOrder);
        }
        let nonce = nonce_from_parts(self.nonce_prefix, seq);
        let (aad, ct) = frame.split_at(RECORD_HEADER_LEN);
        proof { self.lemma_sealed_records_are_well_formed(frame@); }
        match aes256gcm_decrypt(&self.key, &nonce, aad, ct) {
            Some(plain) => {
                self.next_seq = self.next_seq.saturating_add(1);
                Ok(plain)
            },
            None => Err(Error::DecryptFailed),
        }
    }

    /// Any record sealed as the one this opener expects has the marker, the
    /// expected sequence number and enough bytes for a tag.
    proof fn lemma_sealed_records_are_well_formed(&self, frame: Seq<u8>)
        ensures
            forall|plain: Seq<u8>|
                #[trigger] is_sealed_record(self.key(), self.prefix(), self.seq(), plain, frame)
                    ==> {
                    &&& frame.len() >= RECORD_HEADER_LEN + RECORD_TAG_LEN
                    &&& frame[0] == ENCRYPTED_FRAME
                    &&& from_be64(frame.subrange(1, 9)) == self.seq()
                    &&& frame.subrange(0, 9) == record_header(self.seq())
                    &&& frame.subrange(9, frame.len() as int) == aes256gcm_seal(
                        self.key(),
                        record_nonce(self.prefix(), self.seq()),
                        record_header(self.seq()),
                        plain,
                    )
                },
    {
        assert forall|plain: Seq<u8>|
            #[trigger] is_sealed_record(
                self.key(),
                self.prefix(),
                self.seq(),
                plain,
                frame,
            ) implies {
            &&& frame.len() >= RECORD_HEADER_LEN + RECORD_TAG_LEN
            &&& frame[0] == ENCRYPTED_FRAME
            &&& from_be64(frame.subrange(1, 9)) == self.seq()
            &&& frame.subrange(0, 9) == record_header(self.seq())
            &&& frame.subrange(9, frame.len() as int) == aes256gcm_seal(
                self.key(),
                record_nonce(self.prefix(), self.seq()),
                record_header(self.seq()),
                plain,
            )
        } by {
            let h = record_header(self.seq());
            let c = aes256gcm_seal(
                self.key(),
                record_nonce(self.prefix(), self.seq()),
                record_header(self.seq()),
                plain,
            );
            assert(frame.subrange(0, 9) =~= h);
            assert(frame.subrange(9, frame.len() as int) =~= c);
            assert(frame.subrange(1, 9) =~= be64(self.seq()));
            lemma_from_be64_be64(self.seq());
        }
    }
}

/// A record sealed as number `seq` is refused as out of order by an opener
/// that expects any other number, so a replayed or reordered record never
/// opens.
pub proof fn lemma_record_only_opens_at_its_sequence_number(
    key: Seq<u8>,
    prefix: Seq<u8>,
    seq: u64,
    expected: u64,
    plain: Seq<u8>,
    frame: Seq<u8>,
)
    requires
        is_sealed_record(key, prefix, seq, plain, frame),
        expected != seq,
    ensures
        open_record(key, prefix, expected, frame) == Err::<Seq<u8>, Error>(Error::OutOfOrder),
{
    assert(frame.subrange(1, 9) =~= be64(seq));
    lemma_from_be64_be64(seq);
}

} // verus!
