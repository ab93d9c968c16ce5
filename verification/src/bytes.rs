//! Big-endian integer encodings and byte-sequence helpers shared by the wire
//! formats.

use vstd::prelude::*;

verus! {

/// The two big-endian bytes of a 16-bit value.
pub open spec fn be16(v: u16) -> Seq<u8> {
    seq![(v >> 8u16) as u8, v as u8]
}

/// The four big-endian bytes of a 32-bit value.
pub open spec fn be32(v: u32) -> Seq<u8> {
    seq![(v >> 24u32) as u8, (v >> 16u32) as u8, (v >> 8u32) as u8, v as u8]
}

/// The eight big-endian bytes of a 64-bit value.
pub open spec fn be64(v: u64) -> Seq<u8> {
    seq![
        (v >> 56u64) as u8,
        (v >> 48u64) as u8,
        (v >> 40u64) as u8,
        (v >> 32u64) as u8,
        (v >> 24u64) as u8,
        (v >> 16u64) as u8,
        (v >> 8u64) as u8,
        v as u8,
    ]
}

/// The value of two big-endian bytes.
pub open spec fn from_be16(b: Seq<u8>) -> u16
    recommends
        b.len() == 2,
{
    ((b[0] as u16) << 8u16) | (b[1] as u16)
}

/// The value of eight big-endian bytes.
pub open spec fn from_be64(b: Seq<u8>) -> u64
    recommends
        b.len() == 8,
{
    ((b[0] as u64) << 56u64) | ((b[1] as u64) << 48u64) | ((b[2] as u64) << 40u64) | ((
    b[3] as u64) << 32u64) | ((b[4] as u64) << 24u64) | ((b[5] as u64) << 16u64) | ((
    b[6] as u64) << 8u64) | (b[7] as u64)
}

/// Reading back the big-endian bytes of a 64-bit value gives the value.
pub proof fn lemma_from_be64_be64(v: u64)
    ensures
        from_be64(be64(v)) == v,
{
    let b0 = (v >> 56u64) as u8;
    let b1 = (v >> 48u64) as u8;
    let b2 = (v >> 40u64) as u8;
    let b3 = (v >> 32u64) as u8;
    let b4 = (v >> 24u64) as u8;
    let b5 = (v >> 16u64) as u8;
    let b6 = (v >> 8u64) as u8;
    let b7 = v as u8;
    assert(((b0 as u64) << 56u64) | ((b1 as u64) << 48u64) | ((b2 as u64) << 40u64) | ((
    b3 as u64) << 32u64) | ((b4 as u64) << 24u64) | ((b5 as u64) << 16u64) | ((b6 as u64)
        << 8u64) | (b7 as u64) == v) by (bit_vector)
        requires
            b0 == (v >> 56u64) as u8,
            b1 == (v >> 48u64) as u8,
            b2 == (v >> 40u64) as u8,
            b3 == (v >> 32u64) as u8,
            b4 == (v >> 24u64) as u8,
            b5 == (v >> 16u64) as u8,
            b6 == (v >> 8u64) as u8,
            b7 == v as u8,
    ;
}

/// Reading back the big-endian bytes of a 16-bit value gives the value.
pub proof fn lemma_from_be16_be16(v: u16)
    ensures
        from_be16(be16(v)) == v,
{
    let b0 = (v >> 8u16) as u8;
    let b1 = v as u8;
    assert(((b0 as u16) << 8u16) | (b1 as u16) == v) by (bit_vector)
        requires
            b0 == (v >> 8u16) as u8,
            b1 == v as u8,
    ;
}

/// Encodes a 16-bit value as two big-endian bytes.
pub fn u16_be_bytes(v: u16) -> (out: [u8; 2])
    ensures
        out@ == be16(v),
{
    let out = [(v >> 8u16) as u8, v as u8];
    assert(out@ =~= be16(v));
    out
}

/// Encodes a 32-bit value as four big-endian bytes.
pub fn u32_be_bytes(v: u32) -> (out: [u8; 4])
    ensures
        out@ == be32(v),
{
    let out = [(v >> 24u32) as u8, (v >> 16u32) as u8, (v >> 8u32) as u8, v as u8];
    assert(out@ =~= be32(v));
    out
}

/// Encodes a 64-bit value as eight big-endian bytes.
pub fn u64_be_bytes(v: u64) -> (out: [u8; 8])
    ensures
        out@ == be64(v),
{
    let out = [
        (v >> 56u64) as u8,
        (v >> 48u64) as u8,
        (v >> 40u64) as u8,
        (v >> 32u64) as u8,
        (v >> 24u64) as u8,
        (v >> 16u64) as u8,
        (v >> 8u64) as u8,
        v as u8,
    ];
    assert(out@ =~= be64(v));
    out
}

/// Reads a 16-bit value from two big-endian bytes at `start`.
pub fn read_be16(b: &[u8], start: usize) -> (v: u16)
    requires
        start + 2 <= b@.len(),
    ensures
        v == from_be16(b@.subrange(start as int, start + 2)),
{
    let v = ((b[start] as u16) << 8u16) | (b[start + 1] as u16);
    assert(b@.subrange(start as int, start + 2)[0] == b@[start as int]);
    assert(b@.subrange(start as int, start + 2)[1] == b@[start + 1]);
    v
}

/// Reads a 64-bit value from eight big-endian bytes at `start`.
pub fn read_be64(b: &[u8], start: usize) -> (v: u64)
    requires
        start + 8 <= b@.len(),
    ensures
        v == from_be64(b@.subrange(start as int, start + 8)),
{
    let ghost s = b@.subrange(start as int, start + 8);
    assert(forall|i: int| 0 <= i < 8 ==> s[i] == b@[start + i]);
    ((b[start] as u64) << 56u64) | ((b[start + 1] as u64) << 48u64) | ((b[start + 2] as u64)
        << 40u64) | ((b[start + 3] as u64) << 32u64) | ((b[start + 4] as u64) << 24u64) | ((
    b[start + 5] as u64) << 16u64) | ((b[start + 6] as u64) << 8u64) | (b[start + 7] as u64)
}

/// Appends every byte of `src` to `dst`.
pub fn push_all(dst: &mut Vec<u8>, src: &[u8])
    ensures
        final(dst)@ == old(dst)@ + src@,
{
    let mut i: usize = 0;
    while i < src.len()
        invariant
            i <= src@.len(),
            dst@ == old(dst)@ + src@.subrange(0, i as int),
        decreases src@.len() - i,
    {
        dst.push(src[i]);
        i = i + 1;
        assert(dst@ =~= old(dst)@ + src@.subrange(0, i as int));
    }
    assert(src@.subrange(0, src@.len() as int) =~= src@);
}

/// A fresh vector holding the bytes of `src`.
pub fn to_vec(src: &[u8]) -> (out: Vec<u8>)
    ensures
        out@ == src@,
{
    let mut out: Vec<u8> = Vec::with_capacity(src.len());
    push_all(&mut out, src);
    assert(out@ =~= src@);
    out
}

/// The byte sequence `prefix` followed by `body`, as a fresh vector.
pub fn concat(prefix: &[u8], body: &[u8]) -> (out: Vec<u8>)
    ensures
        out@ == prefix@ + body@,
{
    let mut out: Vec<u8> = Vec::new();
    push_all(&mut out, prefix);
    push_all(&mut out, body);
    assert(out@ =~= prefix@ + body@);
    out
}

/// True when `haystack` holds `needle` as a contiguous run of bytes.
pub open spec fn contains_bytes(haystack: Seq<u8>, needle: Seq<u8>) -> bool {
    exists|i: int|
        0 <= i && i + needle.len() <= haystack.len() && #[trigger] haystack.subrange(
            i,
            i + needle.len(),
        ) == needle
}

/// True when `b` starts with `prefix`.
pub open spec fn starts_with(b: Seq<u8>, prefix: Seq<u8>) -> bool {
    prefix.len() <= b.len() && b.subrange(0, prefix.len() as int) == prefix
}

/// Whether `haystack[at..]` begins with `needle`.
pub fn matches_at(haystack: &[u8], at: usize, needle: &[u8]) -> (r: bool)
    requires
        at <= haystack@.len(),
    ensures
        r == (at + needle@.len() <= haystack@.len() && haystack@.subrange(
            at as int,
            at + needle@.len(),
        ) == needle@),
{
    if needle.len() > haystack.len() - at {
        return false;
    }
    let mut j: usize = 0;
    while j < needle.len()
        invariant
            at + needle@.len() <= haystack@.len(),
            haystack@.len() <= usize::MAX,
            j <= needle@.len(),
            forall|k: int| 0 <= k < j ==> haystack@[at + k] == needle@[k],
        decreases needle@.len() - j,
    {
        if haystack[at + j] != needle[j] {
            assert(haystack@.subrange(at as int, at + needle@.len())[j as int] != needle@[j as int]);
            return false;
        }
        j = j + 1;
    }
    assert(haystack@.subrange(at as int, at + needle@.len()) =~= needle@);
    true
}

/// Whether `b` starts with `prefix`.
pub fn has_prefix(b: &[u8], prefix: &[u8]) -> (r: bool)
    ensures
        r == starts_with(b@, prefix@),
{
    matches_at(b, 0, prefix)
}

/// Whether `haystack` contains `needle` as a contiguous run of bytes.
pub fn find_bytes(haystack: &[u8], needle: &[u8]) -> (r: bool)
    ensures
        r == contains_bytes(haystack@, needle@),
{
    if needle.len() > haystack.len() {
        return false;
    }
    let last = haystack.len() - needle.len();
    let mut i: usize = 0;
    while i <= last
        invariant
            last + needle@.len() == haystack@.len(),
            i <= last + 1,
            forall|k: int|
                0 <= k < i ==> #[trigger] haystack@.subrange(k, k + needle@.len()) != needle@,
        decreases last + 1 - i,
    {
        if matches_at(haystack, i, needle) {
            return true;
        }
        if i == last {
            return false;
        }
        i = i + 1;
    }
    false
}

/// Whether two byte strings are equal.
pub fn bytes_eq(a: &[u8], b: &[u8]) -> (r: bool)
    ensures
        r == (a@ == b@),
{
    if a.len() != b.len() {
        return false;
    }
    let r = matches_at(a, 0, b);
    assert(a@.subrange(0, b@.len() as int) =~= a@);
    r
}

} // verus!
