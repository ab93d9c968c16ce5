//! Strings built from, and read back as, UTF-8 bytes.

use vstd::prelude::*;
use vstd::utf8::{decode_utf8, encode_utf8, is_ascii_chars, is_char_boundary, valid_utf8};

verus! {

broadcast use vstd::utf8::group_utf8_lib;

/// The characters of a run of ASCII bytes.
pub open spec fn ascii_chars(b: Seq<u8>) -> Seq<char> {
    b.map_values(|x: u8| x as char)
}

/// Every byte is ASCII.
pub open spec fn all_ascii(b: Seq<u8>) -> bool {
    forall|i: int| 0 <= i < b.len() ==> #[trigger] b[i] < 0x80
}

/// Calls `core::str::from_utf8`. Trusted: as std documents, the bytes are
/// accepted exactly when they are valid UTF-8, and the string slice then
/// holds those bytes.
#[verifier::external_body]
pub(crate) fn str_from_utf8(bytes: &[u8]) -> (res: Option<&str>)
    ensures
        res is Some <==> valid_utf8(bytes@),
        res matches Some(s) ==> s@ == decode_utf8(bytes@),
{
    core::str::from_utf8(bytes).ok()
}

/// ASCII bytes are their own UTF-8 encoding.
pub proof fn lemma_ascii_encoding(b: Seq<u8>)
    requires
        all_ascii(b),
    ensures
        encode_utf8(ascii_chars(b)) == b,
        valid_utf8(b),
        decode_utf8(b) == ascii_chars(b),
{
    let chars = ascii_chars(b);
    assert forall|i| 0 <= i < chars.len() implies '\0' <= #[trigger] chars[i] <= '\u{7f}' by {
        assert(b[i] < 0x80);
    }
    assert(is_ascii_chars(chars));
    vstd::utf8::is_ascii_chars_encode_utf8(chars);
    assert forall|i| 0 <= i < chars.len() implies #[trigger] encode_utf8(chars)[i] == b[i] by {
        let x = b[i];
        assert(chars[i] == x as char);
        assert((x as char) as u8 == x) by {
            assert(x < 0x80);
        }
    }
    assert(encode_utf8(chars) =~= b);
    vstd::utf8::encode_utf8_valid_utf8(chars);
    vstd::utf8::encode_utf8_decode_utf8(chars);
}

/// The string of the given ASCII bytes.
pub fn ascii_string(bytes: &[u8]) -> (s: String)
    requires
        all_ascii(bytes@),
    ensures
        s@ == ascii_chars(bytes@),
{
    proof { lemma_ascii_encoding(bytes@); }
    match str_from_utf8(bytes) {
        Some(text) => text.to_owned(),
        None => String::new(),
    }
}

/// The decimal digits of `n`, most significant first, without leading
/// zeros.
pub open spec fn decimal(n: nat) -> Seq<u8>
    decreases n,
{
    if n < 10 {
        seq![(48 + n) as u8]
    } else {
        decimal(n / 10) + seq![(48 + n % 10) as u8]
    }
}

/// Decimal digits are ASCII.
pub proof fn lemma_decimal_ascii(n: nat)
    ensures
        all_ascii(decimal(n)),
        decimal(n).len() >= 1,
    decreases n,
{
    if n >= 10 {
        lemma_decimal_ascii(n / 10);
    }
}

/// Appends the decimal digits of `n`.
pub fn push_decimal(out: &mut Vec<u8>, n: u64)
    ensures
        final(out)@ == old(out)@ + decimal(n as nat),
    decreases n,
{
    if n >= 10 {
        push_decimal(out, n / 10);
    }
    out.push(48 + (n % 10) as u8);
    assert(final(out)@ =~= old(out)@ + decimal(n as nat));
}

/// The decimal string of `n`.
pub fn decimal_string(n: u64) -> (s: String)
    ensures
        s@ == ascii_chars(decimal(n as nat)),
{
    let mut digits: Vec<u8> = Vec::new();
    push_decimal(&mut digits, n);
    proof {
        lemma_decimal_ascii(n as nat);
        assert(digits@ =~= decimal(n as nat));
    }
    ascii_string(digits.as_slice())
}

/// An ASCII byte of valid UTF-8 starts a character, and so does the byte
/// after it.
pub proof fn lemma_ascii_boundaries(b: Seq<u8>, i: int)
    requires
        valid_utf8(b),
        0 <= i < b.len(),
        b[i] < 0x80,
    ensures
        is_char_boundary(b, i),
        is_char_boundary(b, i + 1),
{
    vstd::utf8::is_char_boundary_iff_not_is_continuation_byte(b, i);
    vstd::utf8::valid_utf8_split(b, i);
    let tail = b.subrange(i, b.len() as int);
    assert(tail[0] == b[i]);
    assert(vstd::utf8::pop_first_scalar(tail) =~= b.subrange(i + 1, b.len() as int));
    if i + 1 == b.len() {
        vstd::utf8::is_char_boundary_start_end_of_seq(b);
    } else {
        let rest = b.subrange(i + 1, b.len() as int);
        assert(valid_utf8(rest));
        vstd::utf8::is_char_boundary_iff_not_is_continuation_byte(rest, 0);
        assert(rest[0] == b[i + 1]);
        vstd::utf8::is_char_boundary_iff_not_is_continuation_byte(b, i + 1);
    }
}

/// The bytes between two character boundaries of valid UTF-8 are valid
/// UTF-8.
pub proof fn lemma_valid_between_boundaries(b: Seq<u8>, lo: int, hi: int)
    requires
        valid_utf8(b),
        0 <= lo <= hi <= b.len(),
        is_char_boundary(b, lo),
        is_char_boundary(b, hi),
    ensures
        valid_utf8(b.subrange(lo, hi)),
{
    vstd::utf8::valid_utf8_split(b, hi);
    let head = b.subrange(0, hi);
    vstd::utf8::is_char_boundary_start_end_of_seq(b);
    if lo < hi {
        vstd::utf8::is_char_boundary_iff_not_is_continuation_byte(b, lo);
        assert(head[lo] == b[lo]);
        vstd::utf8::is_char_boundary_iff_not_is_continuation_byte(head, lo);
    } else {
        vstd::utf8::is_char_boundary_start_end_of_seq(head);
    }
    vstd::utf8::valid_utf8_split(head, lo);
    assert(head.subrange(lo, head.len() as int) =~= b.subrange(lo, hi));
}

/// Encoding a concatenation concatenates the encodings.
pub proof fn lemma_encode_concat(a: Seq<char>, b: Seq<char>)
    ensures
        encode_utf8(a + b) == encode_utf8(a) + encode_utf8(b),
    decreases a.len(),
{
    if a.len() == 0 {
        assert(a + b =~= b);
    } else {
        assert((a + b).drop_first() =~= a.drop_first() + b);
        lemma_encode_concat(a.drop_first(), b);
        assert(encode_utf8(a + b) =~= encode_utf8(a) + encode_utf8(b));
    }
}

/// The string that valid UTF-8 bytes spell.
pub fn utf8_string(bytes: &[u8]) -> (s: String)
    requires
        valid_utf8(bytes@),
    ensures
        s@ == decode_utf8(bytes@),
{
    match str_from_utf8(bytes) {
        Some(text) => text.to_owned(),
        None => String::new(),
    }
}

} // verus!
