//! The order of session names (byte-wise, as `str` orders them) and of
//! window slots (by session name, then window index).

use vstd::prelude::*;

verus! {

/// Whether `a` comes before `b` byte by byte, a proper prefix first.
pub open spec fn bytes_lt(a: Seq<u8>, b: Seq<u8>) -> bool
    decreases a.len(),
{
    if a.len() == 0 {
        b.len() > 0
    } else if b.len() == 0 {
        false
    } else if a[0] != b[0] {
        a[0] < b[0]
    } else {
        bytes_lt(a.drop_first(), b.drop_first())
    }
}

/// Whether session name `a` comes before `b`: their UTF-8 bytes in order.
pub open spec fn name_lt(a: Seq<char>, b: Seq<char>) -> bool {
    bytes_lt(vstd::utf8::encode_utf8(a), vstd::utf8::encode_utf8(b))
}

/// Whether slot `a` comes before `b`: by session name, then by index.
pub open spec fn key_lt(a: (Seq<char>, u32), b: (Seq<char>, u32)) -> bool {
    name_lt(a.0, b.0) || (a.0 == b.0 && a.1 < b.1)
}

/// No sequence comes before itself, and of two sequences that differ one
/// comes first, never both.
pub proof fn lemma_bytes_lt_strict(a: Seq<u8>, b: Seq<u8>)
    ensures
        !bytes_lt(a, a),
        !(bytes_lt(a, b) && bytes_lt(b, a)),
        a != b ==> bytes_lt(a, b) || bytes_lt(b, a),
    decreases a.len(),
{
    if a.len() > 0 && b.len() > 0 {
        lemma_bytes_lt_strict(a.drop_first(), b.drop_first());
        if a != b && a[0] == b[0] {
            assert(a.drop_first() != b.drop_first()) by {
                if a.drop_first() == b.drop_first() {
                    assert(a =~= seq![a[0]] + a.drop_first());
                    assert(b =~= seq![b[0]] + b.drop_first());
                }
            }
        }
    } else if a.len() > 0 {
        lemma_bytes_lt_strict(a.drop_first(), a.drop_first());
    } else if b.len() == 0 {
        assert(a =~= b);
    }
}

/// The byte order is transitive.
pub proof fn lemma_bytes_lt_transitive(a: Seq<u8>, b: Seq<u8>, c: Seq<u8>)
    requires
        bytes_lt(a, b),
        bytes_lt(b, c),
    ensures
        bytes_lt(a, c),
    decreases a.len(),
{
    if a.len() > 0 && b.len() > 0 && c.len() > 0 && a[0] == b[0] && b[0] == c[0] {
        lemma_bytes_lt_transitive(a.drop_first(), b.drop_first(), c.drop_first());
    }
}

/// Two names whose UTF-8 bytes agree are the same name.
pub proof fn lemma_encode_injective(a: Seq<char>, b: Seq<char>)
    requires
        vstd::utf8::encode_utf8(a) == vstd::utf8::encode_utf8(b),
    ensures
        a == b,
{
    vstd::utf8::encode_utf8_decode_utf8(a);
    vstd::utf8::encode_utf8_decode_utf8(b);
}

/// The slot order is a strict total order.
pub proof fn lemma_key_lt_order(a: (Seq<char>, u32), b: (Seq<char>, u32), c: (Seq<char>, u32))
    ensures
        !key_lt(a, a),
        !(key_lt(a, b) && key_lt(b, a)),
        a != b ==> key_lt(a, b) || key_lt(b, a),
        key_lt(a, b) && key_lt(b, c) ==> key_lt(a, c),
{
    let ea = vstd::utf8::encode_utf8(a.0);
    let eb = vstd::utf8::encode_utf8(b.0);
    let ec = vstd::utf8::encode_utf8(c.0);
    lemma_bytes_lt_strict(ea, eb);
    lemma_bytes_lt_strict(eb, ec);
    lemma_bytes_lt_strict(ea, ec);
    if ea == eb {
        lemma_encode_injective(a.0, b.0);
    }
    if bytes_lt(ea, eb) && bytes_lt(eb, ec) {
        lemma_bytes_lt_transitive(ea, eb, ec);
    }
}

/// Whether `a` comes before `b` byte by byte.
pub fn bytes_less(a: &[u8], b: &[u8]) -> (r: bool)
    ensures
        r == bytes_lt(a@, b@),
{
    assert(a@.skip(0) =~= a@);
    assert(b@.skip(0) =~= b@);
    let mut i: usize = 0;
    while i < a.len() && i < b.len()
        invariant
            i <= a@.len(),
            i <= b@.len(),
            bytes_lt(a@, b@) == bytes_lt(a@.skip(i as int), b@.skip(i as int)),
        decreases a@.len() - i,
    {
        let ghost sa = a@.skip(i as int);
        let ghost sb = b@.skip(i as int);
        if a[i] != b[i] {
            return a[i] < b[i];
        }
        assert(sa.drop_first() =~= a@.skip(i + 1));
        assert(sb.drop_first() =~= b@.skip(i + 1));
        i = i + 1;
    }
    i < b.len()
}

/// Whether slot (`a_name`, `a_index`) comes before (`b_name`, `b_index`).
pub fn slot_less(a_name: &str, a_index: u32, b_name: &str, b_index: u32) -> (r: bool)
    ensures
        r == key_lt((a_name@, a_index), (b_name@, b_index)),
{
    proof {
        vstd::utf8::encode_utf8_decode_utf8(a_name@);
        vstd::utf8::encode_utf8_decode_utf8(b_name@);
    }
    let a = a_name.as_bytes();
    let b = b_name.as_bytes();
    if bytes_less(a, b) {
        return true;
    }
    if bytes_less(b, a) {
        proof {
            lemma_bytes_lt_strict(a@, b@);
        }
        return false;
    }
    proof {
        lemma_bytes_lt_strict(a@, b@);
        if a@ == b@ {
            lemma_encode_injective(a_name@, b_name@);
        }
    }
    a_index < b_index
}

} // verus!
