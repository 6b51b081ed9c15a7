//! Texts are ordered alike by their code points and by the bytes of their UTF-8 encoding.

use vstd::prelude::*;
use vstd::utf8::{
    char_is_scalar, encode_scalar, encode_utf8, has_width_1_encoding, has_width_2_encoding,
    has_width_3_encoding, is_scalar,
};

use crate::patchset::text_less;

verus! {

/// Byte strings in lexicographic order.
pub open spec fn bytes_less(a: Seq<u8>, b: Seq<u8>) -> bool
    decreases a.len(),
{
    if b.len() == 0 {
        false
    } else if a.len() == 0 {
        true
    } else if a[0] != b[0] {
        a[0] < b[0]
    } else {
        bytes_less(a.drop_first(), b.drop_first())
    }
}

proof fn lemma_bytes_asymmetric(a: Seq<u8>, b: Seq<u8>)
    requires
        bytes_less(a, b),
    ensures
        !bytes_less(b, a),
    decreases a.len(),
{
    if a.len() > 0 && b.len() > 0 && a[0] == b[0] {
        lemma_bytes_asymmetric(a.drop_first(), b.drop_first());
    }
}

proof fn lemma_bytes_irreflexive(a: Seq<u8>)
    ensures
        !bytes_less(a, a),
    decreases a.len(),
{
    if a.len() > 0 {
        lemma_bytes_irreflexive(a.drop_first());
    }
}

/// The first byte in which two byte strings differ decides.
proof fn lemma_first_difference(a: Seq<u8>, b: Seq<u8>, k: int)
    requires
        0 <= k < a.len(),
        k < b.len(),
        a.take(k) == b.take(k),
        a[k] < b[k],
    ensures
        bytes_less(a, b),
    decreases k,
{
    if k > 0 {
        assert(a[0] == a.take(k)[0] && b[0] == b.take(k)[0]);
        let x = a.drop_first();
        let y = b.drop_first();
        assert(x.take(k - 1) =~= a.take(k).drop_first());
        assert(y.take(k - 1) =~= b.take(k).drop_first());
        lemma_first_difference(x, y, k - 1);
    }
}

proof fn lemma_common_prefix(p: Seq<u8>, a: Seq<u8>, b: Seq<u8>)
    ensures
        bytes_less(p + a, p + b) == bytes_less(a, b),
    decreases p.len(),
{
    if p.len() == 0 {
        assert(p + a =~= a && p + b =~= b);
    } else {
        assert((p + a).drop_first() =~= p.drop_first() + a);
        assert((p + b).drop_first() =~= p.drop_first() + b);
        lemma_common_prefix(p.drop_first(), a, b);
    }
}

/// The first bytes of longer encodings are greater.
proof fn lemma_leading_bytes(x: u32)
    by (bit_vector)
    ensures
        (x <= 0x7F ==> (x & 0x7F) as u8 <= 0x7F),
        0xC0 <= (0xC0u8 | (((x >> 6) & 0x1F) as u8)) <= 0xDF,
        0xE0 <= (0xE0u8 | (((x >> 12) & 0x0F) as u8)) <= 0xEF,
        0xF0 <= (0xF0u8 | (((x >> 18) & 0x7) as u8)),
{
}

proof fn lemma_width_1(x: u32, y: u32)
    by (bit_vector)
    requires
        x < y,
        y <= 0x7F,
    ensures
        ((x & 0x7F) as u8) < ((y & 0x7F) as u8),
{
}

proof fn lemma_width_2(x: u32, y: u32)
    by (bit_vector)
    requires
        x < y,
        y <= 0x7FF,
    ensures
        (0xC0u8 | (((x >> 6) & 0x1F) as u8)) < (0xC0u8 | (((y >> 6) & 0x1F) as u8)) || ((0xC0u8
            | (((x >> 6) & 0x1F) as u8)) == (0xC0u8 | (((y >> 6) & 0x1F) as u8)) && (0x80u8 | ((x
            & 0x3F) as u8)) < (0x80u8 | ((y & 0x3F) as u8))),
{
}

proof fn lemma_width_3(x: u32, y: u32)
    by (bit_vector)
    requires
        x < y,
        y <= 0xFFFF,
    ensures
        (0xE0u8 | (((x >> 12) & 0x0F) as u8)) < (0xE0u8 | (((y >> 12) & 0x0F) as u8)) || ((0xE0u8
            | (((x >> 12) & 0x0F) as u8)) == (0xE0u8 | (((y >> 12) & 0x0F) as u8)) && ((0x80u8
            | (((x >> 6) & 0x3F) as u8)) < (0x80u8 | (((y >> 6) & 0x3F) as u8)) || ((0x80u8 | (((x
            >> 6) & 0x3F) as u8)) == (0x80u8 | (((y >> 6) & 0x3F) as u8)) && (0x80u8 | ((x & 0x3F)
            as u8)) < (0x80u8 | ((y & 0x3F) as u8))))),
{
}

proof fn lemma_width_4(x: u32, y: u32)
    by (bit_vector)
    requires
        x < y,
        y <= 0x10FFFF,
    ensures
        (0xF0u8 | (((x >> 18) & 0x7) as u8)) < (0xF0u8 | (((y >> 18) & 0x7) as u8)) || ((0xF0u8 | (((
        x >> 18) & 0x7) as u8)) == (0xF0u8 | (((y >> 18) & 0x7) as u8)) && ((0x80u8 | (((x >> 12)
            & 0x3F) as u8)) < (0x80u8 | (((y >> 12) & 0x3F) as u8)) || ((0x80u8 | (((x >> 12)
            & 0x3F) as u8)) == (0x80u8 | (((y >> 12) & 0x3F) as u8)) && ((0x80u8 | (((x >> 6)
            & 0x3F) as u8)) < (0x80u8 | (((y >> 6) & 0x3F) as u8)) || ((0x80u8 | (((x >> 6) & 0x3F)
            as u8)) == (0x80u8 | (((y >> 6) & 0x3F) as u8)) && (0x80u8 | ((x & 0x3F) as u8)) < (
        0x80u8 | ((y & 0x3F) as u8))))))),
{
}

/// Where the encodings of two scalars differ first, the greater one has the greater byte.
proof fn lemma_scalar_order(x: u32, y: u32) -> (k: int)
    requires
        is_scalar(x),
        is_scalar(y),
        x < y,
    ensures
        0 <= k < encode_scalar(x).len(),
        k < encode_scalar(y).len(),
        encode_scalar(x).take(k) == encode_scalar(y).take(k),
        encode_scalar(x)[k] < encode_scalar(y)[k],
{
    let a = encode_scalar(x);
    let b = encode_scalar(y);
    lemma_leading_bytes(x);
    lemma_leading_bytes(y);
    if a.len() != b.len() {
        assert(a.take(0) =~= b.take(0));
        0
    } else if has_width_1_encoding(x) {
        lemma_width_1(x, y);
        assert(a.take(0) =~= b.take(0));
        0
    } else if has_width_2_encoding(x) {
        lemma_width_2(x, y);
        let k: int = if a[0] != b[0] {
            0
        } else {
            1
        };
        assert(a.take(k) =~= b.take(k));
        k
    } else if has_width_3_encoding(x) {
        lemma_width_3(x, y);
        let k: int = if a[0] != b[0] {
            0
        } else if a[1] != b[1] {
            1
        } else {
            2
        };
        assert(a.take(k) =~= b.take(k));
        k
    } else {
        lemma_width_4(x, y);
        let k: int = if a[0] != b[0] {
            0
        } else if a[1] != b[1] {
            1
        } else if a[2] != b[2] {
            2
        } else {
            3
        };
        assert(a.take(k) =~= b.take(k));
        k
    }
}

proof fn lemma_char_order(c: char, d: char)
    requires
        c < d,
    ensures
        (c as u32) < (d as u32),
{
}

proof fn lemma_less_encoded(a: Seq<char>, b: Seq<char>)
    requires
        text_less(a, b),
    ensures
        bytes_less(encode_utf8(a), encode_utf8(b)),
    decreases a.len(),
{
    char_is_scalar(b[0]);
    let y = encode_scalar(b[0] as u32);
    let right = encode_utf8(b.drop_first());
    assert(encode_utf8(b) == y + right);
    if a.len() == 0 {
        assert(encode_utf8(a).len() == 0);
        assert(encode_utf8(b).len() > 0);
    } else {
        char_is_scalar(a[0]);
        let x = encode_scalar(a[0] as u32);
        let left = encode_utf8(a.drop_first());
        assert(encode_utf8(a) == x + left);
        if a[0] != b[0] {
            lemma_char_order(a[0], b[0]);
            let k = lemma_scalar_order(a[0] as u32, b[0] as u32);
            assert((x + left).take(k) =~= x.take(k));
            assert((y + right).take(k) =~= y.take(k));
            lemma_first_difference(x + left, y + right, k);
        } else {
            lemma_less_encoded(a.drop_first(), b.drop_first());
            lemma_common_prefix(x, left, right);
        }
    }
}

proof fn lemma_text_total(a: Seq<char>, b: Seq<char>)
    ensures
        text_less(a, b) || text_less(b, a) || a == b,
    decreases a.len(),
{
    if a.len() > 0 && b.len() > 0 {
        if a[0] == b[0] {
            lemma_text_total(a.drop_first(), b.drop_first());
            if a.drop_first() == b.drop_first() {
                assert(a =~= seq![a[0]] + a.drop_first());
                assert(b =~= seq![b[0]] + b.drop_first());
            }
        }
    } else if a.len() == 0 && b.len() == 0 {
        assert(a =~= b);
    }
}

/// The order of paths is bytewise: a path comes before another exactly when its UTF-8 bytes
/// do.
pub proof fn path_order_is_bytewise(a: Seq<char>, b: Seq<char>)
    ensures
        text_less(a, b) == bytes_less(encode_utf8(a), encode_utf8(b)),
{
    if text_less(a, b) {
        lemma_less_encoded(a, b);
    } else {
        lemma_text_total(a, b);
        if a == b {
            lemma_bytes_irreflexive(encode_utf8(a));
        } else {
            lemma_less_encoded(b, a);
            lemma_bytes_asymmetric(encode_utf8(b), encode_utf8(a));
        }
    }
}

} // verus!
