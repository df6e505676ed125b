//! The sizes up to which a text is handed to the `url` crate.
//!
//! The crate counts the bytes of a URL in 32 bits and nests one call for each
//! `blob:` that a URL begins with. A text within the limits kept here stays
//! far enough below both ends; past them a value counts as rejected.
use crate::pairs::{view_pairs, Pair};
use vstd::prelude::*;
use vstd::string::StringSliceAdditionalSpecFns;
use vstd::utf8::encode_utf8;

verus! {

/// The most bytes of a URL, of a value for one of its fields, or of a
/// parameter list that are handed to a setter: 16 MiB. A setter writes three
/// bytes at most for a byte that it percent-encodes, and some tens where it
/// maps and encodes a host name, so that what it writes stays well below the
/// 4 GiB that the crate can count.
pub const TEXT_LIMIT: usize = 0x0100_0000;

/// The most places at which `blob:` may stand in a URL whose origin is
/// asked for.
pub const BLOB_LIMIT: usize = 64;

/// The number of bytes of the UTF-8 encoding of `text`.
pub open spec fn byte_len(text: Seq<char>) -> nat {
    encode_utf8(text).len()
}

/// Whether a URL and a value for one of its fields are within the limit.
pub open spec fn fits(href: Seq<char>, value: Seq<char>) -> bool {
    byte_len(href) <= TEXT_LIMIT && byte_len(value) <= TEXT_LIMIT
}

/// The weight of a parameter list: the bytes of its names and values, and
/// two more for each pair.
pub open spec fn pairs_weight(pairs: Seq<Pair>) -> nat
    decreases pairs.len(),
{
    if pairs.len() == 0 {
        0
    } else {
        pairs_weight(pairs.drop_last()) + byte_len(pairs.last().0) + byte_len(pairs.last().1) + 2
    }
}

/// Whether the byte `b` is the letter `lower`, in either case.
pub open spec fn is_letter(b: u8, lower: u8) -> bool {
    b == lower || b + 0x20 == lower
}

/// Whether `blob:` stands at `i` in `bytes`, in whatever case.
pub open spec fn is_blob_mark(bytes: Seq<u8>, i: int) -> bool {
    &&& 0 <= i
    &&& i + 5 <= bytes.len()
    &&& is_letter(bytes[i], 0x62)
    &&& is_letter(bytes[i + 1], 0x6c)
    &&& is_letter(bytes[i + 2], 0x6f)
    &&& is_letter(bytes[i + 3], 0x62)
    &&& bytes[i + 4] == 0x3a
}

/// The number of places below `upto` at which `blob:` stands in `bytes`.
pub open spec fn blob_marks_upto(bytes: Seq<u8>, upto: int) -> nat
    decreases upto,
{
    if upto <= 0 {
        0
    } else if is_blob_mark(bytes, upto - 1) {
        blob_marks_upto(bytes, upto - 1) + 1
    } else {
        blob_marks_upto(bytes, upto - 1)
    }
}

/// The number of places at which `blob:` stands in `text`.
pub open spec fn blob_marks(text: Seq<char>) -> nat {
    blob_marks_upto(encode_utf8(text), encode_utf8(text).len() as int)
}

/// More places, no fewer marks.
pub proof fn lemma_blob_marks_grow(bytes: Seq<u8>, a: int, b: int)
    requires
        a <= b,
    ensures
        blob_marks_upto(bytes, a) <= blob_marks_upto(bytes, b),
    decreases b - a,
{
    if a < b {
        lemma_blob_marks_grow(bytes, a, b - 1);
    }
}

/// A longer list weighs no less.
pub proof fn lemma_weight_grows(pairs: Seq<Pair>, i: int)
    requires
        0 <= i <= pairs.len(),
    ensures
        pairs_weight(pairs.take(i)) <= pairs_weight(pairs),
    decreases pairs.len() - i,
{
    if i < pairs.len() {
        lemma_weight_grows(pairs, i + 1);
        assert(pairs.take(i + 1).drop_last() == pairs.take(i));
    } else {
        assert(pairs.take(i) == pairs);
    }
}

/// Whether `text` has at most `TEXT_LIMIT` bytes.
pub fn text_fits(text: &str) -> (r: bool)
    ensures
        r == (byte_len(text@) <= TEXT_LIMIT),
{
    text.as_bytes().len() <= TEXT_LIMIT
}

/// Whether `list` weighs at most `TEXT_LIMIT`.
pub fn pairs_fit(list: &Vec<(String, String)>) -> (r: bool)
    ensures
        r == (pairs_weight(view_pairs(list@)) <= TEXT_LIMIT),
{
    let ghost s = view_pairs(list@);
    let mut total: usize = 0;
    let mut i: usize = 0;
    assert(s.take(0) == Seq::<Pair>::empty());
    while i < list.len()
        invariant
            i <= list.len(),
            s == view_pairs(list@),
            total == pairs_weight(s.take(i as int)),
            total <= TEXT_LIMIT,
        decreases list.len() - i,
    {
        let n = list[i].0.as_str().as_bytes().len();
        let v = list[i].1.as_str().as_bytes().len();
        proof {
            assert(s.take(i + 1).drop_last() == s.take(i as int));
            assert(s.take(i + 1).last() == s[i as int]);
            lemma_weight_grows(s, i + 1);
        }
        if n > TEXT_LIMIT || v > TEXT_LIMIT || n + v + 2 > TEXT_LIMIT - total {
            return false;
        }
        total = total + n + v + 2;
        i += 1;
    }
    assert(s.take(i as int) == s);
    true
}

/// Whether `blob:` stands at no more than `BLOB_LIMIT` places in `text`.
pub fn blob_marks_fit(text: &str) -> (r: bool)
    ensures
        r == (blob_marks(text@) <= BLOB_LIMIT),
{
    let bytes = text.as_bytes();
    let mut count: usize = 0;
    let mut i: usize = 0;
    while i < bytes.len()
        invariant
            i <= bytes.len(),
            bytes@ == encode_utf8(text@),
            count == blob_marks_upto(bytes@, i as int),
            count <= BLOB_LIMIT,
        decreases bytes.len() - i,
    {
        let here = bytes.len() - i >= 5 && (bytes[i] == 0x62 || bytes[i] == 0x42) && (bytes[i + 1]
            == 0x6c || bytes[i + 1] == 0x4c) && (bytes[i + 2] == 0x6f || bytes[i + 2] == 0x4f) && (
        bytes[i + 3] == 0x62 || bytes[i + 3] == 0x42) && bytes[i + 4] == 0x3a;
        assert(here == is_blob_mark(bytes@, i as int));
        if here {
            if count == BLOB_LIMIT {
                proof {
                    lemma_blob_marks_grow(bytes@, i + 1, bytes@.len() as int);
                }
                return false;
            }
            count += 1;
        }
        i += 1;
    }
    true
}

} // verus!
