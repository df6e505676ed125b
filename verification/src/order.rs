//! The order in which `sort` puts names: that of their UTF-16 code units.
use vstd::prelude::*;

verus! {

/// The UTF-16 code units of one character: itself below U+10000, a high and a
/// low surrogate above.
pub open spec fn utf16_units(c: char) -> Seq<u16> {
    let v = c as u32;
    if v < 0x10000 {
        seq![v as u16]
    } else {
        seq![(0xD800 + (v - 0x10000) / 0x400) as u16, (0xDC00 + (v - 0x10000) % 0x400) as u16]
    }
}

/// The UTF-16 encoding of a text.
pub open spec fn utf16(s: Seq<char>) -> Seq<u16>
    decreases s.len(),
{
    if s.len() == 0 {
        Seq::empty()
    } else {
        utf16(s.drop_last()) + utf16_units(s.last())
    }
}

/// The code units of `s`, in a vector.
pub fn encode_utf16(s: &str) -> (r: Vec<u16>)
    ensures
        r@ == utf16(s@),
{
    let mut out: Vec<u16> = Vec::new();
    for c in it: s.chars()
        invariant
            it.seq() == s@,
            out@ == utf16(s@.take(it.index() as int)),
    {
        let v: u32 = c as u32;
        proof {
            let i = it.index() as int;
            assert(s@.take(i + 1).drop_last() == s@.take(i));
            assert(s@.take(i + 1).last() == c);
        }
        if v < 0x10000 {
            out.push(v as u16);
        } else {
            let w: u32 = v - 0x10000;
            out.push((0xD800 + w / 0x400) as u16);
            out.push((0xDC00 + w % 0x400) as u16);
        }
    }
    proof {
        assert(s@.take(s@.len() as int) == s@);
    }
    out
}

/// Whether `a` comes before `b`, or equals it, in lexicographic order.
pub open spec fn units_le(a: Seq<u16>, b: Seq<u16>) -> bool
    decreases a.len(),
{
    if a.len() == 0 {
        true
    } else if b.len() == 0 {
        false
    } else if a[0] != b[0] {
        a[0] < b[0]
    } else {
        units_le(a.drop_first(), b.drop_first())
    }
}

/// Whether the name `a` sorts before the name `b`, or with it.
pub open spec fn name_le(a: Seq<char>, b: Seq<char>) -> bool {
    units_le(utf16(a), utf16(b))
}

/// Every sequence comes with itself.
pub proof fn lemma_units_le_refl(a: Seq<u16>)
    ensures
        units_le(a, a),
    decreases a.len(),
{
    if a.len() > 0 {
        lemma_units_le_refl(a.drop_first());
    }
}

/// Of two sequences one comes before the other, or with it.
pub proof fn lemma_units_le_total(a: Seq<u16>, b: Seq<u16>)
    ensures
        units_le(a, b) || units_le(b, a),
    decreases a.len(),
{
    if a.len() > 0 && b.len() > 0 && a[0] == b[0] {
        lemma_units_le_total(a.drop_first(), b.drop_first());
    }
}

/// The order passes on: from `a` to `b` and from `b` to `c` is from `a` to `c`.
pub proof fn lemma_units_le_trans(a: Seq<u16>, b: Seq<u16>, c: Seq<u16>)
    requires
        units_le(a, b),
        units_le(b, c),
    ensures
        units_le(a, c),
    decreases a.len(),
{
    if a.len() > 0 && b.len() > 0 && c.len() > 0 && a[0] == b[0] && b[0] == c[0] {
        lemma_units_le_trans(a.drop_first(), b.drop_first(), c.drop_first());
    }
}

/// Two sequences that each come before the other, or with it, are one.
pub proof fn lemma_units_le_antisym(a: Seq<u16>, b: Seq<u16>)
    requires
        units_le(a, b),
        units_le(b, a),
    ensures
        a == b,
    decreases a.len(),
{
    if a.len() > 0 && b.len() > 0 {
        lemma_units_le_antisym(a.drop_first(), b.drop_first());
        assert(a =~= seq![a[0]] + a.drop_first());
        assert(b =~= seq![b[0]] + b.drop_first());
    } else {
        assert(a =~= b);
    }
}

/// Whether `a` comes before `b`, or equals it, code unit by code unit.
pub fn units_le_exec(a: &Vec<u16>, b: &Vec<u16>) -> (r: bool)
    ensures
        r == units_le(a@, b@),
{
    let mut i: usize = 0;
    assert(a@.skip(0) == a@ && b@.skip(0) == b@);
    while i < a.len() && i < b.len()
        invariant
            i <= a.len(),
            i <= b.len(),
            units_le(a@, b@) == units_le(a@.skip(i as int), b@.skip(i as int)),
        decreases a.len() - i,
    {
        let ghost x = a@.skip(i as int);
        let ghost y = b@.skip(i as int);
        assert(x[0] == a[i as int] && y[0] == b[i as int]);
        if a[i] != b[i] {
            return a[i] < b[i];
        }
        assert(x.drop_first() == a@.skip(i + 1));
        assert(y.drop_first() == b@.skip(i + 1));
        i += 1;
    }
    assert(a@.skip(i as int).len() == a.len() - i);
    assert(b@.skip(i as int).len() == b.len() - i);
    i == a.len()
}

/// Whether the name `a` sorts before the name `b`, or with it.
pub fn name_le_exec(a: &str, b: &str) -> (r: bool)
    ensures
        r == name_le(a@, b@),
{
    let ua = encode_utf16(a);
    let ub = encode_utf16(b);
    units_le_exec(&ua, &ub)
}

/// What the code units of one character look like, and that they give the
/// character back: a single unit is no low surrogate and is the character's
/// number; two units are a high and a low surrogate.
pub proof fn lemma_units_of_char(c: char)
    ensures
        utf16_units(c).len() == 1 || utf16_units(c).len() == 2,
        utf16_units(c).len() == 1 ==> !(0xDC00 <= utf16_units(c)[0] <= 0xDFFF) && utf16_units(
            c,
        )[0] == c as u32,
        utf16_units(c).len() == 2 ==> 0xDC00 <= utf16_units(c)[1] <= 0xDFFF && c as u32 == 0x10000
            + (utf16_units(c)[0] - 0xD800) * 0x400 + (utf16_units(c)[1] - 0xDC00),
{
    vstd::utf8::char_is_scalar(c);
    let v = c as u32;
    assert(v <= 0x10ffff && !(0xD800 <= v <= 0xDFFF));
    if v >= 0x10000 {
        let w = (v - 0x10000) as int;
        assert(0 <= w / 0x400 <= 0x3ff);
        assert(0 <= w % 0x400 <= 0x3ff);
        assert(w == (w / 0x400) * 0x400 + w % 0x400);
    }
}

/// Two characters with the same code units are one.
pub proof fn lemma_units_injective(c: char, d: char)
    requires
        utf16_units(c) == utf16_units(d),
    ensures
        c == d,
{
    lemma_units_of_char(c);
    lemma_units_of_char(d);
    assert(c as u32 == d as u32);
    vstd::utf8::char_u32_cast(c, c as u32);
    vstd::utf8::char_u32_cast(d, d as u32);
}

/// Two texts with the same UTF-16 encoding are one.
pub proof fn lemma_utf16_injective(a: Seq<char>, b: Seq<char>)
    requires
        utf16(a) == utf16(b),
    ensures
        a == b,
    decreases a.len(),
{
    if a.len() == 0 {
        if b.len() > 0 {
            lemma_units_of_char(b.last());
            assert(utf16(b).len() > 0);
        }
        assert(a =~= b);
    } else {
        lemma_units_of_char(a.last());
        if b.len() == 0 {
            assert(utf16(a).len() > 0);
        } else {
            lemma_units_of_char(b.last());
            let ua = utf16(a.drop_last());
            let ub = utf16(b.drop_last());
            let xa = utf16_units(a.last());
            let xb = utf16_units(b.last());
            let all = utf16(a);
            assert(all == ua + xa && all == ub + xb);
            assert(all[all.len() - 1] == xa[xa.len() - 1]);
            assert(all[all.len() - 1] == xb[xb.len() - 1]);
            assert(xa.len() == xb.len());
            assert(ua.len() == ub.len());
            assert(xa =~= all.skip(ua.len() as int));
            assert(xb =~= all.skip(ub.len() as int));
            assert(ua =~= all.take(ua.len() as int));
            assert(ub =~= all.take(ub.len() as int));
            lemma_units_injective(a.last(), b.last());
            lemma_utf16_injective(a.drop_last(), b.drop_last());
            assert(a =~= a.drop_last().push(a.last()));
            assert(b =~= b.drop_last().push(b.last()));
        }
    }
}

/// Two names that each sort before the other, or with it, are one name.
pub proof fn lemma_name_le_antisym(a: Seq<char>, b: Seq<char>)
    requires
        name_le(a, b),
        name_le(b, a),
    ensures
        a == b,
{
    lemma_units_le_antisym(utf16(a), utf16(b));
    lemma_utf16_injective(a, b);
}

} // verus!
