//! A stable sort of a pair list by name.
use crate::order::{
    lemma_name_le_antisym, lemma_units_le_refl, lemma_units_le_total, lemma_units_le_trans,
    name_le, name_le_exec, utf16,
};
use crate::pairs::{
    has_name, lemma_values_named_add, lemma_values_named_none, lemma_values_named_some,
    values_named, view_pairs, Pair,
};
use vstd::prelude::*;

verus! {

/// Whether the first `upto` pairs of `s` stand in the order of their names.
pub open spec fn sorted_prefix(s: Seq<Pair>, upto: int) -> bool {
    forall|i: int, j: int| 0 <= i < j < upto ==> name_le(#[trigger] s[i].0, #[trigger] s[j].0)
}

/// Whether the pairs of `s` stand in the order of their names.
pub open spec fn sorted_by_name(s: Seq<Pair>) -> bool {
    sorted_prefix(s, s.len() as int)
}

/// Moving the pair at `i` forward to `k`, past pairs that all sort after it,
/// keeps a sorted prefix sorted, one pair longer, and keeps the values under
/// every name in their order.
proof fn lemma_move_forward(cur: Seq<Pair>, k: int, i: int, moved: Seq<Pair>)
    requires
        0 <= k <= i < cur.len(),
        sorted_prefix(cur, i),
        forall|j: int| 0 <= j < k ==> name_le(#[trigger] cur[j].0, cur[i].0),
        k < i ==> !name_le(cur[k].0, cur[i].0),
        moved == cur.remove(i).insert(k, cur[i]),
    ensures
        sorted_prefix(moved, i + 1),
        moved.len() == cur.len(),
        forall|n: Seq<char>| #[trigger] values_named(moved, n) == values_named(cur, n),
{
    let ev = cur[i];
    assert forall|a: int, b: int| 0 <= a < b < i + 1 implies name_le(
        #[trigger] moved[a].0,
        #[trigger] moved[b].0,
    ) by {
        if a < k {
            assert(moved[a] == cur[a]);
            if b == k {
                assert(moved[b] == ev);
            } else if b < k {
                assert(moved[b] == cur[b]);
            } else {
                assert(moved[b] == cur[b - 1]);
            }
        } else if a == k {
            assert(moved[a] == ev);
            assert(moved[b] == cur[b - 1]);
            lemma_units_le_total(utf16(cur[k].0), utf16(ev.0));
            if b - 1 == k {
            } else {
                assert(name_le(cur[k].0, cur[b - 1].0));
                lemma_units_le_trans(utf16(ev.0), utf16(cur[k].0), utf16(cur[b - 1].0));
            }
        } else {
            assert(moved[a] == cur[a - 1]);
            assert(moved[b] == cur[b - 1]);
        }
    }
    let head = cur.take(k);
    let mid = cur.subrange(k, i);
    let one = seq![ev];
    let rest = cur.skip(i + 1);
    assert(cur =~= head + mid + one + rest);
    assert(moved =~= head + one + mid + rest);
    assert forall|n: Seq<char>| #[trigger] values_named(moved, n) == values_named(cur, n) by {
        lemma_values_named_add(head + mid + one, rest, n);
        lemma_values_named_add(head + mid, one, n);
        lemma_values_named_add(head, mid, n);
        lemma_values_named_add(head + one + mid, rest, n);
        lemma_values_named_add(head + one, mid, n);
        lemma_values_named_add(head, one, n);
        if ev.0 == n {
            if has_name(mid, n) {
                let j = choose|j: int| 0 <= j < mid.len() && (#[trigger] mid[j]).0 == n;
                assert(mid[j] == cur[k + j]);
                lemma_units_le_refl(utf16(n));
                if j > 0 {
                    assert(name_le(cur[k].0, cur[k + j].0));
                }
            }
            lemma_values_named_none(mid, n);
            assert(values_named(head, n) + values_named(mid, n) + values_named(one, n)
                =~= values_named(head, n) + values_named(one, n) + values_named(mid, n));
        } else {
            assert(one[0].0 != n);
            lemma_values_named_none(one, n);
            assert(values_named(head, n) + values_named(mid, n) + values_named(one, n)
                =~= values_named(head, n) + values_named(one, n) + values_named(mid, n));
        }
    }
}

/// Whether `t` is `s` sorted by name with the pairs of one name in their
/// order: `t` is sorted, as long as `s`, and gives under every name the
/// values that `s` gives.
pub open spec fn is_sorted_form(t: Seq<Pair>, s: Seq<Pair>) -> bool {
    &&& sorted_by_name(t)
    &&& t.len() == s.len()
    &&& forall|n: Seq<char>| #[trigger] values_named(t, n) == values_named(s, n)
}

/// The list `s` sorted by name with the pairs of one name in their order.
/// `lemma_sorted_unique` shows that there is no second such list, and
/// `sort_by_name` makes the one.
pub open spec fn sorted_form(s: Seq<Pair>) -> Seq<Pair> {
    choose|t: Seq<Pair>| is_sorted_form(t, s)
}

/// Sorts `list` by name, in the order of the names' UTF-16 code units. The
/// sort is stable: pairs of one name keep their order, so the result is the
/// one list that is sorted and gives, under every name, the values that the
/// list gave before.
pub fn sort_by_name(list: &mut Vec<(String, String)>)
    ensures
        is_sorted_form(view_pairs(final(list)@), view_pairs(old(list)@)),
        view_pairs(final(list)@) == sorted_form(view_pairs(old(list)@)),
{
    let ghost start = view_pairs(list@);
    let mut i: usize = 0;
    while i < list.len()
        invariant
            i <= list.len(),
            list.len() == start.len(),
            sorted_prefix(view_pairs(list@), i as int),
            forall|n: Seq<char>| #[trigger]
                values_named(view_pairs(list@), n) == values_named(start, n),
        decreases list.len() - i,
    {
        let ghost cur = view_pairs(list@);
        let moving = list.remove(i);
        assert(view_pairs(list@) =~= cur.remove(i as int));
        assert((moving.0@, moving.1@) == cur[i as int]);
        let mut k: usize = 0;
        while k < i && name_le_exec(list[k].0.as_str(), moving.0.as_str())
            invariant
                k <= i,
                i <= list.len(),
                view_pairs(list@) == cur.remove(i as int),
                i < cur.len(),
                moving.0@ == cur[i as int].0,
                forall|j: int| 0 <= j < k ==> name_le(#[trigger] cur[j].0, cur[i as int].0),
            decreases i - k,
        {
            assert(view_pairs(list@)[k as int] == cur[k as int]);
            k += 1;
        }
        if k < i {
            assert(view_pairs(list@)[k as int] == cur[k as int]);
        }
        list.insert(k, moving);
        proof {
            let moved = view_pairs(list@);
            assert(moved =~= cur.remove(i as int).insert(k as int, cur[i as int]));
            lemma_move_forward(cur, k as int, i as int, moved);
            assert forall|n: Seq<char>| #[trigger]
                values_named(view_pairs(list@), n) == values_named(start, n) by {
                assert(values_named(moved, n) == values_named(cur, n));
            }
        }
        i += 1;
    }
    proof {
        let done = view_pairs(list@);
        let other = sorted_form(start);
        assert(is_sorted_form(done, start));
        assert(is_sorted_form(other, start));
        assert forall|n: Seq<char>| #[trigger]
            values_named(done, n) == values_named(other, n) by {
            assert(values_named(done, n) == values_named(start, n));
            assert(values_named(other, n) == values_named(start, n));
        }
        lemma_sorted_unique(done, other);
    }
}

/// The names of a list without its last pair give what they gave, but that
/// the name of the last pair has lost its last value.
proof fn lemma_values_drop_last(s: Seq<Pair>, name: Seq<char>)
    requires
        s.len() > 0,
    ensures
        s.last().0 == name ==> values_named(s, name).len() > 0 && values_named(
            s.drop_last(),
            name,
        ) == values_named(s, name).drop_last() && values_named(s, name).last() == s.last().1,
        s.last().0 != name ==> values_named(s.drop_last(), name) == values_named(s, name),
{
    let rest = values_named(s.drop_last(), name);
    assert(rest.push(s.last().1).drop_last() == rest);
}

/// There is one sorted list for the values under every name: two lists that
/// are both sorted by name and give the same values under every name are
/// the same list. So what `sort_by_name` ensures leaves no choice.
pub proof fn lemma_sorted_unique(a: Seq<Pair>, b: Seq<Pair>)
    requires
        sorted_by_name(a),
        sorted_by_name(b),
        forall|n: Seq<char>| #[trigger] values_named(a, n) == values_named(b, n),
    ensures
        a == b,
    decreases a.len(),
{
    if a.len() == 0 {
        if b.len() > 0 {
            let m = b.last().0;
            lemma_values_drop_last(b, m);
            assert(values_named(a, m) == values_named(b, m));
        }
        assert(a =~= b);
    } else {
        let x = a.last();
        let n = x.0;
        lemma_values_drop_last(a, n);
        assert(values_named(a, n) == values_named(b, n));
        if b.len() == 0 {
            assert(values_named(b, n).len() == 0);
        } else {
            let y = b.last();
            let m = y.0;
            lemma_values_drop_last(b, m);
            if m != n {
                assert(values_named(a, m) == values_named(b, m));
                if !has_name(a, m) {
                    lemma_values_named_none(a, m);
                }
                if !has_name(b, n) {
                    lemma_values_named_none(b, n);
                }
                let i = choose|i: int| 0 <= i < a.len() && (#[trigger] a[i]).0 == m;
                let j = choose|j: int| 0 <= j < b.len() && (#[trigger] b[j]).0 == n;
                assert(i < a.len() - 1);
                assert(j < b.len() - 1);
                assert(name_le(a[i].0, a[a.len() - 1].0));
                assert(name_le(b[j].0, b[b.len() - 1].0));
                lemma_name_le_antisym(m, n);
            }
            assert(x == y);
            let a0 = a.drop_last();
            let b0 = b.drop_last();
            assert forall|i: int, j: int| 0 <= i < j < a0.len() implies name_le(
                #[trigger] a0[i].0,
                #[trigger] a0[j].0,
            ) by {
                assert(a0[i] == a[i] && a0[j] == a[j]);
            }
            assert forall|i: int, j: int| 0 <= i < j < b0.len() implies name_le(
                #[trigger] b0[i].0,
                #[trigger] b0[j].0,
            ) by {
                assert(b0[i] == b[i] && b0[j] == b[j]);
            }
            assert forall|k: Seq<char>| #[trigger]
                values_named(a0, k) == values_named(b0, k) by {
                lemma_values_drop_last(a, k);
                lemma_values_drop_last(b, k);
                assert(values_named(a, k) == values_named(b, k));
            }
            lemma_sorted_unique(a0, b0);
            assert(a =~= a0.push(x));
            assert(b =~= b0.push(y));
        }
    }
}

} // verus!
