//! The mathematical model of a query-parameter list, and the list
//! operations of `URLSearchParams` on a vector of owned pairs.
use vstd::prelude::*;

verus! {

/// A name/value pair, as text.
pub type Pair = (Seq<char>, Seq<char>);

/// The pairs that a vector of owned pairs stands for.
pub open spec fn view_pairs(v: Seq<(String, String)>) -> Seq<Pair> {
    Seq::new(v.len(), |i: int| (v[i].0@, v[i].1@))
}

/// Whether some pair of `s` is called `name`.
pub open spec fn has_name(s: Seq<Pair>, name: Seq<char>) -> bool {
    exists|i: int| 0 <= i < s.len() && (#[trigger] s[i]).0 == name
}

/// The index of the first pair of `s` called `name`; the length of `s` where
/// there is none.
pub open spec fn first_named(s: Seq<Pair>, name: Seq<char>) -> int
    decreases s.len(),
{
    if s.len() == 0 {
        0
    } else if s[0].0 == name {
        0
    } else {
        1 + first_named(s.drop_first(), name)
    }
}

/// The values of the pairs called `name`, in list order.
pub open spec fn values_named(s: Seq<Pair>, name: Seq<char>) -> Seq<Seq<char>>
    decreases s.len(),
{
    if s.len() == 0 {
        Seq::empty()
    } else if s.last().0 == name {
        values_named(s.drop_last(), name).push(s.last().1)
    } else {
        values_named(s.drop_last(), name)
    }
}

/// The pairs of `s` that are not called `name`, in list order.
pub open spec fn without_name(s: Seq<Pair>, name: Seq<char>) -> Seq<Pair>
    decreases s.len(),
{
    if s.len() == 0 {
        Seq::empty()
    } else if s.last().0 == name {
        without_name(s.drop_last(), name)
    } else {
        without_name(s.drop_last(), name).push(s.last())
    }
}

/// The list after `set(name, value)`: the first pair called `name` takes the
/// new value and keeps its place, every later pair of that name leaves, and
/// the other pairs stay as they are. Where no pair has the name, the new pair
/// goes to the end.
pub open spec fn after_set(s: Seq<Pair>, name: Seq<char>, value: Seq<char>) -> Seq<Pair> {
    let i = first_named(s, name);
    if i < s.len() {
        s.take(i).push((name, value)) + without_name(s.skip(i + 1), name)
    } else {
        s.push((name, value))
    }
}

/// `first_named` is within bounds, names a pair called `name` when it is
/// below the length, and no earlier pair has that name.
pub proof fn lemma_first_named(s: Seq<Pair>, name: Seq<char>)
    ensures
        0 <= first_named(s, name) <= s.len(),
        first_named(s, name) < s.len() ==> s[first_named(s, name)].0 == name,
        forall|j: int| 0 <= j < first_named(s, name) ==> (#[trigger] s[j]).0 != name,
        first_named(s, name) < s.len() <==> has_name(s, name),
    decreases s.len(),
{
    if s.len() == 0 {
    } else if s[0].0 == name {
    } else {
        let t = s.drop_first();
        lemma_first_named(t, name);
        let k = first_named(t, name);
        assert forall|j: int| 0 <= j < 1 + k implies (#[trigger] s[j]).0 != name by {
            if j > 0 {
                assert(t[j - 1] == s[j]);
            }
        }
        if k < t.len() {
            assert(t[k] == s[k + 1]);
        }
        if has_name(s, name) {
            let i = choose|i: int| 0 <= i < s.len() && (#[trigger] s[i]).0 == name;
            assert(t[i - 1] == s[i]);
        }
    }
}

/// No name, no values.
pub proof fn lemma_values_named_none(s: Seq<Pair>, name: Seq<char>)
    requires
        !has_name(s, name),
    ensures
        values_named(s, name) == Seq::<Seq<char>>::empty(),
    decreases s.len(),
{
    if s.len() > 0 {
        assert(s[s.len() - 1].0 != name);
        let t = s.drop_last();
        assert forall|i: int| 0 <= i < t.len() implies (#[trigger] t[i]).0 != name by {
            assert(t[i] == s[i]);
        }
        lemma_values_named_none(t, name);
    }
}

/// A name that some pair has, has a value.
pub proof fn lemma_values_named_some(s: Seq<Pair>, name: Seq<char>)
    requires
        has_name(s, name),
    ensures
        values_named(s, name).len() > 0,
    decreases s.len(),
{
    let i = choose|i: int| 0 <= i < s.len() && (#[trigger] s[i]).0 == name;
    if s.last().0 != name {
        assert(s.drop_last()[i] == s[i]);
        lemma_values_named_some(s.drop_last(), name);
    }
}

/// The values under a name in `a + b` are those in `a`, then those in `b`.
pub proof fn lemma_values_named_add(a: Seq<Pair>, b: Seq<Pair>, name: Seq<char>)
    ensures
        values_named(a + b, name) == values_named(a, name) + values_named(b, name),
    decreases b.len(),
{
    if b.len() == 0 {
        assert(a + b == a);
        assert(values_named(a, name) + values_named(b, name) == values_named(a, name));
    } else {
        lemma_values_named_add(a, b.drop_last(), name);
        assert((a + b).drop_last() == a + b.drop_last());
        assert((a + b).last() == b.last());
        let va = values_named(a, name);
        let vb = values_named(b.drop_last(), name);
        assert((va + vb).push(b.last().1) == va + vb.push(b.last().1));
    }
}

/// What `append` does to the values under each name: the new value comes
/// last under its own name, and the other names keep theirs.
pub proof fn lemma_values_after_append(
    s: Seq<Pair>,
    name: Seq<char>,
    value: Seq<char>,
    other: Seq<char>,
)
    ensures
        values_named(s.push((name, value)), name) == values_named(s, name).push(value),
        other != name ==> values_named(s.push((name, value)), other) == values_named(s, other),
{
    assert(s.push((name, value)).drop_last() == s);
}

/// What `delete` does to the values under each name: none is left under the
/// deleted name, and the other names keep theirs.
pub proof fn lemma_values_after_delete(s: Seq<Pair>, name: Seq<char>, other: Seq<char>)
    ensures
        values_named(without_name(s, name), name) == Seq::<Seq<char>>::empty(),
        !has_name(without_name(s, name), name),
        other != name ==> values_named(without_name(s, name), other) == values_named(s, other),
    decreases s.len(),
{
    if s.len() > 0 {
        lemma_values_after_delete(s.drop_last(), name, other);
        let rest = without_name(s.drop_last(), name);
        if s.last().0 != name {
            assert(rest.push(s.last()).drop_last() == rest);
            assert forall|i: int| 0 <= i < rest.push(s.last()).len() implies (
            #[trigger] rest.push(s.last())[i]).0 != name by {
                if i < rest.len() {
                    assert(rest[i].0 != name);
                }
            }
        }
    }
}

/// What `set` does to the values under each name: the one new value stands
/// under its name, and the other names keep theirs.
pub proof fn lemma_values_after_set(
    s: Seq<Pair>,
    name: Seq<char>,
    value: Seq<char>,
    other: Seq<char>,
)
    ensures
        values_named(after_set(s, name, value), name) == seq![value],
        other != name ==> values_named(after_set(s, name, value), other) == values_named(
            s,
            other,
        ),
{
    lemma_first_named(s, name);
    let i = first_named(s, name);
    lemma_values_after_append(s, name, value, other);
    if i < s.len() {
        let head = s.take(i);
        let tail = s.skip(i + 1);
        let kept = without_name(tail, name);
        assert forall|j: int| 0 <= j < head.len() implies (#[trigger] head[j]).0 != name by {
            assert(head[j] == s[j]);
        }
        lemma_values_named_none(head, name);
        lemma_values_after_append(head, name, value, other);
        lemma_values_after_delete(tail, name, other);
        lemma_values_named_add(head.push((name, value)), kept, name);
        lemma_values_named_add(head.push((name, value)), kept, other);
        assert(values_named(head, name).push(value) =~= seq![value]);
        assert(seq![value] + Seq::<Seq<char>>::empty() =~= seq![value]);
        if other != name {
            assert(s =~= head.push(s[i]) + tail);
            lemma_values_named_add(head.push(s[i]), tail, other);
            assert(head.push(s[i]).drop_last() == head);
        }
    } else {
        lemma_values_named_none(s, name);
        assert(values_named(s, name).push(value) =~= seq![value]);
    }
}

/// Taking one more pair into a prefix extends what `without_name` and
/// `values_named` give of it by that pair, or leaves them as they are.
pub proof fn lemma_prefix_step(s: Seq<Pair>, name: Seq<char>, i: int)
    requires
        0 <= i < s.len(),
    ensures
        s[i].0 == name ==> without_name(s.take(i + 1), name) == without_name(s.take(i), name),
        s[i].0 != name ==> without_name(s.take(i + 1), name) == without_name(
            s.take(i),
            name,
        ).push(s[i]),
        s[i].0 == name ==> values_named(s.take(i + 1), name) == values_named(
            s.take(i),
            name,
        ).push(s[i].1),
        s[i].0 != name ==> values_named(s.take(i + 1), name) == values_named(s.take(i), name),
{
    assert(s.take(i + 1).drop_last() == s.take(i));
    assert(s.take(i + 1).last() == s[i]);
}

/// The index of the first pair of `list` called `name`, if there is one.
pub fn find_first(list: &Vec<(String, String)>, name: &String) -> (r: Option<usize>)
    ensures
        r is Some <==> has_name(view_pairs(list@), name@),
        r matches Some(i) ==> i == first_named(view_pairs(list@), name@) && i < list.len(),
{
    let ghost s = view_pairs(list@);
    proof {
        lemma_first_named(s, name@);
    }
    let mut i: usize = 0;
    while i < list.len()
        invariant
            i <= list.len(),
            s == view_pairs(list@),
            forall|j: int| 0 <= j < i ==> (#[trigger] s[j]).0 != name@,
        decreases list.len() - i,
    {
        if list[i].0 == *name {
            proof {
                lemma_first_named(s, name@);
                let f = first_named(s, name@);
                assert(s[i as int].0 == name@);
                if f < i {
                    assert(s[f].0 == name@);
                }
            }
            return Some(i);
        }
        i += 1;
    }
    None
}

/// Removes every pair called `name` from `list` at or after `from`.
pub fn remove_named_from(list: &mut Vec<(String, String)>, name: &String, from: usize)
    requires
        from <= old(list).len(),
    ensures
        view_pairs(final(list)@) == view_pairs(old(list)@).take(from as int) + without_name(
            view_pairs(old(list)@).skip(from as int),
            name@,
        ),
{
    let ghost s = view_pairs(list@);
    let ghost tail = s.skip(from as int);
    let mut i: usize = from;
    let ghost mut seen: int = 0;
    assert(tail.take(0) == Seq::<Pair>::empty());
    assert(view_pairs(list@) == s.take(from as int) + without_name(tail.take(0), name@) + tail.skip(0));
    while i < list.len()
        invariant
            from <= i <= list.len(),
            0 <= seen <= tail.len(),
            tail == s.skip(from as int),
            from <= s.len(),
            list.len() - i == tail.len() - seen,
            view_pairs(list@) == s.take(from as int) + without_name(tail.take(seen), name@)
                + tail.skip(seen),
            i == from + without_name(tail.take(seen), name@).len(),
        decreases list.len() - i,
    {
        proof {
            lemma_prefix_step(tail, name@, seen);
        }
        let ghost before = view_pairs(list@);
        let ghost head = s.take(from as int) + without_name(tail.take(seen), name@);
        assert(before == head + tail.skip(seen));
        assert(head.len() == i);
        assert(before[i as int] == tail.skip(seen)[0]);
        assert(tail.skip(seen)[0] == tail[seen]);
        if list[i].0 == *name {
            list.remove(i);
            assert(view_pairs(list@) =~= before.remove(i as int));
            assert(before.remove(i as int) =~= head + tail.skip(seen + 1));
        } else {
            i += 1;
            assert(before =~= head.push(tail[seen]) + tail.skip(seen + 1));
            assert(head.push(tail[seen]) =~= s.take(from as int) + without_name(
                tail.take(seen),
                name@,
            ).push(tail[seen]));
        }
        proof {
            seen = seen + 1;
        }
    }
    assert(tail.take(seen) == tail);
    assert(tail.skip(seen) == Seq::<Pair>::empty());
}

} // verus!
