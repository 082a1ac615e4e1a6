//! Stable sorting of numbered values.

use vstd::prelude::*;

verus! {

/// `x` put behind the values whose number is not higher.
pub open spec fn insert_by_key<T>(s: Seq<(u32, T)>, x: (u32, T)) -> Seq<(u32, T)>
    decreases s.len(),
{
    if s.len() == 0 || s.last().0 <= x.0 {
        s.push(x)
    } else {
        insert_by_key(s.drop_last(), x).push(s.last())
    }
}

/// The values by ascending number; equal numbers keep their order.
pub open spec fn by_key<T>(s: Seq<(u32, T)>) -> Seq<(u32, T)>
    decreases s.len(),
{
    if s.len() == 0 {
        Seq::empty()
    } else {
        insert_by_key(by_key(s.drop_last()), s.last())
    }
}

/// The values without their numbers.
pub open spec fn values_of<T>(s: Seq<(u32, T)>) -> Seq<T> {
    s.map_values(|p: (u32, T)| p.1)
}

/// The values with `f` applied to each.
pub open spec fn map_second<T, U>(s: Seq<(u32, T)>, f: spec_fn(T) -> U) -> Seq<(u32, U)> {
    s.map_values(|p: (u32, T)| (p.0, f(p.1)))
}

/// Puts `x` behind the values whose number is not higher.
fn insert_sorted<T>(out: &mut Vec<(u32, T)>, x: (u32, T))
    ensures
        final(out)@ == insert_by_key(old(out)@, x),
{
    let ghost before = out@;
    let mut at: usize = out.len();
    assert(before.take(at as int) =~= before);
    assert(before.skip(at as int) =~= Seq::<(u32, T)>::empty());
    assert(insert_by_key(before, x) =~= insert_by_key(before.take(at as int), x) + before.skip(
        at as int,
    ));
    while at > 0 && out[at - 1].0 > x.0
        invariant
            at <= out@.len(),
            out@ == before,
            insert_by_key(before, x) == insert_by_key(before.take(at as int), x) + before.skip(
                at as int,
            ),
        decreases at,
    {
        proof {
            assert(before.take(at as int).drop_last() =~= before.take(at - 1));
            assert(insert_by_key(before.take(at - 1), x).push(before[at - 1]) + before.skip(
                at as int,
            ) =~= insert_by_key(before.take(at - 1), x) + before.skip(at - 1));
        }
        at = at - 1;
    }
    out.insert(at, x);
    assert(out@ =~= before.take(at as int).push(x) + before.skip(at as int));
}

/// Sorts by ascending number; equal numbers keep their order.
pub fn sort_by_key<T>(v: Vec<(u32, T)>) -> (r: Vec<(u32, T)>)
    ensures
        r@ == by_key(v@),
{
    let ghost all = v@;
    let mut rest = v;
    let mut out: Vec<(u32, T)> = Vec::new();
    let mut i: usize = 0;
    let n: usize = rest.len();
    assert(all.skip(0) =~= all);
    assert(all.take(0) =~= Seq::<(u32, T)>::empty());
    while i < n
        invariant
            i <= n,
            n == all.len(),
            rest@ == all.skip(i as int),
            out@ == by_key(all.take(i as int)),
        decreases n - i,
    {
        let x = rest.remove(0);
        proof {
            assert(rest@ =~= all.skip(i + 1));
            assert(all.take(i + 1).drop_last() =~= all.take(i as int));
            assert(all.take(i + 1).last() == x);
        }
        insert_sorted(&mut out, x);
        i = i + 1;
    }
    assert(all.take(i as int) =~= all);
    out
}

/// The values without their numbers.
pub fn take_values<T>(v: Vec<(u32, T)>) -> (r: Vec<T>)
    ensures
        r@ == values_of(v@),
{
    let ghost all = v@;
    let mut rest = v;
    let mut out: Vec<T> = Vec::new();
    let mut i: usize = 0;
    let n: usize = rest.len();
    assert(all.skip(0) =~= all);
    assert(out@ =~= values_of(all.take(0)));
    while i < n
        invariant
            i <= n,
            n == all.len(),
            rest@ == all.skip(i as int),
            out@ == values_of(all.take(i as int)),
        decreases n - i,
    {
        let (_, x) = rest.remove(0);
        out.push(x);
        proof {
            assert(rest@ =~= all.skip(i + 1));
            assert(out@ =~= values_of(all.take(i + 1)));
        }
        i = i + 1;
    }
    assert(all.take(i as int) =~= all);
    out
}

/// Sorting looks at the numbers alone.
pub proof fn lemma_by_key_map<T, U>(s: Seq<(u32, T)>, f: spec_fn(T) -> U)
    ensures
        by_key(map_second(s, f)) == map_second(by_key(s), f),
    decreases s.len(),
{
    if s.len() == 0 {
        assert(by_key(map_second(s, f)) =~= map_second(by_key(s), f));
    } else {
        lemma_by_key_map(s.drop_last(), f);
        assert(map_second(s, f).drop_last() =~= map_second(s.drop_last(), f));
        lemma_insert_map(by_key(s.drop_last()), s.last(), f);
    }
}

proof fn lemma_insert_map<T, U>(s: Seq<(u32, T)>, x: (u32, T), f: spec_fn(T) -> U)
    ensures
        insert_by_key(map_second(s, f), (x.0, f(x.1))) == map_second(insert_by_key(s, x), f),
    decreases s.len(),
{
    let m = map_second(s, f);
    if s.len() == 0 || s.last().0 <= x.0 {
        assert(m.push((x.0, f(x.1))) =~= map_second(s.push(x), f));
    } else {
        lemma_insert_map(s.drop_last(), x, f);
        assert(m.drop_last() =~= map_second(s.drop_last(), f));
        assert(map_second(insert_by_key(s.drop_last(), x), f).push(m.last()) =~= map_second(
            insert_by_key(s.drop_last(), x).push(s.last()),
            f,
        ));
    }
}

/// Sorting keeps every value and puts the numbers in ascending order.
pub proof fn lemma_by_key_sorts<T>(s: Seq<(u32, T)>)
    ensures
        by_key(s).len() == s.len(),
        by_key(s).to_multiset() == s.to_multiset(),
        forall|i: int, j: int|
            0 <= i <= j < by_key(s).len() ==> (#[trigger] by_key(s)[i]).0 <= (#[trigger] by_key(s)[j]).0,
    decreases s.len(),
{
    broadcast use vstd::seq_lib::to_multiset_build;

    if s.len() > 0 {
        lemma_by_key_sorts(s.drop_last());
        lemma_insert_sorts(by_key(s.drop_last()), s.last());
        assert(s =~= s.drop_last().push(s.last()));
    } else {
        assert(by_key(s) =~= s);
    }
}

proof fn lemma_insert_sorts<T>(s: Seq<(u32, T)>, x: (u32, T))
    requires
        forall|i: int, j: int| 0 <= i <= j < s.len() ==> (#[trigger] s[i]).0 <= (#[trigger] s[j]).0,
    ensures
        insert_by_key(s, x).len() == s.len() + 1,
        insert_by_key(s, x).to_multiset() == s.to_multiset().insert(x),
        forall|i: int, j: int|
            0 <= i <= j < insert_by_key(s, x).len() ==> (#[trigger] insert_by_key(s, x)[i]).0 <= (
            #[trigger] insert_by_key(s, x)[j]).0,
        insert_by_key(s, x).last().0 == x.0 || (s.len() > 0 && insert_by_key(s, x).last().0
            == s.last().0),
    decreases s.len(),
{
    broadcast use vstd::seq_lib::to_multiset_build;

    let r = insert_by_key(s, x);
    if s.len() == 0 || s.last().0 <= x.0 {
        assert forall|i: int, j: int| 0 <= i <= j < r.len() implies (#[trigger] r[i]).0 <= (
        #[trigger] r[j]).0 by {
            if j < s.len() {
                assert(r[i] == s[i] && r[j] == s[j]);
            } else if i < s.len() {
                assert(s[i].0 <= s[s.len() - 1].0);
            }
        }
    } else {
        let d = s.drop_last();
        assert forall|i: int, j: int| 0 <= i <= j < d.len() implies (#[trigger] d[i]).0 <= (
        #[trigger] d[j]).0 by {
            assert(s[i].0 <= s[j].0);
        }
        lemma_insert_sorts(d, x);
        let q = insert_by_key(d, x);
        assert(s =~= d.push(s.last()));
        assert(r.to_multiset() =~= s.to_multiset().insert(x));
        assert forall|i: int, j: int| 0 <= i <= j < r.len() implies (#[trigger] r[i]).0 <= (
        #[trigger] r[j]).0 by {
            if j < q.len() {
                assert(r[i] == q[i] && r[j] == q[j]);
            } else if i < q.len() {
                assert(q[i].0 <= q[q.len() - 1].0);
                if d.len() > 0 {
                    assert(s[d.len() - 1].0 <= s[s.len() - 1].0);
                }
            }
        }
    }
}

} // verus!
