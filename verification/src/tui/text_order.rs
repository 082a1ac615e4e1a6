//! Sequences of strings as ordered sets.

use vstd::prelude::*;

use crate::text;
use crate::text::Text;
use crate::textmap::{lemma_lt_total, lemma_lt_transitive, str_lt, text_lt};

verus! {

/// `x` put in its place among ascending strings, unless it is there.
pub open spec fn insert_text(s: Seq<Text>, x: Text) -> Seq<Text>
    decreases s.len(),
{
    if s.len() == 0 || text_lt(s.last(), x) {
        s.push(x)
    } else if s.last() == x {
        s
    } else {
        insert_text(s.drop_last(), x).push(s.last())
    }
}

/// The strings in ascending order, each once.
pub open spec fn sorted_texts(s: Seq<Text>) -> Seq<Text>
    decreases s.len(),
{
    if s.len() == 0 {
        Seq::empty()
    } else {
        insert_text(sorted_texts(s.drop_last()), s.last())
    }
}

/// The strings of `s` that are in neither `a` nor `b`.
pub open spec fn without(s: Seq<Text>, a: Seq<Text>, b: Seq<Text>) -> Seq<Text>
    decreases s.len(),
{
    if s.len() == 0 {
        Seq::empty()
    } else {
        let rest = without(s.drop_last(), a, b);
        if a.contains(s.last()) || b.contains(s.last()) {
            rest
        } else {
            rest.push(s.last())
        }
    }
}

/// Puts a string in its place.
pub fn insert_string(v: &mut Vec<String>, x: String)
    ensures
        text::texts(final(v)@) == insert_text(text::texts(old(v)@), x@),
{
    let ghost before = text::texts(v@);
    let ghost held = v@;
    let mut at: usize = v.len();
    proof {
        assert(before.take(at as int) =~= before);
        assert(before.skip(at as int) =~= Seq::<Text>::empty());
        assert(insert_text(before, x@) =~= insert_text(before.take(at as int), x@) + before.skip(
            at as int,
        ));
    }
    while at > 0
        invariant
            at <= v@.len(),
            v@ == held,
            held == old(v)@,
            before == text::texts(held),
            insert_text(before, x@) == insert_text(before.take(at as int), x@) + before.skip(
                at as int,
            ),
        ensures
            at == 0 || text_lt(before[at - 1], x@),
        decreases at,
    {
        let ghost t = before.take(at as int);
        assert(t.last() == v@[at - 1]@);
        if str_lt(v[at - 1].as_str(), x.as_str()) {
            break;
        }
        if text::str_eq(v[at - 1].as_str(), x.as_str()) {
            proof {
                assert(insert_text(before, x@) =~= before);
            }
            return;
        }
        proof {
            assert(t.drop_last() =~= before.take(at - 1));
            assert(insert_text(before.take(at - 1), x@).push(before[at - 1]) + before.skip(
                at as int,
            ) =~= insert_text(before.take(at - 1), x@) + before.skip(at - 1));
        }
        at = at - 1;
    }
    let ghost shown = x@;
    proof {
        if at > 0 {
            assert(before.take(at as int).last() == before[at - 1]);
        }
    }
    v.insert(at, x);
    assert(text::texts(v@) =~= before.take(at as int).push(shown) + before.skip(at as int));
}

/// The strings in ascending order, each once.
pub fn sort_strings(v: &Vec<String>) -> (r: Vec<String>)
    ensures
        text::texts(r@) == sorted_texts(text::texts(v@)),
{
    let ghost all = text::texts(v@);
    let mut out: Vec<String> = Vec::new();
    let mut i: usize = 0;
    assert(text::texts(out@) =~= sorted_texts(all.take(0)));
    while i < v.len()
        invariant
            i <= v@.len(),
            all == text::texts(v@),
            text::texts(out@) == sorted_texts(all.take(i as int)),
        decreases v@.len() - i,
    {
        proof {
            assert(all.take(i + 1).drop_last() =~= all.take(i as int));
            assert(all.take(i + 1).last() == v@[i as int]@);
        }
        insert_string(&mut out, v[i].clone());
        i = i + 1;
    }
    assert(all.take(i as int) =~= all);
    out
}

/// The strings of `v` that are in neither `a` nor `b`.
pub fn strings_without(v: &Vec<String>, a: &Vec<String>, b: &Vec<String>) -> (r: Vec<String>)
    ensures
        text::texts(r@) == without(text::texts(v@), text::texts(a@), text::texts(b@)),
{
    let ghost all = text::texts(v@);
    let mut out: Vec<String> = Vec::new();
    let mut i: usize = 0;
    assert(text::texts(out@) =~= without(all.take(0), text::texts(a@), text::texts(b@)));
    while i < v.len()
        invariant
            i <= v@.len(),
            all == text::texts(v@),
            text::texts(out@) == without(all.take(i as int), text::texts(a@), text::texts(b@)),
        decreases v@.len() - i,
    {
        let s = v[i].clone();
        proof {
            assert(all.take(i + 1).drop_last() =~= all.take(i as int));
            assert(all.take(i + 1).last() == s@);
            assert(text::texts(out@.push(s)) =~= text::texts(out@).push(s@));
        }
        if !text::contains_string(a, s.as_str()) && !text::contains_string(b, s.as_str()) {
            out.push(s);
        }
        i = i + 1;
    }
    assert(all.take(i as int) =~= all);
    out
}

// ── Laws ──

/// Sorting keeps exactly the strings there are, in strictly ascending order.
pub proof fn lemma_sorted_texts(s: Seq<Text>)
    ensures
        crate::textmap::ascending(sorted_texts(s)),
        forall|t: Text|
            #![trigger sorted_texts(s).contains(t)]
            #![trigger s.contains(t)]
            sorted_texts(s).contains(t) <==> s.contains(t),
    decreases s.len(),
{
    if s.len() > 0 {
        let init = s.drop_last();
        lemma_sorted_texts(init);
        lemma_insert_text(sorted_texts(init), s.last());
        assert forall|t: Text| sorted_texts(s).contains(t) <==> s.contains(t) by {
            assert(s =~= init.push(s.last()));
            if s.contains(t) {
                let i = s.index_of(t);
                if i < init.len() {
                    assert(init[i] == t);
                }
            }
            if init.contains(t) {
                let i = init.index_of(t);
                assert(s[i] == t);
            }
            assert(s[s.len() - 1] == s.last());
        }
    }
}

/// Putting a string in its place adds it and keeps the order.
pub proof fn lemma_insert_text(s: Seq<Text>, x: Text)
    requires
        crate::textmap::ascending(s),
    ensures
        crate::textmap::ascending(insert_text(s, x)),
        forall|t: Text|
            #![trigger insert_text(s, x).contains(t)]
            #![trigger s.contains(t)]
            insert_text(s, x).contains(t) <==> (s.contains(t) || t == x),
    decreases s.len(),
{
    let r = insert_text(s, x);
    if s.len() == 0 || text_lt(s.last(), x) {
        assert forall|i: int, j: int| 0 <= i < j < r.len() implies text_lt(
            #[trigger] r[i],
            #[trigger] r[j],
        ) by {
            if j < s.len() {
                assert(text_lt(s[i], s[j]));
            } else if i < s.len() - 1 {
                assert(text_lt(s[i], s[s.len() - 1]));
                lemma_lt_transitive(s[i], s.last(), x);
            }
        }
        assert forall|t: Text| r.contains(t) <==> (s.contains(t) || t == x) by {
            if s.contains(t) {
                assert(r[s.index_of(t)] == t);
            }
            assert(r[s.len() as int] == x);
        }
    } else if s.last() == x {
        assert(s[s.len() - 1] == x);
    } else {
        let d = s.drop_last();
        assert(crate::textmap::ascending(d)) by {
            assert forall|i: int, j: int| 0 <= i < j < d.len() implies text_lt(
                #[trigger] d[i],
                #[trigger] d[j],
            ) by {
                assert(text_lt(s[i], s[j]));
            }
        }
        lemma_insert_text(d, x);
        lemma_lt_total(s.last(), x);
        let q = insert_text(d, x);
        assert forall|i: int, j: int| 0 <= i < j < r.len() implies text_lt(
            #[trigger] r[i],
            #[trigger] r[j],
        ) by {
            if j < q.len() {
                assert(text_lt(q[i], q[j]));
            } else {
                assert(q.contains(q[i]));
                if q[i] != x {
                    let k = d.index_of(q[i]);
                    assert(text_lt(s[k], s[s.len() - 1]));
                }
            }
        }
        assert forall|t: Text| r.contains(t) <==> (s.contains(t) || t == x) by {
            if r.contains(t) {
                let i = r.index_of(t);
                if i < q.len() {
                    assert(q[i] == t);
                    assert(q.contains(t));
                    if t != x {
                        assert(d.contains(t));
                        assert(s[d.index_of(t)] == t);
                    }
                } else {
                    assert(s[s.len() - 1] == t);
                }
            }
            if s.contains(t) {
                let i = s.index_of(t);
                if i < d.len() {
                    assert(d[i] == t);
                    assert(d.contains(t));
                    assert(q.contains(t));
                    assert(r[q.index_of(t)] == t);
                } else {
                    assert(r[q.len() as int] == t);
                }
            }
            if t == x {
                assert(q.contains(x));
                assert(r[q.index_of(x)] == x);
            }
        }
    }
}

/// What is left is what was there and in neither of the others.
pub proof fn lemma_without(s: Seq<Text>, a: Seq<Text>, b: Seq<Text>)
    ensures
        forall|t: Text|
            #![trigger without(s, a, b).contains(t)]
            #![trigger s.contains(t)]
            without(s, a, b).contains(t) <==> (s.contains(t) && !a.contains(t) && !b.contains(t)),
    decreases s.len(),
{
    if s.len() > 0 {
        let init = s.drop_last();
        lemma_without(init, a, b);
        let rest = without(init, a, b);
        let r = without(s, a, b);
        assert forall|t: Text| r.contains(t) <==> (s.contains(t) && !a.contains(t) && !b.contains(
            t,
        )) by {
            assert(s =~= init.push(s.last()));
            if r.contains(t) {
                let i = r.index_of(t);
                if i < rest.len() {
                    assert(rest[i] == t);
                    assert(rest.contains(t));
                    assert(init.contains(t));
                    assert(s[init.index_of(t)] == t);
                } else {
                    assert(s[s.len() - 1] == t);
                }
            }
            if s.contains(t) && !a.contains(t) && !b.contains(t) {
                let i = s.index_of(t);
                if i < init.len() {
                    assert(init[i] == t);
                    assert(init.contains(t));
                    assert(rest.contains(t));
                    assert(r[rest.index_of(t)] == t);
                } else {
                    assert(r[rest.len() as int] == t);
                }
            }
        }
    }
}

} // verus!
