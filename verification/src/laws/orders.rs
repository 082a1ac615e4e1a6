//! Orders: which text or path comes first, and which bytes are the last.

use vstd::prelude::*;

use crate::ring_buffer::last_n;
use crate::text::Text;
use crate::textmap::text_lt;
use crate::upgrade::{insert_path, parts_lt, path_lt, sorted_paths};

verus! {

/// The first characters in which two texts differ decide, and a text comes in front of those
/// that go on.
pub proof fn lemma_texts_in_order(pre: Text, c: char, d: char, x: Text, y: Text)
    ensures
        c < d ==> text_lt(pre + seq![c] + x, pre + seq![d] + y),
        c < d ==> !text_lt(pre + seq![d] + y, pre + seq![c] + x),
        text_lt(pre, pre + seq![c] + x),
        !text_lt(pre + seq![c] + x, pre),
    decreases pre.len(),
{
    let a = pre + seq![c] + x;
    let b = pre + seq![d] + y;
    if pre.len() == 0 {
        assert(a[0] == c && b[0] == d);
    } else {
        let rest = pre.drop_first();
        assert(a[0] == pre[0] && b[0] == pre[0]);
        assert(a.drop_first() =~= rest + seq![c] + x);
        assert(b.drop_first() =~= rest + seq![d] + y);
        lemma_texts_in_order(rest, c, d, x, y);
    }
}

/// Paths are compared part by part.
pub proof fn lemma_parts_in_order(pre: Seq<Text>, a: Text, b: Text, x: Seq<Text>, y: Seq<Text>)
    ensures
        a != b ==> (parts_lt(pre + seq![a] + x, pre + seq![b] + y) <==> text_lt(a, b)),
        parts_lt(pre, pre + seq![a] + x),
        !parts_lt(pre + seq![a] + x, pre),
    decreases pre.len(),
{
    let s = pre + seq![a] + x;
    let t = pre + seq![b] + y;
    if pre.len() == 0 {
        assert(s[0] == a && t[0] == b);
    } else {
        let rest = pre.drop_first();
        assert(s[0] == pre[0] && t[0] == pre[0]);
        assert(s.drop_first() =~= rest + seq![a] + x);
        assert(t.drop_first() =~= rest + seq![b] + y);
        lemma_parts_in_order(rest, a, b, x, y);
    }
}

/// Of two paths the one that comes first is in front, and none is lost.
pub proof fn lemma_two_paths_sorted(a: Text, b: Text)
    ensures
        path_lt(b, a) ==> sorted_paths(seq![a, b]) == seq![b, a],
        !path_lt(b, a) ==> sorted_paths(seq![a, b]) == seq![a, b],
{
    let s = seq![a, b];
    assert(s.drop_last() =~= seq![a]);
    assert(seq![a].drop_last() =~= Seq::<Text>::empty());
    reveal_with_fuel(sorted_paths, 3);
    reveal_with_fuel(insert_path, 3);
    assert(Seq::<Text>::empty().push(a) =~= seq![a]);
    assert(seq![a].push(b) =~= seq![a, b]);
    assert(Seq::<Text>::empty().push(b).push(a) =~= seq![b, a]);
}

proof fn lemma_inserted_path(s: Seq<Text>, x: Text, p: Text)
    ensures
        insert_path(s, x).contains(p) <==> s.contains(p) || p == x,
        insert_path(s, x).len() == s.len() + 1,
    decreases s.len(),
{
    if s.len() == 0 || !path_lt(x, s.last()) {
        assert(s.push(x)[s.len() as int] == x);
        if s.contains(p) {
            let k = s.index_of(p);
            assert(s.push(x)[k] == p);
        }
        if s.push(x).contains(p) {
            let k = s.push(x).index_of(p);
            if k < s.len() {
                assert(s[k] == p);
            }
        }
    } else {
        let front = s.drop_last();
        lemma_inserted_path(front, x, p);
        let t = insert_path(front, x);
        let all = t.push(s.last());
        if all.contains(p) {
            let k = all.index_of(p);
            if k < t.len() {
                assert(t[k] == p);
                assert(t.contains(p));
                if front.contains(p) {
                    let j = front.index_of(p);
                    assert(s[j] == p);
                }
            } else {
                assert(s[s.len() - 1] == p);
            }
        }
        if s.contains(p) || p == x {
            if p != x && !front.contains(p) {
                let j = s.index_of(p);
                if j < front.len() {
                    assert(front[j] == p);
                }
                assert(all[t.len() as int] == p);
            } else {
                let k = t.index_of(p);
                assert(all[k] == p);
            }
        }
    }
}

/// Sorting paths loses none and makes none up.
pub proof fn lemma_sorted_paths_are_the_paths(s: Seq<Text>, p: Text)
    ensures
        sorted_paths(s).contains(p) <==> s.contains(p),
        sorted_paths(s).len() == s.len(),
    decreases s.len(),
{
    if s.len() > 0 {
        let front = s.drop_last();
        lemma_sorted_paths_are_the_paths(front, p);
        lemma_inserted_path(sorted_paths(front), s.last(), p);
        if s.contains(p) {
            let j = s.index_of(p);
            if j < front.len() {
                assert(front[j] == p);
            }
        }
        if front.contains(p) {
            let j = front.index_of(p);
            assert(s[j] == p);
        }
        assert(s[s.len() - 1] == s.last());
    }
}

/// The last bytes are those at the end, in their order.
pub proof fn lemma_last_bytes(s: Seq<u8>, n: nat, i: int)
    ensures
        s.len() <= n ==> last_n(s, n) == s,
        s.len() > n ==> last_n(s, n).len() == n,
        s.len() > n && 0 <= i < n ==> last_n(s, n)[i] == s[s.len() - n + i],
{
}

} // verus!
