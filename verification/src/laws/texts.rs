//! Texts: taking apart undoes putting together.

use vstd::prelude::*;

use crate::text;
use crate::text::Text;

verus! {

/// The length and the first two letters of a name as one number.
pub open spec fn print(t: Text) -> int {
    if t.len() < 2 {
        0
    } else {
        printed(t.len() as int, t[0], t[1])
    }
}

pub open spec fn printed(n: int, a: char, b: char) -> int {
    n * 0x4000_0000_000 + a as int * 0x200000 + b as int
}

proof fn lemma_find_in_front(a: Text, b: Text, i: int, c: char)
    requires
        0 <= i <= a.len(),
        forall|j: int| i <= j < a.len() ==> a[j] != c,
        b.len() > 0 && b[0] == c,
    ensures
        text::find_from(a + b, i, c) == a.len(),
    decreases a.len() - i,
{
    let s = a + b;
    if i < a.len() {
        assert(s[i] == a[i]);
        lemma_find_in_front(a, b, i + 1, c);
    } else {
        assert(s[i] == b[0]);
    }
}

pub proof fn lemma_find_none(a: Text, i: int, c: char)
    requires
        0 <= i <= a.len(),
        !a.contains(c),
    ensures
        text::find_from(a, i, c) == a.len(),
    decreases a.len() - i,
{
    if i < a.len() {
        assert(a.contains(a[i]));
        lemma_find_none(a, i + 1, c);
    }
}

pub proof fn lemma_find_first(s: Text, c: char)
    ensures
        ({
            let e = text::find_from(s, 0, c);
            &&& 0 <= e <= s.len()
            &&& e < s.len() ==> s[e] == c
            &&& !s.take(e).contains(c)
        }),
{
    text::lemma_find_from(s, 0, c);
    lemma_before_found(s, 0, c);
    let e = text::find_from(s, 0, c);
    if s.take(e).contains(c) {
        let k = s.take(e).index_of(c);
        assert(s[k] == c);
    }
}

proof fn lemma_before_found(s: Text, i: int, c: char)
    requires
        0 <= i <= s.len(),
    ensures
        text::find_from(s, i, c) < s.len() ==> s[text::find_from(s, i, c)] == c,
        forall|j: int| i <= j < text::find_from(s, i, c) ==> s[j] != c,
    decreases s.len() - i,
{
    if i < s.len() && s[i] != c {
        lemma_before_found(s, i + 1, c);
    }
}

/// A text in which the mark does not occur is one part.
pub proof fn lemma_one_part(a: Text, c: char)
    requires
        !a.contains(c),
    ensures
        text::split(a, c) == seq![a],
        text::find_from(a, 0, c) == a.len(),
{
    lemma_find_none(a, 0, c);
}

/// A mark between two texts divides their parts.
pub proof fn lemma_split_at_a_mark(a: Text, b: Text, c: char)
    ensures
        text::split(a + seq![c] + b, c) == text::split(a, c) + text::split(b, c),
    decreases a.len(),
{
    let s = a + seq![c] + b;
    lemma_find_first(a, c);
    let e = text::find_from(a, 0, c);
    if e < a.len() {
        let head = a.take(e);
        let tail = a.skip(e + 1);
        let behind = a.skip(e) + seq![c] + b;
        assert(s =~= head + behind);
        assert forall|j: int| 0 <= j < head.len() implies head[j] != c by {
            assert(head.contains(head[j]));
        }
        lemma_find_in_front(head, behind, 0, c);
        assert(s.take(e) =~= head);
        assert(s.skip(e + 1) =~= tail + seq![c] + b);
        lemma_split_at_a_mark(tail, b, c);
        assert(text::split(s, c) =~= text::split(a, c) + text::split(b, c));
    } else {
        assert(a.take(e) =~= a);
        let behind = seq![c] + b;
        assert(s =~= a + behind);
        assert forall|j: int| 0 <= j < a.len() implies a[j] != c by {
            assert(a.contains(a[j]));
        }
        lemma_find_in_front(a, behind, 0, c);
        assert(s.take(e) =~= a);
        assert(s.skip(e + 1) =~= b);
        lemma_one_part(a, c);
    }
}

/// What is split at a mark is joined by it again.
pub proof fn lemma_split_then_join(s: Text, c: char)
    ensures
        text::join(text::split(s, c), seq![c]) == s,
        text::split(s, c).len() > 0,
    decreases s.len(),
{
    lemma_find_first(s, c);
    let e = text::find_from(s, 0, c);
    if e < s.len() {
        let rest = s.skip(e + 1);
        lemma_split_then_join(rest, c);
        lemma_join_front(s.take(e), text::split(rest, c), seq![c]);
        assert(s =~= s.take(e) + seq![c] + rest);
    } else {
        assert(s.take(e) =~= s);
    }
}

/// Joining goes from the front as it goes from the end.
pub proof fn lemma_join_front(p: Text, ps: Seq<Text>, sep: Text)
    requires
        ps.len() > 0,
    ensures
        text::join(seq![p] + ps, sep) == p + sep + text::join(ps, sep),
    decreases ps.len(),
{
    let all = seq![p] + ps;
    let front = ps.drop_last();
    assert(all.drop_last() =~= seq![p] + front);
    assert(all.last() == ps.last());
    if front.len() == 0 {
        assert(all.drop_last() =~= seq![p]);
        assert(text::join(seq![p], sep) == p);
        assert(text::join(ps, sep) == ps[0]);
        assert(text::join(all, sep) == text::join(seq![p], sep) + sep + ps[0]);
    } else {
        lemma_join_front(p, front, sep);
        assert(text::join(all, sep) =~= p + sep + text::join(ps, sep));
    }
}

/// No parts make no text, one part is the text, and each further part stands behind the
/// separator.
pub proof fn lemma_join_step(ps: Seq<Text>, p: Text, sep: Text)
    ensures
        text::join(Seq::empty(), sep) == Seq::<char>::empty(),
        text::join(seq![p], sep) == p,
        ps.len() > 0 ==> text::join(ps.push(p), sep) == text::join(ps, sep) + sep + p,
{
    assert(ps.push(p).drop_last() =~= ps);
}

// ── Words ──

/// A word: not empty, and without white space.
pub open spec fn solid(w: Text) -> bool {
    w.len() > 0 && forall|i: int| 0 <= i < w.len() ==> !text::is_white(#[trigger] w[i])
}

/// A word is as long as it is up to white space or the end.
pub proof fn lemma_word_len(w: Text, rest: Text)
    requires
        forall|i: int| 0 <= i < w.len() ==> !text::is_white(#[trigger] w[i]),
        rest.len() == 0 || text::is_white(rest[0]),
    ensures
        text::word_len(w + rest) == w.len(),
    decreases w.len(),
{
    let s = w + rest;
    if w.len() > 0 {
        assert(s[0] == w[0]);
        let t = w.drop_first();
        assert(s.drop_first() =~= t + rest);
        assert forall|i: int| 0 <= i < t.len() implies !text::is_white(#[trigger] t[i]) by {
            assert(t[i] == w[i + 1]);
        }
        lemma_word_len(t, rest);
    } else {
        assert(s =~= rest);
    }
}

/// A word in front of white space or the end is the first word, and the rest follows.
pub proof fn lemma_words_front(w: Text, rest: Text)
    requires
        solid(w),
        rest.len() == 0 || text::is_white(rest[0]),
    ensures
        text::words(w + rest) == seq![w] + text::words(rest),
{
    let s = w + rest;
    assert(s[0] == w[0]);
    assert(text::trim_start(s) == s);
    lemma_word_len(w, rest);
    assert(s.take(w.len() as int) =~= w);
    assert(s.skip(w.len() as int) =~= rest);
}

proof fn lemma_words_blank(s: Text)
    ensures
        text::words(seq![' '] + s) == text::words(s),
{
    let t = seq![' '] + s;
    assert(t[0] == ' ');
    assert(t.drop_first() =~= s);
    assert(text::trim_start(t) == text::trim_start(s));
}

/// Words with a space between them are read back one by one.
pub proof fn lemma_words_read_back(ws: Seq<Text>)
    requires
        forall|i: int| 0 <= i < ws.len() ==> solid(#[trigger] ws[i]),
    ensures
        text::words(text::join(ws, " "@)) == ws,
    decreases ws.len(),
{
    reveal_strlit(" ");
    assert(" "@ =~= seq![' ']);
    if ws.len() == 0 {
        assert(text::words(text::join(ws, " "@)) =~= ws);
    } else if ws.len() == 1 {
        let w = ws[0];
        lemma_words_front(w, Seq::empty());
        assert(w + Seq::<char>::empty() =~= w);
        assert(text::words(Seq::<char>::empty()) =~= Seq::<Text>::empty());
        assert(text::words(text::join(ws, " "@)) =~= ws);
    } else {
        let w = ws[0];
        let rest = ws.drop_first();
        assert forall|i: int| 0 <= i < rest.len() implies solid(#[trigger] rest[i]) by {
            assert(rest[i] == ws[i + 1]);
        }
        lemma_words_read_back(rest);
        assert(ws =~= seq![w] + rest);
        lemma_join_front(w, rest, " "@);
        let tail = seq![' '] + text::join(rest, " "@);
        assert(w + " "@ + text::join(rest, " "@) =~= w + tail);
        lemma_words_front(w, tail);
        lemma_words_blank(text::join(rest, " "@));
        assert(text::words(text::join(ws, " "@)) =~= ws);
    }
}

// ── Trimming ──

proof fn lemma_trim_front(pre: Text, s: Text)
    requires
        forall|i: int| 0 <= i < pre.len() ==> text::is_white(#[trigger] pre[i]),
        s.len() > 0 ==> !text::is_white(s[0]),
    ensures
        text::trim_start(pre + s) == s,
{
    let all = pre + s;
    assert forall|i: int| 0 <= i < pre.len() implies text::is_white(#[trigger] all[i]) by {
        assert(all[i] == pre[i]);
    }
    if s.len() > 0 {
        assert(all[pre.len() as int] == s[0]);
    }
    text::lemma_blanks_in_front(all, pre.len() as int);
    assert(all.skip(pre.len() as int) =~= s);
}

proof fn lemma_trim_back(s: Text, post: Text)
    requires
        forall|i: int| 0 <= i < post.len() ==> text::is_white(#[trigger] post[i]),
        s.len() > 0 ==> !text::is_white(s[s.len() - 1]),
    ensures
        text::trim_end(s + post) == s,
    decreases post.len(),
{
    let all = s + post;
    if post.len() > 0 {
        let front = post.drop_last();
        assert(all.last() == post[post.len() - 1]);
        assert(all.drop_last() =~= s + front);
        assert forall|i: int| 0 <= i < front.len() implies text::is_white(#[trigger] front[i]) by {
            assert(front[i] == post[i]);
        }
        lemma_trim_back(s, front);
    } else {
        assert(all =~= s);
    }
}

/// Trimming takes white space off both ends, and nothing else.
pub proof fn lemma_trimmed(pre: Text, s: Text, post: Text)
    requires
        forall|i: int| 0 <= i < pre.len() ==> text::is_white(#[trigger] pre[i]),
        forall|i: int| 0 <= i < post.len() ==> text::is_white(#[trigger] post[i]),
        s.len() > 0,
        !text::is_white(s[0]),
        !text::is_white(s[s.len() - 1]),
    ensures
        text::trim(pre + s + post) == s,
{
    let t = s + post;
    assert(pre + s + post =~= pre + t);
    assert(t[0] == s[0]);
    lemma_trim_front(pre, t);
    lemma_trim_back(s, post);
}

// ── Numbers ──

/// A number is read from its digits and from nothing else, up to the limit.
pub proof fn lemma_numbers_read(n: nat, max: nat)
    ensures
        n <= max ==> text::parse_unsigned(text::decimal(n), max) == Some(n),
        n > max ==> text::parse_unsigned(text::decimal(n), max) is None,
        n < 10 ==> text::decimal(n).len() == 1 && text::decimal(n)[0] as int == '0' as int + n,
{
    text::lemma_decimal_read_back(n, n);
    if n <= max {
        text::lemma_decimal_read_back(n, max);
    }
}

} // verus!
