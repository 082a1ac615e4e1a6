//! Character sequences: the vocabulary the rest of the crate is written in.
//!
//! A `String` or `&str` is viewed as the sequence of its characters. This
//! module gives the executable building blocks (conversion, comparison,
//! trimming, splitting, joining, decimal numbers) and the specification
//! functions that say what they compute.

use vstd::prelude::*;
use vstd::string::*;
use vstd::utf8::*;

verus! {

/// A sequence of characters.
pub type Text = Seq<char>;

// ── Trusted std functions ──

/// `String::push` appends the given character to the end of the string.
pub assume_specification[ std::string::String::push ](s: &mut std::string::String, c: char)
    ensures
        final(s)@ == old(s)@.push(c),
;

/// The text that `{:?}` gives for a string with these characters.
pub uninterp spec fn debug_text(s: Seq<char>) -> Seq<char>;

/// `<str as Debug>::fmt`: the result depends on the characters of `s` alone.
#[verifier::external_body]
pub(crate) fn debug_str(s: &str) -> (r: String)
    ensures
        r@ == debug_text(s@),
{
    format!("{s:?}")
}

/// The text that bytes decode to when what is not UTF-8 is replaced.
pub uninterp spec fn lossy_text(bytes: Seq<u8>) -> Seq<char>;

/// `String::from_utf8_lossy`: the result depends on the bytes alone.
#[verifier::external_body]
pub(crate) fn lossy_string(bytes: &[u8]) -> (r: String)
    ensures
        r@ == lossy_text(bytes@),
{
    String::from_utf8_lossy(bytes).into_owned()
}

// ── Conversion ──

/// The characters of `s`, in order.
pub fn chars_of(s: &str) -> (r: Vec<char>)
    ensures
        r@ == s@,
{
    let mut v: Vec<char> = Vec::new();
    for c in it: s.chars()
        invariant
            it.seq() == s@,
            v@ == s@.take(it.index()),
    {
        v.push(c);
        assert(v@ =~= s@.take(it.index() + 1));
    }
    assert(v@ =~= s@);
    v
}

/// The characters `from..to` of `v` as a string.
pub fn string_of(v: &Vec<char>, from: usize, to: usize) -> (r: String)
    requires
        from <= to <= v@.len(),
    ensures
        r@ == v@.subrange(from as int, to as int),
{
    let mut s: String = String::new();
    let mut i: usize = from;
    while i < to
        invariant
            from <= i <= to <= v@.len(),
            s@ == v@.subrange(from as int, i as int),
        decreases to - i,
    {
        s.push(v[i]);
        i = i + 1;
        assert(s@ =~= v@.subrange(from as int, i as int));
    }
    s
}

/// All characters of `v` as a string.
pub fn all_string(v: &Vec<char>) -> (r: String)
    ensures
        r@ == v@,
{
    let s = string_of(v, 0, v.len());
    assert(v@.subrange(0, v@.len() as int) =~= v@);
    s
}

/// The characters `from..to` of `v`.
pub fn sub_chars(v: &Vec<char>, from: usize, to: usize) -> (r: Vec<char>)
    requires
        from <= to <= v@.len(),
    ensures
        r@ == v@.subrange(from as int, to as int),
{
    let mut s: Vec<char> = Vec::new();
    let mut i: usize = from;
    while i < to
        invariant
            from <= i <= to <= v@.len(),
            s@ == v@.subrange(from as int, i as int),
        decreases to - i,
    {
        s.push(v[i]);
        i = i + 1;
        assert(s@ =~= v@.subrange(from as int, i as int));
    }
    s
}

// ── Comparison ──

/// Whether two character vectors hold the same characters.
pub fn chars_eq(a: &Vec<char>, b: &Vec<char>) -> (r: bool)
    ensures
        r == (a@ == b@),
{
    if a.len() != b.len() {
        return false;
    }
    let mut i: usize = 0;
    while i < a.len()
        invariant
            i <= a@.len(),
            a@.len() == b@.len(),
            forall|j: int| 0 <= j < i ==> a@[j] == b@[j],
        decreases a@.len() - i,
    {
        if a[i] != b[i] {
            return false;
        }
        i = i + 1;
    }
    assert(a@ =~= b@);
    true
}

/// Whether two strings hold the same characters.
pub fn str_eq(a: &str, b: &str) -> (r: bool)
    ensures
        r == (a@ == b@),
{
    chars_eq(&chars_of(a), &chars_of(b))
}

/// Whether `p` stands in `s` at index `at`.
pub open spec fn has_at(s: Text, at: int, p: Text) -> bool {
    0 <= at && at + p.len() <= s.len() && s.subrange(at, at + p.len()) == p
}

/// Whether the characters `p` stand in `v` at index `at`.
pub fn chars_at(v: &Vec<char>, at: usize, p: &str) -> (r: bool)
    ensures
        r == has_at(v@, at as int, p@),
{
    let q = chars_of(p);
    if at > v.len() || v.len() - at < q.len() {
        return false;
    }
    let mut i: usize = 0;
    while i < q.len()
        invariant
            i <= q@.len(),
            at + q@.len() <= v.len(),
            q@ == p@,
            forall|j: int| 0 <= j < i ==> v@[at + j] == q@[j],
        decreases q@.len() - i,
    {
        if v[at + i] != q[i] {
            assert(v@.subrange(at as int, at + q@.len())[i as int] != q@[i as int]);
            return false;
        }
        i = i + 1;
    }
    assert(v@.subrange(at as int, at + q@.len()) =~= q@);
    true
}

/// Whether `s` begins with `p`.
pub open spec fn starts_with(s: Text, p: Text) -> bool {
    has_at(s, 0, p)
}

/// Whether `s` ends with `p`.
pub open spec fn ends_with(s: Text, p: Text) -> bool {
    has_at(s, s.len() - p.len(), p)
}

/// Whether `s` begins with `p`.
pub fn str_starts_with(s: &str, p: &str) -> (r: bool)
    ensures
        r == starts_with(s@, p@),
{
    chars_at(&chars_of(s), 0, p)
}

/// Whether `v` ends with `p`.
pub fn chars_end_with(v: &Vec<char>, p: &str) -> (r: bool)
    ensures
        r == ends_with(v@, p@),
{
    let n = p.unicode_len();
    if n > v.len() {
        return false;
    }
    chars_at(v, v.len() - n, p)
}

/// What follows `p` in `s`, if `s` begins with `p`.
pub open spec fn strip_prefix(s: Text, p: Text) -> Option<Text> {
    if starts_with(s, p) {
        Some(s.skip(p.len() as int))
    } else {
        None
    }
}

/// What follows `p` in `v`, if `v` begins with `p`.
pub fn chars_strip_prefix(v: &Vec<char>, p: &str) -> (r: Option<Vec<char>>)
    ensures
        match r {
            Some(rest) => strip_prefix(v@, p@) == Some(rest@),
            None => strip_prefix(v@, p@) is None,
        },
{
    if chars_at(v, 0, p) {
        let n = p.unicode_len();
        let rest = sub_chars(v, n, v.len());
        assert(v@.subrange(n as int, v@.len() as int) =~= v@.skip(n as int));
        Some(rest)
    } else {
        None
    }
}

// ── Whitespace ──

/// The characters with the Unicode property `White_Space`.
pub open spec fn is_white(c: char) -> bool {
    ||| '\u{9}' <= c <= '\u{d}'
    ||| c == ' '
    ||| c == '\u{85}'
    ||| c == '\u{a0}'
    ||| c == '\u{1680}'
    ||| '\u{2000}' <= c <= '\u{200a}'
    ||| c == '\u{2028}'
    ||| c == '\u{2029}'
    ||| c == '\u{202f}'
    ||| c == '\u{205f}'
    ||| c == '\u{3000}'
}

/// Whether `c` is whitespace.
pub fn is_whitespace(c: char) -> (r: bool)
    ensures
        r == is_white(c),
{
    ('\u{9}' <= c && c <= '\u{d}') || c == ' ' || c == '\u{85}' || c == '\u{a0}' || c == '\u{1680}'
        || ('\u{2000}' <= c && c <= '\u{200a}') || c == '\u{2028}' || c == '\u{2029}' || c
        == '\u{202f}' || c == '\u{205f}' || c == '\u{3000}'
}

/// `s` without its leading whitespace.
pub open spec fn trim_start(s: Text) -> Text
    decreases s.len(),
{
    if s.len() > 0 && is_white(s[0]) {
        trim_start(s.drop_first())
    } else {
        s
    }
}

/// `s` without its trailing whitespace.
pub open spec fn trim_end(s: Text) -> Text
    decreases s.len(),
{
    if s.len() > 0 && is_white(s.last()) {
        trim_end(s.drop_last())
    } else {
        s
    }
}

/// `s` without leading and trailing whitespace.
pub open spec fn trim(s: Text) -> Text {
    trim_end(trim_start(s))
}

/// The index of the first character at or after `from` that is no whitespace.
pub fn skip_white(v: &Vec<char>, from: usize) -> (r: usize)
    requires
        from <= v@.len(),
    ensures
        from <= r <= v@.len(),
        trim_start(v@.skip(from as int)) == v@.skip(r as int),
        r < v@.len() ==> !is_white(v@[r as int]),
        forall|i: int| from <= i < r ==> is_white(v@[i]),
{
    let mut i: usize = from;
    while i < v.len() && is_whitespace(v[i])
        invariant
            from <= i <= v@.len(),
            trim_start(v@.skip(from as int)) == trim_start(v@.skip(i as int)),
            forall|j: int| from <= j < i ==> is_white(v@[j]),
        decreases v@.len() - i,
    {
        assert(v@.skip(i as int).drop_first() =~= v@.skip(i + 1));
        i = i + 1;
    }
    i
}

/// `v` without its leading whitespace.
pub fn chars_trim_start(v: &Vec<char>) -> (r: Vec<char>)
    ensures
        r@ == trim_start(v@),
{
    let i = skip_white(v, 0);
    assert(v@.skip(0) =~= v@);
    assert(v@.subrange(i as int, v@.len() as int) =~= v@.skip(i as int));
    sub_chars(v, i, v.len())
}

/// `v` without its trailing whitespace.
pub fn chars_trim_end(v: &Vec<char>) -> (r: Vec<char>)
    ensures
        r@ == trim_end(v@),
{
    let mut n: usize = v.len();
    assert(v@.take(n as int) =~= v@);
    while n > 0 && is_whitespace(v[n - 1])
        invariant
            n <= v@.len(),
            trim_end(v@) == trim_end(v@.take(n as int)),
        decreases n,
    {
        assert(v@.take(n as int).drop_last() =~= v@.take(n - 1));
        n = n - 1;
    }
    assert(v@.subrange(0, n as int) =~= v@.take(n as int));
    sub_chars(v, 0, n)
}

/// `v` without leading and trailing whitespace.
pub fn chars_trim(v: &Vec<char>) -> (r: Vec<char>)
    ensures
        r@ == trim(v@),
{
    chars_trim_end(&chars_trim_start(v))
}

/// `s` without leading and trailing whitespace.
pub fn str_trim(s: &str) -> (r: Vec<char>)
    ensures
        r@ == trim(s@),
{
    chars_trim(&chars_of(s))
}

/// The length of the longest whitespace-free prefix of `s`.
pub open spec fn word_len(s: Text) -> int
    decreases s.len(),
{
    if s.len() > 0 && !is_white(s[0]) {
        1 + word_len(s.drop_first())
    } else {
        0
    }
}

/// The index of the first whitespace character at or after `from`.
pub fn word_end(v: &Vec<char>, from: usize) -> (r: usize)
    requires
        from <= v@.len(),
    ensures
        from <= r <= v@.len(),
        r - from == word_len(v@.skip(from as int)),
        r < v@.len() ==> is_white(v@[r as int]),
        forall|i: int| from <= i < r ==> !is_white(v@[i]),
{
    let mut i: usize = from;
    while i < v.len() && !is_whitespace(v[i])
        invariant
            from <= i <= v@.len(),
            word_len(v@.skip(from as int)) == i - from + word_len(v@.skip(i as int)),
            forall|j: int| from <= j < i ==> !is_white(v@[j]),
        decreases v@.len() - i,
    {
        assert(v@.skip(i as int).drop_first() =~= v@.skip(i + 1));
        i = i + 1;
    }
    i
}

pub proof fn lemma_word_len_bounds(s: Text)
    ensures
        0 <= word_len(s) <= s.len(),
    decreases s.len(),
{
    if s.len() > 0 && !is_white(s[0]) {
        lemma_word_len_bounds(s.drop_first());
    }
}

/// What is left without trailing whitespace is the start, and the rest is
/// whitespace.
pub proof fn lemma_trimmed_end(s: Text)
    ensures
        trim_end(s).len() <= s.len(),
        trim_end(s) == s.take(trim_end(s).len() as int),
        forall|i: int| trim_end(s).len() <= i < s.len() ==> is_white(#[trigger] s[i]),
    decreases s.len(),
{
    if s.len() > 0 && is_white(s.last()) {
        lemma_trimmed_end(s.drop_last());
        let n = trim_end(s).len() as int;
        assert(s.take(n) =~= s.drop_last().take(n));
        assert forall|i: int| n <= i < s.len() implies is_white(#[trigger] s[i]) by {
            if i < s.len() - 1 {
                assert(s.drop_last()[i] == s[i]);
            }
        }
    } else {
        assert(s.take(s.len() as int) =~= s);
    }
}

/// The leading whitespace is all that is taken off the start.
pub proof fn lemma_blanks_in_front(s: Text, k: int)
    requires
        0 <= k <= s.len(),
        forall|i: int| 0 <= i < k ==> is_white(#[trigger] s[i]),
        k < s.len() ==> !is_white(s[k]),
    ensures
        trim_start(s) == s.skip(k),
    decreases k,
{
    if k > 0 {
        assert(is_white(s[0]));
        let t = s.drop_first();
        assert forall|i: int| 0 <= i < k - 1 implies is_white(#[trigger] t[i]) by {
            assert(is_white(s[i + 1]));
        }
        lemma_blanks_in_front(t, k - 1);
        assert(t.skip(k - 1) =~= s.skip(k));
    } else {
        assert(s.skip(0) =~= s);
    }
}

pub proof fn lemma_trim_start_len(s: Text)
    ensures
        trim_start(s).len() <= s.len(),
        trim_start(s).len() > 0 ==> !is_white(trim_start(s)[0]),
    decreases s.len(),
{
    if s.len() > 0 && is_white(s[0]) {
        lemma_trim_start_len(s.drop_first());
    }
}

/// The maximal whitespace-free runs of `s`, in order.
pub open spec fn words(s: Text) -> Seq<Text>
    decreases s.len(),
{
    let t = trim_start(s);
    if t.len() == 0 {
        Seq::empty()
    } else {
        proof {
            lemma_trim_start_len(s);
            lemma_word_len_bounds(t);
            lemma_word_len_bounds(t.drop_first());
        }
        seq![t.take(word_len(t))] + words(t.skip(word_len(t)))
    }
}

// ── Sequences of strings ──

/// The character sequences held by a slice of strings.
pub open spec fn texts(v: Seq<String>) -> Seq<Text> {
    v.map_values(|s: String| s@)
}

/// `v` split at whitespace.
pub fn chars_words(v: &Vec<char>) -> (r: Vec<String>)
    ensures
        texts(r@) == words(v@),
{
    let mut out: Vec<String> = Vec::new();
    let mut i: usize = 0;
    assert(v@.skip(0) =~= v@);
    assert(texts(out@) + words(v@) =~= words(v@));
    loop
        invariant
            i <= v@.len(),
            texts(out@) + words(v@.skip(i as int)) == words(v@),
        ensures
            texts(out@) == words(v@),
        decreases v@.len() - i,
    {
        let b = skip_white(v, i);
        if b == v.len() {
            assert(words(v@.skip(i as int)) =~= Seq::empty());
            assert(texts(out@) + Seq::<Text>::empty() =~= texts(out@));
            break;
        }
        let e = word_end(v, b);
        let ghost t = v@.skip(b as int);
        let w = string_of(v, b, e);
        proof {
            assert(t.take(word_len(t)) =~= v@.subrange(b as int, e as int));
            assert(t.skip(word_len(t)) =~= v@.skip(e as int));
            assert(texts(out@.push(w)) =~= texts(out@).push(w@));
            assert(texts(out@) + (seq![w@] + words(v@.skip(e as int)))
                =~= texts(out@).push(w@) + words(v@.skip(e as int)));
            assert(e > b);
        }
        out.push(w);
        i = e;
    }
    out
}

/// `parts` put one after another with `sep` between neighbours.
pub open spec fn join(parts: Seq<Text>, sep: Text) -> Text
    decreases parts.len(),
{
    if parts.len() == 0 {
        Seq::empty()
    } else if parts.len() == 1 {
        parts[0]
    } else {
        join(parts.drop_last(), sep) + sep + parts.last()
    }
}

/// The strings `parts[from..]` joined with `sep`.
pub fn join_strings(parts: &Vec<String>, sep: &str) -> (r: String)
    ensures
        r@ == join(texts(parts@), sep@),
{
    let mut out: String = String::new();
    let mut i: usize = 0;
    assert(texts(parts@).take(0) =~= Seq::<Text>::empty());
    while i < parts.len()
        invariant
            i <= parts@.len(),
            out@ == join(texts(parts@).take(i as int), sep@),
        decreases parts@.len() - i,
    {
        if i > 0 {
            out.append(sep);
        }
        out.append(parts[i].as_str());
        proof {
            let next = texts(parts@).take(i + 1);
            assert(next.drop_last() =~= texts(parts@).take(i as int));
            assert(next.last() == parts@[i as int]@);
            if i == 0 {
                assert(Seq::<char>::empty() + parts@[0]@ =~= parts@[0]@);
            }
        }
        i = i + 1;
    }
    assert(texts(parts@).take(parts@.len() as int) =~= texts(parts@));
    out
}

/// A vector of one string.
pub fn texts1(a: String) -> (r: Vec<String>)
    ensures
        texts(r@) == seq![a@],
{
    let mut v: Vec<String> = Vec::new();
    v.push(a);
    assert(texts(v@) =~= seq![a@]);
    v
}

/// A vector of two strings.
pub fn texts2(a: String, b: String) -> (r: Vec<String>)
    ensures
        texts(r@) == seq![a@, b@],
{
    let mut v: Vec<String> = Vec::new();
    v.push(a);
    v.push(b);
    assert(texts(v@) =~= seq![a@, b@]);
    v
}

/// A vector of three strings.
pub fn texts3(a: String, b: String, c: String) -> (r: Vec<String>)
    ensures
        texts(r@) == seq![a@, b@, c@],
{
    let mut v: Vec<String> = Vec::new();
    v.push(a);
    v.push(b);
    v.push(c);
    assert(texts(v@) =~= seq![a@, b@, c@]);
    v
}

/// A vector of four strings.
pub fn texts4(a: String, b: String, c: String, d: String) -> (r: Vec<String>)
    ensures
        texts(r@) == seq![a@, b@, c@, d@],
{
    let mut v: Vec<String> = Vec::new();
    v.push(a);
    v.push(b);
    v.push(c);
    v.push(d);
    assert(texts(v@) =~= seq![a@, b@, c@, d@]);
    v
}

/// An optional string as a character sequence.
pub open spec fn opt_text(s: Option<String>) -> Option<Text> {
    match s {
        Some(t) => Some(t@),
        None => None,
    }
}

/// An optional string slice as a character sequence.
pub open spec fn opt_str(s: Option<&str>) -> Option<Text> {
    match s {
        Some(t) => Some(t@),
        None => None,
    }
}

/// A copy of an optional string.
pub fn clone_opt(s: &Option<String>) -> (r: Option<String>)
    ensures
        opt_text(r) == opt_text(*s),
{
    match s {
        Some(t) => Some(t.clone()),
        None => None,
    }
}

/// A copy of a vector of strings.
pub fn clone_strings(v: &Vec<String>) -> (r: Vec<String>)
    ensures
        r@ == v@,
{
    let mut out: Vec<String> = Vec::new();
    let mut i: usize = 0;
    while i < v.len()
        invariant
            i <= v@.len(),
            out@ == v@.take(i as int),
        decreases v@.len() - i,
    {
        out.push(v[i].clone());
        i = i + 1;
        assert(out@ =~= v@.take(i as int));
    }
    assert(out@ =~= v@);
    out
}

/// The index of the first string of `v` with the characters of `s`.
pub open spec fn index_of_text(v: Seq<Text>, s: Text) -> Option<int>
    decreases v.len(),
{
    if v.len() == 0 {
        None
    } else if v[0] == s {
        Some(0)
    } else {
        match index_of_text(v.drop_first(), s) {
            Some(i) => Some(i + 1),
            None => None,
        }
    }
}

/// Whether some string of `v` has the characters of `s`.
pub fn contains_string(v: &Vec<String>, s: &str) -> (r: bool)
    ensures
        r == texts(v@).contains(s@),
{
    let mut i: usize = 0;
    while i < v.len()
        invariant
            i <= v@.len(),
            forall|j: int| 0 <= j < i ==> v@[j]@ != s@,
        decreases v@.len() - i,
    {
        if str_eq(v[i].as_str(), s) {
            assert(texts(v@)[i as int] == s@);
            return true;
        }
        i = i + 1;
    }
    assert forall|j: int| 0 <= j < texts(v@).len() implies texts(v@)[j] != s@ by {
        assert(texts(v@)[j] == v@[j]@);
    }
    false
}

/// The index of the first `c` at or after `i`, or the length.
pub open spec fn find_from(s: Text, i: int, c: char) -> int
    decreases s.len() - i,
{
    if 0 <= i < s.len() && s[i] != c {
        find_from(s, i + 1, c)
    } else {
        i
    }
}

pub proof fn lemma_find_from(s: Text, i: int, c: char)
    requires
        0 <= i,
    ensures
        find_from(s, i, c) >= i,
        i <= s.len() ==> find_from(s, i, c) <= s.len(),
    decreases s.len() - i,
{
    if i < s.len() && s[i] != c {
        lemma_find_from(s, i + 1, c);
    }
}

/// The index of the first `c` at or after `from`, or the length.
pub fn find_char(v: &Vec<char>, from: usize, c: char) -> (r: usize)
    requires
        from <= v@.len(),
    ensures
        r == find_from(v@, from as int, c),
        from <= r <= v@.len(),
{
    let mut i: usize = from;
    while i < v.len() && v[i] != c
        invariant
            from <= i <= v@.len(),
            find_from(v@, from as int, c) == find_from(v@, i as int, c),
        decreases v@.len() - i,
    {
        i = i + 1;
    }
    i
}

/// `s` cut at every `c`: what stands before, between and behind them.
pub open spec fn split(s: Text, c: char) -> Seq<Text>
    decreases s.len(),
{
    let e = find_from(s, 0, c);
    proof {
        lemma_find_from(s, 0, c);
    }
    if e < s.len() {
        seq![s.take(e)] + split(s.skip(e + 1), c)
    } else {
        seq![s]
    }
}

/// Searching in what follows `i` finds the same place.
pub proof fn lemma_find_from_skip(s: Text, i: int, j: int, c: char)
    requires
        0 <= i,
        0 <= j,
        i + j <= s.len(),
    ensures
        find_from(s, i + j, c) == i + find_from(s.skip(i), j, c),
    decreases s.len() - i - j,
{
    if i + j < s.len() && s[i + j] != c {
        lemma_find_from_skip(s, i, j + 1, c);
    }
}

/// `v` cut at every `c`: what stands before, between and behind them.
pub fn chars_split(v: &Vec<char>, c: char) -> (r: Vec<String>)
    ensures
        texts(r@) == split(v@, c),
{
    let mut out: Vec<String> = Vec::new();
    let mut i: usize = 0;
    assert(v@.skip(0) =~= v@);
    assert(texts(out@) + split(v@, c) =~= split(v@, c));
    loop
        invariant
            i <= v@.len(),
            texts(out@) + split(v@.skip(i as int), c) == split(v@, c),
        decreases v@.len() - i,
    {
        let e = find_char(v, i, c);
        let w = string_of(v, i, e);
        proof {
            lemma_find_from_skip(v@, i as int, 0, c);
            assert(w@ =~= v@.skip(i as int).take(e - i));
            assert(texts(out@.push(w)) =~= texts(out@).push(w@));
        }
        if e == v.len() {
            proof {
                assert(w@ =~= v@.skip(i as int));
                assert(texts(out@) + seq![w@] =~= texts(out@).push(w@));
            }
            out.push(w);
            return out;
        }
        proof {
            let rest = split(v@.skip(e + 1), c);
            assert(v@.skip(i as int).skip(e - i + 1) =~= v@.skip(e + 1));
            assert(texts(out@) + (seq![w@] + rest) =~= texts(out@).push(w@) + rest);
        }
        out.push(w);
        i = e + 1;
    }
}

// ── Concatenation ──

pub fn concat2(a: &str, b: &str) -> (r: String)
    ensures
        r@ == a@ + b@,
{
    let mut s = a.to_owned();
    s.append(b);
    s
}

pub fn concat3(a: &str, b: &str, c: &str) -> (r: String)
    ensures
        r@ == a@ + b@ + c@,
{
    let mut s = a.to_owned();
    s.append(b);
    s.append(c);
    s
}

pub fn concat4(a: &str, b: &str, c: &str, d: &str) -> (r: String)
    ensures
        r@ == a@ + b@ + c@ + d@,
{
    let mut s = a.to_owned();
    s.append(b);
    s.append(c);
    s.append(d);
    s
}

pub fn concat5(a: &str, b: &str, c: &str, d: &str, e: &str) -> (r: String)
    ensures
        r@ == a@ + b@ + c@ + d@ + e@,
{
    let mut s = a.to_owned();
    s.append(b);
    s.append(c);
    s.append(d);
    s.append(e);
    s
}

pub fn concat7(a: &str, b: &str, c: &str, d: &str, e: &str, f: &str, g: &str) -> (r: String)
    ensures
        r@ == a@ + b@ + c@ + d@ + e@ + f@ + g@,
{
    let mut s = a.to_owned();
    s.append(b);
    s.append(c);
    s.append(d);
    s.append(e);
    s.append(f);
    s.append(g);
    s
}

// ── Decimal numbers ──

/// The decimal digit for `d`.
pub open spec fn digit_char(d: nat) -> char {
    if d == 0 {
        '0'
    } else if d == 1 {
        '1'
    } else if d == 2 {
        '2'
    } else if d == 3 {
        '3'
    } else if d == 4 {
        '4'
    } else if d == 5 {
        '5'
    } else if d == 6 {
        '6'
    } else if d == 7 {
        '7'
    } else if d == 8 {
        '8'
    } else {
        '9'
    }
}

/// The decimal digits of `n`, without leading zeros.
pub open spec fn decimal(n: nat) -> Text
    decreases n,
{
    if n < 10 {
        seq![digit_char(n)]
    } else {
        decimal(n / 10).push(digit_char(n % 10))
    }
}

fn digit_of(d: u64) -> (r: char)
    requires
        d < 10,
    ensures
        r == digit_char(d as nat),
{
    if d == 0 {
        '0'
    } else if d == 1 {
        '1'
    } else if d == 2 {
        '2'
    } else if d == 3 {
        '3'
    } else if d == 4 {
        '4'
    } else if d == 5 {
        '5'
    } else if d == 6 {
        '6'
    } else if d == 7 {
        '7'
    } else if d == 8 {
        '8'
    } else {
        '9'
    }
}

/// The decimal digits of `n`, without leading zeros.
pub fn decimal_u64(n: u64) -> (r: String)
    ensures
        r@ == decimal(n as nat),
    decreases n,
{
    if n < 10 {
        let mut s: String = String::new();
        s.push(digit_of(n));
        assert(s@ =~= seq![digit_char(n as nat)]);
        s
    } else {
        let mut s = decimal_u64(n / 10);
        s.push(digit_of(n % 10));
        s
    }
}

/// The decimal digits of `n + 1`, without leading zeros.
pub fn decimal_after(n: usize) -> (r: String)
    ensures
        r@ == decimal((n + 1) as nat),
{
    let next: u128 = n as u128 + 1;
    let mut s = decimal_u64((next / 10) as u64);
    if next < 10 {
        s = decimal_u64(next as u64);
    } else {
        s.push(digit_of((next % 10) as u64));
    }
    s
}

/// The decimal digits of `n`, without leading zeros.
pub fn decimal_usize(n: usize) -> (r: String)
    ensures
        r@ == decimal(n as nat),
{
    decimal_u64(n as u64)
}

/// Whether `c` is an ASCII digit.
pub open spec fn is_digit(c: char) -> bool {
    '0' <= c <= '9'
}

/// The number that the digits `s` denote.
pub open spec fn digits_value(s: Text) -> nat
    decreases s.len(),
{
    if s.len() == 0 {
        0
    } else {
        digits_value(s.drop_last()) * 10 + (s.last() as nat - '0' as nat) as nat
    }
}

/// Whether `s` is a non-empty sequence of ASCII digits.
pub open spec fn all_digits(s: Text) -> bool {
    s.len() > 0 && forall|i: int| 0 <= i < s.len() ==> is_digit(#[trigger] s[i])
}

/// The number denoted by `s`, if `s` is a non-empty sequence of ASCII digits
/// and the number is at most `max`.
pub open spec fn parse_unsigned(s: Text, max: nat) -> Option<nat> {
    if all_digits(s) && digits_value(s) <= max {
        Some(digits_value(s))
    } else {
        None
    }
}

/// A number is read back from its decimal digits.
pub proof fn lemma_decimal_read_back(n: nat, max: nat)
    requires
        n <= max,
    ensures
        all_digits(decimal(n)),
        digits_value(decimal(n)) == n,
        parse_unsigned(decimal(n), max) == Some(n),
    decreases n,
{
    let s = decimal(n);
    if n < 10 {
        assert(s.drop_last() =~= Seq::<char>::empty());
        assert(digits_value(s.drop_last()) == 0);
    } else {
        lemma_decimal_read_back(n / 10, max);
        assert(s.drop_last() =~= decimal(n / 10));
    }
    assert(s.last() as nat == '0' as nat + n % 10);
}

pub proof fn lemma_digits_prefix(s: Text, n: int)
    requires
        all_digits(s),
        0 <= n <= s.len(),
    ensures
        digits_value(s.take(n)) <= digits_value(s),
    decreases s.len() - n,
{
    if n == s.len() {
        assert(s.take(n) =~= s);
    } else {
        lemma_digits_prefix(s, n + 1);
        assert(s.take(n + 1).drop_last() =~= s.take(n));
    }
}

/// The number denoted by the digits `v`, if there is at least one, all are
/// ASCII digits, and the number is at most `max`.
pub fn parse_digits(v: &Vec<char>, max: u64) -> (r: Option<u64>)
    ensures
        match r {
            Some(n) => parse_unsigned(v@, max as nat) == Some(n as nat),
            None => parse_unsigned(v@, max as nat) is None,
        },
{
    if v.len() == 0 {
        return None;
    }
    let mut i: usize = 0;
    while i < v.len()
        invariant
            i <= v@.len(),
            forall|j: int| 0 <= j < i ==> is_digit(#[trigger] v@[j]),
        decreases v@.len() - i,
    {
        if !('0' <= v[i] && v[i] <= '9') {
            assert(!is_digit(v@[i as int]));
            return None;
        }
        i = i + 1;
    }
    assert(all_digits(v@));
    let mut n: u64 = 0;
    let mut k: usize = 0;
    assert(v@.take(0) =~= Seq::<char>::empty());
    while k < v.len()
        invariant
            k <= v@.len(),
            all_digits(v@),
            n == digits_value(v@.take(k as int)),
            n <= max,
        decreases v@.len() - k,
    {
        assert(is_digit(v@[k as int]));
        let d: u64 = (v[k] as u32 - '0' as u32) as u64;
        proof {
            lemma_digits_prefix(v@, k + 1);
            assert(v@.take(k + 1).drop_last() =~= v@.take(k as int));
            assert(v@.take(k + 1).last() == v@[k as int]);
            assert(digits_value(v@.take(k + 1)) == n * 10 + d);
        }
        if d > max || n > (max - d) / 10 {
            assert(n * 10 + d > max);
            return None;
        }
        n = n * 10 + d;
        k = k + 1;
    }
    assert(v@.take(k as int) =~= v@);
    Some(n)
}

// ── UTF-8 lengths ──

/// The number of bytes of the UTF-8 encoding of `c`.
pub open spec fn utf8_len(c: char) -> nat {
    if (c as u32) < 0x80 {
        1
    } else if (c as u32) < 0x800 {
        2
    } else if (c as u32) < 0x10000 {
        3
    } else {
        4
    }
}

/// The number of bytes of the UTF-8 encoding of `s`.
pub open spec fn byte_len(s: Text) -> nat
    decreases s.len(),
{
    if s.len() == 0 {
        0
    } else {
        byte_len(s.drop_last()) + utf8_len(s.last())
    }
}

/// The number of bytes of the UTF-8 encoding of `c`.
pub fn char_utf8_len(c: char) -> (r: usize)
    ensures
        r == utf8_len(c),
{
    let n: u32 = c as u32;
    if n < 0x80 {
        1
    } else if n < 0x800 {
        2
    } else if n < 0x10000 {
        3
    } else {
        4
    }
}

pub proof fn lemma_byte_len_one(c: char)
    ensures
        byte_len(seq![c]) == utf8_len(c),
{
    reveal_with_fuel(byte_len, 2);
    assert(seq![c].drop_last() =~= Seq::<char>::empty());
}

pub proof fn lemma_byte_len_add(a: Text, b: Text)
    ensures
        byte_len(a + b) == byte_len(a) + byte_len(b),
    decreases b.len(),
{
    if b.len() == 0 {
        assert(a + b =~= a);
    } else {
        assert((a + b).drop_last() =~= a + b.drop_last());
        lemma_byte_len_add(a, b.drop_last());
    }
}

pub proof fn lemma_byte_len_prefix(s: Text, i: int, j: int)
    requires
        0 <= i <= j <= s.len(),
    ensures
        byte_len(s.take(i)) <= byte_len(s.take(j)),
        byte_len(s.take(j)) - byte_len(s.take(i)) >= j - i,
    decreases j - i,
{
    if i < j {
        lemma_byte_len_prefix(s, i, j - 1);
        assert(s.take(j).drop_last() =~= s.take(j - 1));
    }
}

proof fn lemma_byte_len_encode(s: Text)
    ensures
        byte_len(s) == encode_utf8(s).len(),
    decreases s.len(),
{
    if s.len() > 0 {
        lemma_byte_len_encode(s.drop_first());
        assert(seq![s[0]] + s.drop_first() =~= s);
        lemma_byte_len_add(seq![s[0]], s.drop_first());
        lemma_byte_len_one(s[0]);
        vstd::utf8::char_is_scalar(s[0]);
        assert(encode_utf8(s) == encode_scalar(s[0] as u32) + encode_utf8(s.drop_first()));
    }
}

/// The number of bytes of the UTF-8 encoding of `s`.
pub fn str_byte_len(s: &str) -> (r: usize)
    ensures
        r == byte_len(s@),
{
    proof {
        lemma_byte_len_encode(s@);
    }
    s.as_bytes().len()
}

/// The index of the character of `s` that starts at byte offset `off`: the
/// number of characters before that offset.
pub open spec fn char_at_byte(s: Text, off: int) -> int
    decreases s.len(),
{
    if off <= 0 || s.len() == 0 {
        0
    } else {
        1 + char_at_byte(s.drop_first(), off - utf8_len(s[0]))
    }
}

pub proof fn lemma_char_at_byte_bounds(s: Text, off: int)
    ensures
        0 <= char_at_byte(s, off) <= s.len(),
    decreases s.len(),
{
    if off > 0 && s.len() > 0 {
        lemma_char_at_byte_bounds(s.drop_first(), off - utf8_len(s[0]));
    }
}

pub proof fn lemma_char_at_byte_monotone(s: Text, a: int, b: int)
    requires
        a <= b,
    ensures
        char_at_byte(s, a) <= char_at_byte(s, b),
    decreases s.len(),
{
    lemma_char_at_byte_bounds(s, b);
    if a > 0 && s.len() > 0 {
        lemma_char_at_byte_monotone(s.drop_first(), a - utf8_len(s[0]), b - utf8_len(s[0]));
    }
}

/// The offset of the `i`-th character names that character.
pub proof fn lemma_char_at_byte_of_prefix(s: Text, i: int)
    requires
        0 <= i <= s.len(),
    ensures
        char_at_byte(s, byte_len(s.take(i)) as int) == i,
    decreases i,
{
    if i > 0 {
        let rest = s.drop_first();
        assert(s.take(i) =~= seq![s[0]] + rest.take(i - 1));
        lemma_byte_len_add(seq![s[0]], rest.take(i - 1));
        lemma_byte_len_one(s[0]);
        lemma_char_at_byte_of_prefix(rest, i - 1);
    } else {
        assert(s.take(0) =~= Seq::<char>::empty());
    }
}

/// The index of the character of `v` that starts at byte offset `off`.
pub fn char_index_at_byte(v: &Vec<char>, off: usize) -> (r: usize)
    ensures
        r == char_at_byte(v@, off as int),
        r <= v@.len(),
{
    let mut i: usize = 0;
    let mut left: usize = off;
    assert(v@.skip(0) =~= v@);
    while i < v.len() && left > 0
        invariant
            i <= v@.len(),
            char_at_byte(v@, off as int) == i + char_at_byte(v@.skip(i as int), left as int),
        decreases v@.len() - i,
    {
        let n = char_utf8_len(v[i]);
        proof {
            assert(v@.skip(i as int).drop_first() =~= v@.skip(i + 1));
            reveal_with_fuel(char_at_byte, 2);
        }
        left = if left > n { left - n } else { 0 };
        i = i + 1;
    }
    i
}

/// The characters of `s` between two byte offsets.
pub open spec fn byte_slice(s: Text, from: int, to: int) -> Text {
    let a = char_at_byte(s, from);
    let b = char_at_byte(s, to);
    if a <= b {
        s.subrange(a, b)
    } else {
        Seq::empty()
    }
}

/// The characters of `v` between two byte offsets.
pub fn chars_byte_slice(v: &Vec<char>, from: usize, to: usize) -> (r: String)
    ensures
        r@ == byte_slice(v@, from as int, to as int),
{
    let a = char_index_at_byte(v, from);
    let b = char_index_at_byte(v, to);
    if a <= b {
        string_of(v, a, b)
    } else {
        String::new()
    }
}

} // verus!
