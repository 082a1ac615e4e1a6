//! Parts of paths, on their text.

use vstd::prelude::*;
use vstd::string::*;

use crate::runtime_env::{path_model, path_parts};
use crate::text;
use crate::text::Text;

verus! {

/// A path without the separators and `.` parts at its end; a separator or a `.`
/// in front stays.
pub open spec fn path_trimmed(s: Text) -> Text
    decreases s.len(),
{
    if s.len() >= 2 && (s.last() == '/' || (s.last() == '.' && s[s.len() - 2] == '/')) {
        path_trimmed(s.drop_last())
    } else {
        s
    }
}

/// Where the last part of a path starts.
pub open spec fn last_part_start(s: Text) -> int
    decreases s.len(),
{
    if s.len() == 0 || s.last() == '/' {
        s.len() as int
    } else {
        last_part_start(s.drop_last())
    }
}

proof fn lemma_last_part_start(s: Text)
    ensures
        0 <= last_part_start(s) <= s.len(),
        last_part_start(s) > 0 ==> s[last_part_start(s) - 1] == '/',
    decreases s.len(),
{
    if s.len() > 0 && s.last() != '/' {
        lemma_last_part_start(s.drop_last());
    }
}

/// The path without its last part; none of an empty path and of the root.
pub open spec fn parent_of(s: Text) -> Option<Text> {
    let t = path_trimmed(s);
    if t.len() == 0 || t == seq!['/'] {
        None
    } else {
        Some(path_trimmed(t.take(last_part_start(t))))
    }
}

/// The last part, if it names something.
pub open spec fn file_name_of(s: Text) -> Option<Text> {
    let t = path_trimmed(s);
    let name = t.skip(last_part_start(t));
    if name.len() == 0 || name == "."@ || name == ".."@ {
        None
    } else {
        Some(name)
    }
}

fn trimmed_len(v: &Vec<char>, len: usize) -> (r: usize)
    requires
        len <= v@.len(),
    ensures
        r <= len,
        v@.take(r as int) == path_trimmed(v@.take(len as int)),
{
    let mut n: usize = len;
    while n >= 2 && (v[n - 1] == '/' || (v[n - 1] == '.' && v[n - 2] == '/'))
        invariant
            n <= len <= v@.len(),
            path_trimmed(v@.take(n as int)) == path_trimmed(v@.take(len as int)),
        decreases n,
    {
        assert(v@.take(n as int).drop_last() =~= v@.take(n - 1));
        n = n - 1;
    }
    n
}

fn part_start(v: &Vec<char>, len: usize) -> (r: usize)
    requires
        len <= v@.len(),
    ensures
        r <= len,
        r == last_part_start(v@.take(len as int)),
{
    let mut n: usize = len;
    while n > 0 && v[n - 1] != '/'
        invariant
            n <= len <= v@.len(),
            last_part_start(v@.take(n as int)) == last_part_start(v@.take(len as int)),
        decreases n,
    {
        assert(v@.take(n as int).drop_last() =~= v@.take(n - 1));
        n = n - 1;
    }
    n
}

/// The path without its last part.
pub fn path_parent(path: &str) -> (r: Option<String>)
    ensures
        text::opt_text(r) == parent_of(path@),
{
    let v = text::chars_of(path);
    assert(v@.take(v@.len() as int) =~= v@);
    let n = trimmed_len(&v, v.len());
    let ghost t = v@.take(n as int);
    if n == 0 || (n == 1 && v[0] == '/') {
        assert(n == 1 ==> t =~= seq!['/']);
        return None;
    }
    proof {
        if t == seq!['/'] {
            assert(t[0] == v@[0]);
            assert(t.len() == 1);
        }
        lemma_last_part_start(t);
    }
    let k = part_start(&v, n);
    assert(v@.take(k as int) =~= t.take(k as int));
    let m = trimmed_len(&v, k);
    let r = text::string_of(&v, 0, m);
    assert(r@ =~= v@.take(m as int));
    Some(r)
}

/// The last part of a path.
pub fn path_file_name(path: &str) -> (r: Option<String>)
    ensures
        text::opt_text(r) == file_name_of(path@),
{
    let v = text::chars_of(path);
    assert(v@.take(v@.len() as int) =~= v@);
    let n = trimmed_len(&v, v.len());
    let ghost t = v@.take(n as int);
    proof {
        lemma_last_part_start(t);
    }
    let k = part_start(&v, n);
    let name = text::string_of(&v, k, n);
    assert(name@ =~= t.skip(k as int));
    if n == k || text::str_eq(name.as_str(), ".") || text::str_eq(name.as_str(), "..") {
        None
    } else {
        Some(name)
    }
}

// ── Extensions ──

/// How long a name is without its extension; a dot in front starts none.
pub open spec fn stem_len(name: Text) -> int
    decreases name.len(),
{
    stem_before(name, name.len() as int)
}

/// The last dot among the first `n` characters but the first, or the length.
pub open spec fn stem_before(name: Text, n: int) -> int
    decreases n,
{
    if n <= 1 || n > name.len() {
        name.len() as int
    } else if name[n - 1] == '.' {
        n - 1
    } else {
        stem_before(name, n - 1)
    }
}

/// A path with another extension.
pub open spec fn with_new_extension(path: Text, extension: Text) -> Text {
    match file_name_of(path) {
        Some(name) => {
            let t = path_trimmed(path);
            t.take(last_part_start(t) + stem_len(name)) + "."@ + extension
        },
        None => path,
    }
}

/// A path with another extension, which is not empty.
pub fn path_with_extension(path: &str, extension: &str) -> (r: String)
    ensures
        r@ == with_new_extension(path@, extension@),
{
    let name = match path_file_name(path) {
        Some(name) => text::chars_of(name.as_str()),
        None => {
            return path.to_owned();
        },
    };
    let v = text::chars_of(path);
    assert(v@.take(v@.len() as int) =~= v@);
    let n = trimmed_len(&v, v.len());
    let ghost t = v@.take(n as int);
    let k = part_start(&v, n);
    proof {
        lemma_last_part_start(t);
        assert(t.skip(k as int).len() == n - k);
    }
    let mut i: usize = name.len();
    while i > 1 && name[i - 1] != '.'
        invariant
            i <= name@.len(),
            stem_before(name@, name@.len() as int) == stem_before(name@, i as int),
        decreases i,
    {
        i = i - 1;
    }
    let stem: usize = if i > 1 {
        i - 1
    } else {
        name.len()
    };
    let head = text::string_of(&v, 0, k + stem);
    assert(head@ =~= t.take(k + stem));
    text::concat3(head.as_str(), ".", extension)
}

// ── What follows a prefix ──

/// A path without the separators and `.` parts in front.
pub open spec fn path_body(s: Text) -> Text
    decreases s.len(),
{
    if s.len() > 0 && s[0] == '/' {
        path_body(s.skip(1))
    } else if s.len() > 0 && s[0] == '.' && (s.len() == 1 || s[1] == '/') {
        path_body(s.skip(1))
    } else {
        s
    }
}

/// What follows these parts in a path.
pub open spec fn after_parts(s: Text, parts: Seq<Text>, first: bool) -> Option<Text>
    decreases parts.len(),
{
    let t = if first && s.len() > 0 && s[0] != '/' {
        s
    } else {
        path_body(s)
    };
    if parts.len() == 0 {
        Some(path_trimmed(t))
    } else {
        let n = text::find_from(t, 0, '/');
        if t.len() > 0 && t.take(n) == parts[0] {
            after_parts(t.skip(n), parts.skip(1), false)
        } else {
            None
        }
    }
}

/// What follows a base in a path that starts with it, part by part.
pub open spec fn path_after(path: Text, base: Text) -> Option<Text> {
    let model = path_model(base);
    if model.rooted != path_model(path).rooted {
        None
    } else {
        after_parts(path, model.parts, true)
    }
}

fn skip_to_body(v: &Vec<char>, from: usize) -> (r: usize)
    requires
        from <= v@.len(),
    ensures
        from <= r <= v@.len(),
        v@.skip(r as int) == path_body(v@.skip(from as int)),
{
    let mut n: usize = from;
    while n < v.len() && (v[n] == '/' || (v[n] == '.' && (n + 1 == v.len() || v[n + 1] == '/')))
        invariant
            from <= n <= v@.len(),
            path_body(v@.skip(n as int)) == path_body(v@.skip(from as int)),
        decreases v@.len() - n,
    {
        assert(v@.skip(n as int).skip(1) =~= v@.skip(n + 1));
        n = n + 1;
    }
    n
}

/// What follows a base in a path that starts with it, part by part.
pub fn path_strip_prefix(path: &str, base: &str) -> (r: Option<String>)
    ensures
        text::opt_text(r) == path_after(path@, base@),
{
    let (rooted, parts) = path_parts(base);
    let v = text::chars_of(path);
    if rooted != (v.len() > 0 && v[0] == '/') {
        return None;
    }
    let ghost all = text::texts(parts@);
    let mut at: usize = 0;
    let mut i: usize = 0;
    assert(v@.skip(0) =~= v@);
    assert(all.skip(0) =~= all);
    while i < parts.len()
        invariant
            i <= parts@.len(),
            all == text::texts(parts@),
            at <= v@.len(),
            v@ == path@,
            path_after(path@, base@) == after_parts(v@.skip(at as int), all.skip(i as int), i == 0),
            i == 0 ==> at == 0,
        decreases parts@.len() - i,
    {
        let first = i == 0;
        let ghost s = v@.skip(at as int);
        let from: usize = if first && v.len() > 0 && v[0] != '/' {
            0
        } else {
            skip_to_body(&v, at)
        };
        let ghost t = v@.skip(from as int);
        let end = text::find_char(&v, from, '/');
        let part = text::string_of(&v, from, end);
        proof {
            let n = text::find_from(t, 0, '/');
            text::lemma_find_from_skip(v@, from as int, 0, '/');
            assert(part@ =~= t.take(n));
            assert(all.skip(i as int)[0] == parts@[i as int]@);
            assert(t.skip(n) =~= v@.skip(end as int));
            assert(all.skip(i as int).skip(1) =~= all.skip(i + 1));
        }
        if from == v.len() || !text::str_eq(part.as_str(), parts[i].as_str()) {
            return None;
        }
        at = end;
        i = i + 1;
    }
    assert(all.skip(i as int).len() == 0);
    let first = i == 0;
    let from: usize = if first && v.len() > 0 && v[0] != '/' {
        0
    } else {
        skip_to_body(&v, at)
    };
    let rest = text::sub_chars(&v, from, v.len());
    assert(rest@ =~= v@.skip(from as int));
    assert(rest@.take(rest@.len() as int) =~= rest@);
    let n = trimmed_len(&rest, rest.len());
    let r = text::string_of(&rest, 0, n);
    assert(r@ =~= rest@.take(n as int));
    Some(r)
}

} // verus!
