//! Paths: their last part, what is in front of it, and how they are shown.

use vstd::prelude::*;

use crate::text;
use crate::paths::{
    file_name_of, last_part_start, parent_of, path_trimmed, stem_before, with_new_extension,
};
use crate::text::Text;
use crate::tui::completion::{looking_in, own_context, tilde_filled, ContextModel};

verus! {

/// The name of something: no separator in it, and not one of the two names of directories.
pub open spec fn plain_name(name: Text) -> bool {
    &&& name.len() > 0
    &&& !name.contains('/')
    &&& name != seq!['.']
    &&& name != seq!['.', '.']
}

/// A directory that is written without a separator or a `.` part at its end.
pub open spec fn plain_dir(dir: Text) -> bool {
    &&& dir.len() > 0
    &&& dir.last() != '/'
    &&& !(dir.len() >= 2 && dir.last() == '.' && dir[dir.len() - 2] == '/')
}

proof fn lemma_part_start(dir: Text, name: Text)
    requires
        !name.contains('/'),
        dir.len() > 0 && dir.last() == '/',
    ensures
        last_part_start(dir + name) == dir.len(),
    decreases name.len(),
{
    let s = dir + name;
    if name.len() == 0 {
        assert(s =~= dir);
    } else {
        assert(name.contains(name[name.len() - 1]));
        assert(s.last() == name.last());
        assert(s.drop_last() =~= dir + name.drop_last());
        assert forall|c: char| name.drop_last().contains(c) implies name.contains(c) by {
            let k = name.drop_last().index_of(c);
            assert(name[k] == c);
        }
        lemma_part_start(dir, name.drop_last());
    }
}

proof fn lemma_trimmed_path(dir: Text, name: Text)
    requires
        plain_name(name),
    ensures
        path_trimmed(dir + seq!['/'] + name) == dir + seq!['/'] + name,
{
    let s = dir + seq!['/'] + name;
    let n = s.len() as int;
    assert(s[n - 1] == name[name.len() - 1]);
    assert(name.contains(name[name.len() - 1]));
    if name.len() == 1 {
        if name[0] == '.' {
            assert(name =~= seq!['.']);
        }
    } else {
        assert(s[n - 2] == name[name.len() - 2]);
        assert(name.contains(name[name.len() - 2]));
    }
}

/// A path below a directory has that directory in front of its last part, and its name
/// behind it.
pub proof fn lemma_path_taken_apart(dir: Text, name: Text)
    requires
        plain_dir(dir),
        plain_name(name),
    ensures
        parent_of(dir + seq!['/'] + name) == Some(dir),
        file_name_of(dir + seq!['/'] + name) == Some(name),
{
    let s = dir + seq!['/'] + name;
    lemma_trimmed_path(dir, name);
    let d = dir + seq!['/'];
    assert(s =~= d + name);
    lemma_part_start(d, name);
    assert(s.take(d.len() as int) =~= d);
    assert(d.last() == '/');
    assert(d.drop_last() =~= dir);
    assert(path_trimmed(dir) == dir);
    assert(path_trimmed(d) == dir);
    assert(s.skip(d.len() as int) =~= name);
    reveal_strlit(".");
    reveal_strlit("..");
    assert("."@ =~= seq!['.'] && ".."@ =~= seq!['.', '.']);
    assert(s.len() > 1);
}

proof fn lemma_stem(stem: Text, ext: Text, n: int)
    requires
        stem.len() > 0,
        !ext.contains('.'),
        stem.len() < n <= stem.len() + 1 + ext.len(),
    ensures
        stem_before(stem + seq!['.'] + ext, n) == stem.len(),
    decreases n,
{
    let name = stem + seq!['.'] + ext;
    if n - 1 > stem.len() {
        assert(name[n - 1] == ext[n - 2 - stem.len()]);
        assert(ext.contains(ext[n - 2 - stem.len()]));
        lemma_stem(stem, ext, n - 1);
    } else {
        assert(name[n - 1] == '.');
    }
}

proof fn lemma_no_dot(name: Text, n: int)
    requires
        !name.contains('.'),
        0 <= n <= name.len(),
    ensures
        stem_before(name, n) == name.len(),
    decreases n,
{
    if n > 1 {
        assert(name.contains(name[n - 1]));
        lemma_no_dot(name, n - 1);
    }
}

/// Another extension takes the place of the one that is there, and stands behind a name that
/// has none.
pub proof fn lemma_extension_replaced(dir: Text, stem: Text, ext: Text, new: Text)
    requires
        plain_dir(dir),
        plain_name(stem),
        !ext.contains('/') && !ext.contains('.'),
        !stem.contains('.'),
    ensures
        with_new_extension(dir + seq!['/'] + stem, new) == dir + seq!['/'] + stem + seq!['.'] + new,
        with_new_extension(dir + seq!['/'] + stem + seq!['.'] + ext, new) == dir + seq!['/'] + stem
            + seq!['.'] + new,
{
    reveal_strlit(".");
    assert("."@ =~= seq!['.']);
    let d = dir + seq!['/'];
    let bare = d + stem;
    lemma_path_taken_apart(dir, stem);
    lemma_trimmed_path(dir, stem);
    lemma_part_start(d, stem);
    lemma_no_dot(stem, stem.len() as int);
    assert(bare.take((d.len() + stem.len()) as int) =~= bare);
    let name = stem + seq!['.'] + ext;
    assert(name[0] == stem[0]);
    assert(stem.contains(stem[0]));
    assert forall|c: char| name.contains(c) implies stem.contains(c) || ext.contains(c) || c == '.' by {
        let k = name.index_of(c);
        if k < stem.len() {
            assert(stem[k] == c);
        } else if k > stem.len() {
            assert(ext[k - stem.len() - 1] == c);
        }
    }
    assert(name != seq!['.']) by {
        assert(name[0] != '.');
    }
    assert(name != seq!['.', '.']) by {
        assert(name[0] != '.');
    }
    let full = dir + seq!['/'] + stem + seq!['.'] + ext;
    assert(full =~= d + name);
    lemma_path_taken_apart(dir, name);
    lemma_trimmed_path(dir, name);
    lemma_part_start(d, name);
    lemma_stem(stem, ext, name.len() as int);
    assert(full.take((d.len() + stem.len()) as int) =~= d + stem);
}

// ── Where completion looks ──

/// What is typed behind the last separator is looked for in the directory in front of it,
/// and what is offered begins with what was typed of it.
pub proof fn lemma_completion_in_a_directory(dir: Text, name: Text, current: Text)
    requires
        plain_dir(dir),
        plain_name(name),
    ensures
        ({
            let typed = dir + seq!['/'] + name;
            let c = looking_in(own_context(typed, typed), current);
            &&& c.base_dir == dir
            &&& c.partial == name
            &&& c.display_prefix == dir + seq!['/']
        }),
{
    let typed = dir + seq!['/'] + name;
    let d = dir + seq!['/'];
    lemma_path_taken_apart(dir, name);
    assert(typed =~= d + name);
    lemma_part_start(d, name);
    assert(typed.take(d.len() as int) =~= d);
    reveal_strlit("/");
    assert("/"@ =~= seq!['/']);
    let n = typed.len() as int;
    if text::ends_with(typed, "/"@) {
        assert(typed.subrange(n - 1, n)[0] == '/');
        assert(typed[n - 1] == name[name.len() - 1]);
        assert(name.contains(name[name.len() - 1]));
    }
}

/// A directory that is typed with its separator is looked into; what names no directory is
/// looked for in the current one.
pub proof fn lemma_completion_of_a_directory(dir: Text, current: Text, c: ContextModel)
    requires
        dir.len() > 0,
    ensures
        ({
            let typed = dir + seq!['/'];
            let found = looking_in(own_context(typed, typed), current);
            &&& found.base_dir == typed
            &&& found.partial.len() == 0
            &&& found.display_prefix == typed
        }),
        c.base_dir.len() == 0 ==> looking_in(c, current).base_dir == current && looking_in(
            c,
            current,
        ).partial == c.partial,
        c.base_dir.len() > 0 ==> looking_in(c, current) == c,
{
    let typed = dir + seq!['/'];
    reveal_strlit("/");
    assert("/"@ =~= seq!['/']);
    let n = typed.len() as int;
    assert(typed.subrange(n - 1, n) =~= seq!['/']);
}

/// `~` is the home directory here too.
pub proof fn lemma_home_filled_in(home: Text, rest: Text, typed: Text)
    ensures
        tilde_filled(seq!['~'], home) == home,
        tilde_filled(seq!['~', '/'] + rest, home) == home + seq!['/'] + rest,
        typed.len() == 0 || typed[0] != '~' ==> tilde_filled(typed, home) == typed,
{
    reveal_strlit("~");
    reveal_strlit("~/");
    reveal_strlit("/");
    assert("~"@ =~= seq!['~'] && "~/"@ =~= seq!['~', '/'] && "/"@ =~= seq!['/']);
    let p = seq!['~', '/'] + rest;
    assert(p.subrange(0, 2) =~= "~/"@);
    assert(p.skip(2) =~= rest);
    assert(p.len() >= 2 && "~"@.len() == 1);
    if typed.len() > 0 && typed[0] != '~' && text::starts_with(typed, "~/"@) {
        assert(typed.subrange(0, 2)[0] == '~');
    }
    if typed.len() > 0 && typed[0] != '~' {
        assert(typed != "~"@);
    }
}

} // verus!
