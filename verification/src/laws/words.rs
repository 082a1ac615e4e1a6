//! Words of a command line: which values stand in for variables and for `~`, and which
//! variables a job sees.

use vstd::prelude::*;

use crate::text;
use crate::laws::texts::{lemma_one_part, lemma_split_at_a_mark};
use crate::runtime_env::{
    distinct_paths, has_path, lemma_distinct_paths, merged_env, path_like, path_model,
    significant_parts,
};
use crate::text::Text;
use crate::word_expansion::{
    expanded_from, joined_path, name_end, tilde_expanded, valid_name, var_continue, var_start,
    vars_expanded,
};

verus! {

proof fn lemma_name_end_shift(a: Text, b: Text, i: int)
    requires
        0 <= i <= b.len(),
    ensures
        name_end(a + b, a.len() + i) == a.len() + name_end(b, i),
    decreases b.len() - i,
{
    if i < b.len() {
        assert((a + b)[a.len() + i] == b[i]);
        if var_continue(b[i]) {
            lemma_name_end_shift(a, b, i + 1);
        }
    }
}

proof fn lemma_find_shift(a: Text, b: Text, i: int, c: char)
    requires
        0 <= i <= b.len(),
    ensures
        text::find_from(a + b, a.len() + i, c) == a.len() + text::find_from(b, i, c),
    decreases b.len() - i,
{
    if i < b.len() {
        assert((a + b)[a.len() + i] == b[i]);
        if b[i] != c {
            lemma_find_shift(a, b, i + 1, c);
        }
    }
}

/// What stands in front of a place does not matter behind it.
proof fn lemma_expanded_shift(a: Text, b: Text, i: int, env: Map<Text, Text>)
    requires
        0 <= i <= b.len(),
    ensures
        expanded_from(a + b, a.len() + i, env) == expanded_from(b, i, env),
    decreases b.len() - i,
{
    let w = a + b;
    let n = a.len();
    if i < b.len() {
        assert(w[n + i] == b[i]);
        if i + 1 < b.len() {
            assert(w[n + i + 1] == b[i + 1]);
        }
        if b[i] == '\\' && i + 1 < b.len() && b[i + 1] == '$' {
            lemma_expanded_shift(a, b, i + 2, env);
        } else if b[i] == '$' && i + 1 < b.len() && b[i + 1] == '{' {
            lemma_find_shift(a, b, i + 2, '}');
            text::lemma_find_from(b, i + 2, '}');
            let end = text::find_from(b, i + 2, '}');
            assert(w.subrange(n + i + 2, n + end) =~= b.subrange(i + 2, end));
            if end < b.len() {
                lemma_expanded_shift(a, b, end + 1, env);
            }
        } else if b[i] == '$' && i + 1 < b.len() && var_start(b[i + 1]) {
            lemma_name_end_shift(a, b, i + 1);
            crate::word_expansion::lemma_name_end(b, i + 1);
            let end = name_end(b, i + 1);
            assert(w.subrange(n + i + 1, n + end) =~= b.subrange(i + 1, end));
            lemma_expanded_shift(a, b, end, env);
        } else {
            lemma_expanded_shift(a, b, i + 1, env);
        }
    }
}

proof fn lemma_name_end_at(name: Text, rest: Text, i: int)
    requires
        0 <= i <= name.len(),
        forall|j: int| i <= j < name.len() ==> var_continue(#[trigger] name[j]),
        rest.len() == 0 || !var_continue(rest[0]),
    ensures
        name_end(name + rest, i) == name.len(),
    decreases name.len() - i,
{
    let w = name + rest;
    if i < name.len() {
        assert(w[i] == name[i]);
        lemma_name_end_at(name, rest, i + 1);
    } else if rest.len() > 0 {
        assert(w[i] == rest[0]);
    }
}

/// `$NAME` stands for the value of the variable, and for nothing where it is not set; what
/// follows the name is expanded by itself.
pub proof fn lemma_variable_expanded(name: Text, rest: Text, env: Map<Text, Text>)
    requires
        valid_name(name),
        rest.len() == 0 || !var_continue(rest[0]),
    ensures
        env.contains_key(name) ==> vars_expanded(seq!['$'] + name + rest, env) == env[name]
            + vars_expanded(rest, env),
        !env.contains_key(name) ==> vars_expanded(seq!['$'] + name + rest, env) == vars_expanded(
            rest,
            env,
        ),
{
    let w = seq!['$'] + name + rest;
    let a = seq!['$'] + name;
    assert(w[0] == '$' && w[1] == name[0]);
    assert(w =~= seq!['$'] + (name + rest));
    assert forall|j: int| 0 <= j < name.len() implies var_continue(#[trigger] name[j]) by {
        if j == 0 {
            assert(var_start(name[0]));
        }
    }
    lemma_name_end_shift(seq!['$'], name + rest, 0);
    lemma_name_end_at(name, rest, 0);
    assert(name_end(w, 1) == 1 + name.len());
    assert(w.subrange(1, 1 + name.len() as int) =~= name);
    assert(w =~= a + rest);
    lemma_expanded_shift(a, rest, 0, env);
    assert(Seq::<char>::empty() + vars_expanded(rest, env) =~= vars_expanded(rest, env));
}

/// `${NAME}` stands for the same, whatever follows it.
pub proof fn lemma_braced_variable_expanded(name: Text, rest: Text, env: Map<Text, Text>)
    requires
        valid_name(name),
    ensures
        env.contains_key(name) ==> vars_expanded(seq!['$', '{'] + name + seq!['}'] + rest, env)
            == env[name] + vars_expanded(rest, env),
        !env.contains_key(name) ==> vars_expanded(seq!['$', '{'] + name + seq!['}'] + rest, env)
            == vars_expanded(rest, env),
{
    let head = seq!['$', '{'];
    let w = head + name + seq!['}'] + rest;
    let a = head + name + seq!['}'];
    assert(w[0] == '$' && w[1] == '{');
    let tail = name + (seq!['}'] + rest);
    assert(w =~= head + tail);
    lemma_find_shift(head, tail, 0, '}');
    lemma_find_brace(name, rest, 0);
    assert(text::find_from(w, 2, '}') == 2 + name.len());
    assert(w.subrange(2, 2 + name.len() as int) =~= name);
    assert(w =~= a + rest);
    lemma_expanded_shift(a, rest, 0, env);
    assert(Seq::<char>::empty() + vars_expanded(rest, env) =~= vars_expanded(rest, env));
}

proof fn lemma_find_brace(name: Text, rest: Text, i: int)
    requires
        valid_name(name),
        0 <= i <= name.len(),
    ensures
        text::find_from(name + (seq!['}'] + rest), i, '}') == name.len(),
    decreases name.len() - i,
{
    let w = name + (seq!['}'] + rest);
    if i < name.len() {
        assert(w[i] == name[i]);
        if i == 0 {
            assert(var_start(name[0]));
        } else {
            assert(var_continue(name[i]));
        }
        lemma_find_brace(name, rest, i + 1);
    } else {
        assert(w[i] == '}');
    }
}

/// A `$` behind a backslash stands for itself, and so does every character that begins no
/// variable.
pub proof fn lemma_other_characters_stay(c: char, rest: Text, env: Map<Text, Text>)
    ensures
        vars_expanded(seq!['\\', '$'] + rest, env) == seq!['$'] + vars_expanded(rest, env),
        c != '$' && (c != '\\' || rest.len() == 0 || rest[0] != '$') ==> vars_expanded(
            seq![c] + rest,
            env,
        ) == seq![c] + vars_expanded(rest, env),
        c == '$' && (rest.len() == 0 || (rest[0] != '{' && !var_start(rest[0]))) ==> vars_expanded(
            seq![c] + rest,
            env,
        ) == seq![c] + vars_expanded(rest, env),
        vars_expanded(Seq::empty(), env) == Seq::<char>::empty(),
{
    let a = seq!['\\', '$'];
    assert((a + rest)[0] == '\\' && (a + rest)[1] == '$');
    lemma_expanded_shift(a, rest, 0, env);
    let b = seq![c];
    assert((b + rest)[0] == c);
    if rest.len() > 0 {
        assert((b + rest)[1] == rest[0]);
    }
    lemma_expanded_shift(b, rest, 0, env);
}

/// A lone `~` is the home directory, and `~/` a path below it; every other word stays, and
/// so does every word where no home directory is set.
pub proof fn lemma_home_expanded(rest: Text, w: Text, env: Map<Text, Text>)
    ensures
        env.contains_key("HOME"@) ==> {
            let home = env["HOME"@];
            &&& tilde_expanded("~"@, env) == home
            &&& home.len() > 0 && home.last() != '/' && (rest.len() == 0 || rest[0] != '/')
                ==> tilde_expanded(seq!['~', '/'] + rest, env) == home + seq!['/'] + rest
            &&& home.len() > 0 && home.last() == '/' && (rest.len() == 0 || rest[0] != '/')
                ==> tilde_expanded(seq!['~', '/'] + rest, env) == home + rest
        },
        w.len() == 0 || w[0] != '~' || (w.len() > 1 && w[1] != '/') ==> tilde_expanded(w, env)
            == w,
        !env.contains_key("HOME"@) ==> tilde_expanded(w, env) == w,
{
    reveal_strlit("~");
    reveal_strlit("~/");
    reveal_strlit("/");
    assert("~"@ =~= seq!['~'] && "~/"@ =~= seq!['~', '/'] && "/"@ =~= seq!['/']);
    let p = seq!['~', '/'] + rest;
    assert(p.subrange(0, 2) =~= "~/"@);
    assert(p.skip(2) =~= rest);
    assert("~"@.len() == 1);
    if w.len() > 1 && text::starts_with(w, "~/"@) {
        assert(w.subrange(0, 2)[0] == '~' && w.subrange(0, 2)[1] == '/');
    }
    if w == "~"@ {
        assert(w[0] == '~' && w.len() == 1);
    }
}

/// A path below a directory has one separator between the two; a path from the root stays.
pub proof fn lemma_paths_joined(base: Text, rest: Text)
    ensures
        rest.len() > 0 && rest[0] == '/' ==> joined_path(base, rest) == rest,
        base.len() > 0 && base.last() != '/' && (rest.len() == 0 || rest[0] != '/') ==> joined_path(
            base,
            rest,
        ) == base + seq!['/'] + rest,
        base.len() > 0 && base.last() == '/' && (rest.len() == 0 || rest[0] != '/') ==> joined_path(
            base,
            rest,
        ) == base + rest,
        base.len() == 0 ==> joined_path(base, rest) == rest,
{
    reveal_strlit("/");
    assert("/"@ =~= seq!['/']);
    assert(Seq::<char>::empty() + rest =~= rest);
}

// ── The environment of a job ──

/// A variable of one side alone has the value of that side.
pub proof fn lemma_one_sided_variables(snapshot: Map<Text, Text>, ambient: Map<Text, Text>, key: Text)
    ensures
        merged_env(snapshot, ambient).contains_key(key) <==> snapshot.contains_key(key)
            || ambient.contains_key(key),
        snapshot.contains_key(key) && !ambient.contains_key(key) ==> merged_env(
            snapshot,
            ambient,
        )[key] == snapshot[key],
        ambient.contains_key(key) && !snapshot.contains_key(key) ==> merged_env(
            snapshot,
            ambient,
        )[key] == ambient[key],
{
}

/// A variable of both sides whose name ends in `PATH` has the paths of both, those of the
/// snapshot in front.
pub proof fn lemma_paths_of_both_sides(
    snapshot: Map<Text, Text>,
    ambient: Map<Text, Text>,
    stem: Text,
)
    requires
        snapshot.contains_key(stem + "PATH"@),
        ambient.contains_key(stem + "PATH"@),
        snapshot[stem + "PATH"@].len() > 0,
        ambient[stem + "PATH"@].len() > 0,
    ensures
        ({
            let key = stem + "PATH"@;
            let both = snapshot[key] + seq![':'] + ambient[key];
            merged_env(snapshot, ambient)[key] == text::join(
                distinct_paths(text::split(both, ':')),
                ":"@,
            )
        }),
{
    let key = stem + "PATH"@;
    assert(key.subrange(key.len() - "PATH"@.len(), key.len() as int) =~= "PATH"@);
    lemma_split_at_a_mark(snapshot[key], ambient[key], ':');
}

/// A list in which no path occurs twice keeps all of them in their order.
pub proof fn lemma_different_paths_kept(paths: Seq<Text>)
    requires
        forall|i: int, j: int|
            0 <= i < j < paths.len() ==> path_model(#[trigger] paths[i]) != path_model(
                #[trigger] paths[j],
            ),
    ensures
        distinct_paths(paths) == paths,
    decreases paths.len(),
{
    if paths.len() > 0 {
        let front = paths.drop_last();
        assert forall|i: int, j: int| 0 <= i < j < front.len() implies path_model(
            #[trigger] front[i],
        ) != path_model(#[trigger] front[j]) by {
            assert(front[i] == paths[i] && front[j] == paths[j]);
        }
        lemma_different_paths_kept(front);
        if has_path(front, paths.last()) {
            let i = choose|i: int|
                0 <= i < front.len() && path_model(#[trigger] front[i]) == path_model(paths.last());
            assert(front[i] == paths[i]);
            assert(paths.last() == paths[paths.len() - 1]);
        }
        assert(front.push(paths.last()) =~= paths);
    } else {
        assert(distinct_paths(paths) =~= paths);
    }
}

/// A path that occurred before does not occur again, in whatever spelling.
pub proof fn lemma_second_spelling_dropped(paths: Seq<Text>, i: int, path: Text)
    requires
        0 <= i < paths.len(),
        path_model(paths[i]) == path_model(path),
    ensures
        distinct_paths(paths.push(path)) == distinct_paths(paths),
{
    lemma_distinct_paths(paths);
    assert(paths.push(path).drop_last() =~= paths);
    lemma_path_held(paths, i);
    let k = choose|k: int|
        0 <= k < distinct_paths(paths).len() && path_model(#[trigger] distinct_paths(paths)[k])
            == path_model(paths[i]);
    assert(path_model(distinct_paths(paths)[k]) == path_model(path));
}

proof fn lemma_path_held(paths: Seq<Text>, i: int)
    requires
        0 <= i < paths.len(),
    ensures
        has_path(distinct_paths(paths), paths[i]),
    decreases paths.len(),
{
    let front = paths.drop_last();
    let before = distinct_paths(front);
    if i < front.len() {
        lemma_path_held(front, i);
        let k = choose|k: int|
            0 <= k < before.len() && path_model(#[trigger] before[k]) == path_model(front[i]);
        assert(distinct_paths(paths)[k] == before[k]);
    } else if !has_path(before, paths.last()) {
        assert(distinct_paths(paths)[before.len() as int] == paths.last());
    }
}

/// Neither a second separator nor a `.` behind one makes another path.
pub proof fn lemma_spellings_of_a_path(dir: Text, rest: Text)
    requires
        dir.len() > 0,
    ensures
        path_model(dir + seq!['/', '/'] + rest) == path_model(dir + seq!['/'] + rest),
        path_model(dir + seq!['/', '.', '/'] + rest) == path_model(dir + seq!['/'] + rest),
        path_model(dir + seq!['/']) == path_model(dir),
{
    let none = Seq::<char>::empty();
    let dot = seq!['.'];
    let one = dir + seq!['/'] + rest;
    let two = dir + seq!['/', '/'] + rest;
    let three = dir + seq!['/', '.', '/'] + rest;
    let end = dir + seq!['/'];
    assert(one[0] == dir[0] && two[0] == dir[0] && three[0] == dir[0] && end[0] == dir[0]);
    reveal_strlit(".");
    assert("."@ =~= dot);
    lemma_split_at_a_mark(dir, rest, '/');
    lemma_one_part(none, '/');
    lemma_one_part(dot, '/');
    let a = text::split(dir, '/');
    let b = text::split(rest, '/');
    assert(two =~= (dir + seq!['/'] + none) + seq!['/'] + rest);
    lemma_split_at_a_mark(dir + seq!['/'] + none, rest, '/');
    lemma_split_at_a_mark(dir, none, '/');
    assert(three =~= (dir + seq!['/'] + dot) + seq!['/'] + rest);
    lemma_split_at_a_mark(dir + seq!['/'] + dot, rest, '/');
    lemma_split_at_a_mark(dir, dot, '/');
    assert(end =~= dir + seq!['/'] + none);
    crate::laws::texts::lemma_split_then_join(dir, '/');
    lemma_parts_in_between(a, none, b);
    lemma_parts_in_between(a, dot, b);
    lemma_parts_in_between(a, none, Seq::empty());
    assert(a + seq![none] + Seq::<Text>::empty() =~= a + seq![none]);
    assert(a + Seq::<Text>::empty() =~= a);
}

proof fn lemma_parts_in_between(a: Seq<Text>, part: Text, b: Seq<Text>)
    requires
        a.len() > 0,
        part.len() == 0 || part == "."@,
    ensures
        significant_parts(a + seq![part] + b) == significant_parts(a + b),
    decreases b.len(),
{
    let with = a + seq![part] + b;
    let without = a + b;
    if b.len() == 0 {
        assert(with.drop_last() =~= a);
        assert(with.last() == part);
        assert(without =~= a);
    } else {
        let front = b.drop_last();
        lemma_parts_in_between(a, part, front);
        assert(with.drop_last() =~= a + seq![part] + front);
        assert(without.drop_last() =~= a + front);
        assert(with.last() == b.last() && without.last() == b.last());
    }
}

/// Whether a variable tells of the session around the daemon.
pub open spec fn of_the_session(key: Text) -> bool {
    ||| key == "COLORTERM"@
    ||| key == "DBUS_SESSION_BUS_ADDRESS"@
    ||| key == "DISPLAY"@
    ||| key == "GH_TOKEN"@
    ||| key == "GITHUB_TOKEN"@
    ||| key == "GPG_AGENT_INFO"@
    ||| key == "GPG_TTY"@
    ||| key == "SSH_AGENT_PID"@
    ||| key == "SSH_AUTH_SOCK"@
    ||| key == "TERM"@
    ||| key == "TERM_PROGRAM"@
    ||| key == "TMPDIR"@
    ||| key == "WAYLAND_DISPLAY"@
    ||| key == "XAUTHORITY"@
}

proof fn lemma_no_path_at_the_end(key: Text)
    requires
        key.len() > 0,
        key.last() != 'H',
    ensures
        !path_like(key),
{
    reveal_strlit("PATH");
    if path_like(key) {
        let n = key.len() as int;
        assert(key.subrange(n - 4, n)[3] == "PATH"@[3]);
        assert("PATH"@[3] == 'H');
    }
}

/// Of a variable of both sides, the session around the daemon decides just where the
/// variable tells of it; the snapshot decides of every other that holds no paths.
pub proof fn lemma_variables_of_both_sides(
    snapshot: Map<Text, Text>,
    ambient: Map<Text, Text>,
    key: Text,
)
    requires
        snapshot.contains_key(key),
        ambient.contains_key(key),
    ensures
        of_the_session(key) ==> merged_env(snapshot, ambient)[key] == ambient[key],
        !of_the_session(key) && !text::ends_with(key, "PATH"@) ==> merged_env(
            snapshot,
            ambient,
        )[key] == snapshot[key],
{
    if key == "COLORTERM"@ {
        reveal_strlit("COLORTERM");
        lemma_no_path_at_the_end(key);
    }
    if key == "DBUS_SESSION_BUS_ADDRESS"@ {
        reveal_strlit("DBUS_SESSION_BUS_ADDRESS");
        lemma_no_path_at_the_end(key);
    }
    if key == "DISPLAY"@ {
        reveal_strlit("DISPLAY");
        lemma_no_path_at_the_end(key);
    }
    if key == "GH_TOKEN"@ {
        reveal_strlit("GH_TOKEN");
        lemma_no_path_at_the_end(key);
    }
    if key == "GITHUB_TOKEN"@ {
        reveal_strlit("GITHUB_TOKEN");
        lemma_no_path_at_the_end(key);
    }
    if key == "GPG_AGENT_INFO"@ {
        reveal_strlit("GPG_AGENT_INFO");
        lemma_no_path_at_the_end(key);
    }
    if key == "GPG_TTY"@ {
        reveal_strlit("GPG_TTY");
        lemma_no_path_at_the_end(key);
    }
    if key == "SSH_AGENT_PID"@ {
        reveal_strlit("SSH_AGENT_PID");
        lemma_no_path_at_the_end(key);
    }
    if key == "SSH_AUTH_SOCK"@ {
        reveal_strlit("SSH_AUTH_SOCK");
        lemma_no_path_at_the_end(key);
    }
    if key == "TERM"@ {
        reveal_strlit("TERM");
        lemma_no_path_at_the_end(key);
    }
    if key == "TERM_PROGRAM"@ {
        reveal_strlit("TERM_PROGRAM");
        lemma_no_path_at_the_end(key);
    }
    if key == "TMPDIR"@ {
        reveal_strlit("TMPDIR");
        lemma_no_path_at_the_end(key);
    }
    if key == "WAYLAND_DISPLAY"@ {
        reveal_strlit("WAYLAND_DISPLAY");
        lemma_no_path_at_the_end(key);
    }
    if key == "XAUTHORITY"@ {
        reveal_strlit("XAUTHORITY");
        lemma_no_path_at_the_end(key);
    }
}

} // verus!
