//! Expansion of `~` and of variables in the words of a command line.

use vstd::prelude::*;
use vstd::string::*;

use crate::runtime_env::EnvSnapshot;
use crate::text;
use crate::text::Text;

verus! {

/// The variables of a snapshot, where there is one.
pub open spec fn env_of(snapshot: Option<&EnvSnapshot>) -> Map<Text, Text> {
    match snapshot {
        Some(s) => s.env.text_map(),
        None => Map::empty(),
    }
}

pub open spec fn snapshot_wf(snapshot: Option<&EnvSnapshot>) -> bool {
    match snapshot {
        Some(s) => s.env.wf(),
        None => true,
    }
}

/// The value of a variable; empty if it is not set.
pub open spec fn value_or_empty(env: Map<Text, Text>, name: Text) -> Text {
    if env.dom().contains(name) {
        env[name]
    } else {
        Seq::empty()
    }
}

fn lookup_env<'a>(snapshot: Option<&'a EnvSnapshot>, key: &str) -> (r: Option<&'a str>)
    requires
        snapshot_wf(snapshot),
    ensures
        match r {
            Some(v) => env_of(snapshot).dom().contains(key@) && env_of(snapshot)[key@] == v@,
            None => !env_of(snapshot).dom().contains(key@),
        },
{
    match snapshot {
        Some(s) => match s.env.get(key) {
            Some(v) => Some(v.as_str()),
            None => None,
        },
        None => None,
    }
}

pub open spec fn letter(c: char) -> bool {
    ('a' <= c && c <= 'z') || ('A' <= c && c <= 'Z')
}

pub open spec fn var_start(c: char) -> bool {
    c == '_' || letter(c)
}

pub open spec fn var_continue(c: char) -> bool {
    var_start(c) || text::is_digit(c)
}

/// A name that a variable can have.
pub open spec fn valid_name(name: Text) -> bool {
    &&& name.len() > 0
    &&& var_start(name[0])
    &&& forall|i: int| 1 <= i < name.len() ==> var_continue(#[trigger] name[i])
}

fn is_var_start(c: char) -> (r: bool)
    ensures
        r == var_start(c),
{
    c == '_' || ('a' <= c && c <= 'z') || ('A' <= c && c <= 'Z')
}

fn is_var_continue(c: char) -> (r: bool)
    ensures
        r == var_continue(c),
{
    is_var_start(c) || ('0' <= c && c <= '9')
}

fn is_valid_var_name(w: &Vec<char>, from: usize, to: usize) -> (r: bool)
    requires
        from <= to <= w@.len(),
    ensures
        r == valid_name(w@.subrange(from as int, to as int)),
{
    let ghost name = w@.subrange(from as int, to as int);
    if from == to || !is_var_start(w[from]) {
        return false;
    }
    let mut i: usize = from + 1;
    while i < to
        invariant
            from < i <= to <= w@.len(),
            name == w@.subrange(from as int, to as int),
            forall|j: int| 1 <= j < i - from ==> var_continue(#[trigger] name[j]),
        decreases to - i,
    {
        assert(name[i - from] == w@[i as int]);
        if !is_var_continue(w[i]) {
            return false;
        }
        i = i + 1;
    }
    true
}

/// The end of the run of name characters at `i`.
pub open spec fn name_end(w: Text, i: int) -> int
    decreases w.len() - i,
{
    if 0 <= i < w.len() && var_continue(w[i]) {
        name_end(w, i + 1)
    } else {
        i
    }
}

pub proof fn lemma_name_end(w: Text, i: int)
    requires
        0 <= i <= w.len(),
    ensures
        i <= name_end(w, i) <= w.len(),
    decreases w.len() - i,
{
    if i < w.len() && var_continue(w[i]) {
        lemma_name_end(w, i + 1);
    }
}

/// The expansion of the word from `i` on.
pub open spec fn expanded_from(w: Text, i: int, env: Map<Text, Text>) -> Text
    decreases w.len() - i,
{
    if !(0 <= i < w.len()) {
        Seq::empty()
    } else if w[i] == '\\' && i + 1 < w.len() && w[i + 1] == '$' {
        seq!['$'] + expanded_from(w, i + 2, env)
    } else if w[i] == '$' && i + 1 < w.len() && w[i + 1] == '{' {
        let end = text::find_from(w, i + 2, '}');
        proof {
            text::lemma_find_from(w, i + 2, '}');
        }
        let name = w.subrange(i + 2, end);
        let closed = end < w.len();
        if closed && valid_name(name) {
            value_or_empty(env, name) + expanded_from(w, end + 1, env)
        } else if closed {
            "${"@ + name + "}"@ + expanded_from(w, end + 1, env)
        } else {
            "${"@ + name
        }
    } else if w[i] == '$' && i + 1 < w.len() && var_start(w[i + 1]) {
        let end = name_end(w, i + 1);
        proof {
            lemma_name_end(w, i + 1);
        }
        value_or_empty(env, w.subrange(i + 1, end)) + expanded_from(w, end, env)
    } else {
        seq![w[i]] + expanded_from(w, i + 1, env)
    }
}

/// A word with its variables replaced.
pub open spec fn vars_expanded(w: Text, env: Map<Text, Text>) -> Text {
    expanded_from(w, 0, env)
}

/// `rest` below the directory `home`, unless it is an absolute path.
pub open spec fn joined_path(home: Text, rest: Text) -> Text {
    if rest.len() > 0 && rest[0] == '/' {
        rest
    } else if home.len() > 0 && home.last() != '/' {
        home + "/"@ + rest
    } else {
        home + rest
    }
}

/// `rest` below the directory `base`, unless it is an absolute path.
pub fn join_path(base: &str, rest: &str) -> (r: String)
    ensures
        r@ == joined_path(base@, rest@),
{
    let tail = text::chars_of(rest);
    if tail.len() > 0 && tail[0] == '/' {
        return rest.to_owned();
    }
    let head = text::chars_of(base);
    if head.len() > 0 && head[head.len() - 1] != '/' {
        text::concat3(base, "/", rest)
    } else {
        text::concat2(base, rest)
    }
}

/// A word with a leading `~` replaced by the home directory.
pub open spec fn tilde_expanded(w: Text, env: Map<Text, Text>) -> Text {
    if !env.dom().contains("HOME"@) {
        w
    } else if w == "~"@ {
        env["HOME"@]
    } else {
        match text::strip_prefix(w, "~/"@) {
            Some(rest) => joined_path(env["HOME"@], rest),
            None => w,
        }
    }
}

/// A word with everything replaced.
pub open spec fn expanded(w: Text, env: Map<Text, Text>) -> Text {
    vars_expanded(tilde_expanded(w, env), env)
}

pub fn expand_tilde(word: &str, snapshot: Option<&EnvSnapshot>) -> (r: String)
    requires
        snapshot_wf(snapshot),
    ensures
        r@ == tilde_expanded(word@, env_of(snapshot)),
{
    let home = match lookup_env(snapshot, "HOME") {
        Some(h) => h,
        None => {
            return word.to_owned();
        },
    };
    if text::str_eq(word, "~") {
        return home.to_owned();
    }
    let chars = text::chars_of(word);
    match text::chars_strip_prefix(&chars, "~/") {
        None => word.to_owned(),
        Some(rest) => join_path(home, text::all_string(&rest).as_str()),
    }
}

pub fn expand_vars(word: &str, snapshot: Option<&EnvSnapshot>) -> (r: String)
    requires
        snapshot_wf(snapshot),
    ensures
        r@ == vars_expanded(word@, env_of(snapshot)),
{
    let w = text::chars_of(word);
    let ghost env = env_of(snapshot);
    let mut out: String = String::new();
    let mut i: usize = 0;
    assert(out@ + expanded_from(w@, 0, env) =~= expanded_from(w@, 0, env));
    while i < w.len()
        invariant
            i <= w@.len(),
            snapshot_wf(snapshot),
            env == env_of(snapshot),
            out@ + expanded_from(w@, i as int, env) == vars_expanded(w@, env),
        decreases w@.len() - i,
    {
        let ghost before = out@;
        let ghost at = i as int;
        if w[i] == '\\' && i + 1 < w.len() && w[i + 1] == '$' {
            out.push('$');
            i = i + 2;
            assert(out@ + expanded_from(w@, i as int, env) =~= before + expanded_from(w@, at, env));
        } else if w[i] == '$' && i + 1 < w.len() && w[i + 1] == '{' {
            let end = text::find_char(&w, i + 2, '}');
            let name = text::string_of(&w, i + 2, end);
            let closed = end < w.len();
            if closed && is_valid_var_name(&w, i + 2, end) {
                match lookup_env(snapshot, name.as_str()) {
                    Some(v) => {
                        out.append(v);
                    },
                    None => {},
                }
            } else {
                out.append("${");
                out.append(name.as_str());
                if closed {
                    out.append("}");
                }
            }
            i = if closed {
                end + 1
            } else {
                end
            };
            assert(out@ + expanded_from(w@, i as int, env) =~= before + expanded_from(w@, at, env));
        } else if w[i] == '$' && i + 1 < w.len() && is_var_start(w[i + 1]) {
            let mut end: usize = i + 1;
            while end < w.len() && is_var_continue(w[end])
                invariant
                    at + 1 <= end <= w@.len(),
                    name_end(w@, at + 1) == name_end(w@, end as int),
                decreases w@.len() - end,
            {
                end = end + 1;
            }
            let name = text::string_of(&w, i + 1, end);
            match lookup_env(snapshot, name.as_str()) {
                Some(v) => {
                    out.append(v);
                },
                None => {},
            }
            assert(end > i);
            i = end;
            assert(out@ + expanded_from(w@, i as int, env) =~= before + expanded_from(w@, at, env));
        } else {
            out.push(w[i]);
            i = i + 1;
            assert(out@ + expanded_from(w@, i as int, env) =~= before + expanded_from(w@, at, env));
        }
    }
    assert(out@ + expanded_from(w@, i as int, env) =~= out@);
    out
}

pub fn expand_word(word: &str, snapshot: Option<&EnvSnapshot>) -> (r: String)
    requires
        snapshot_wf(snapshot),
    ensures
        r@ == expanded(word@, env_of(snapshot)),
{
    let with_tilde = expand_tilde(word, snapshot);
    expand_vars(with_tilde.as_str(), snapshot)
}

/// Expands each word by itself.
pub fn expand_command_line(command_line: &Vec<String>, snapshot: Option<&EnvSnapshot>) -> (r: Vec<
    String,
>)
    requires
        snapshot_wf(snapshot),
    ensures
        text::texts(r@) == text::texts(command_line@).map_values(|w: Text| expanded(w, env_of(snapshot))),
{
    let ghost want = text::texts(command_line@).map_values(|w: Text| expanded(w, env_of(snapshot)));
    let mut out: Vec<String> = Vec::new();
    let mut i: usize = 0;
    assert(text::texts(out@) =~= want.take(0));
    while i < command_line.len()
        invariant
            i <= command_line@.len(),
            snapshot_wf(snapshot),
            want == text::texts(command_line@).map_values(|w: Text| expanded(w, env_of(snapshot))),
            text::texts(out@) == want.take(i as int),
        decreases command_line@.len() - i,
    {
        let w = expand_word(command_line[i].as_str(), snapshot);
        proof {
            assert(text::texts(out@.push(w)) =~= text::texts(out@).push(w@));
            assert(want.take(i + 1) =~= want.take(i as int).push(w@));
        }
        out.push(w);
        i = i + 1;
    }
    assert(want.take(i as int) =~= want);
    out
}

// ── Laws ──

proof fn lemma_plain_from(w: Text, i: int, env: Map<Text, Text>)
    requires
        0 <= i <= w.len(),
        !w.contains('$'),
    ensures
        expanded_from(w, i, env) == w.skip(i),
    decreases w.len() - i,
{
    if i < w.len() {
        lemma_plain_from(w, i + 1, env);
        assert(w.contains(w[i]));
        if i + 1 < w.len() {
            assert(w.contains(w[i + 1]));
        }
        assert(seq![w[i]] + w.skip(i + 1) =~= w.skip(i));
    } else {
        assert(w.skip(i) =~= Seq::<char>::empty());
    }
}

/// A word without `$` keeps its characters when variables are replaced.
pub proof fn lemma_plain_word_unchanged(w: Text, env: Map<Text, Text>)
    requires
        !w.contains('$'),
    ensures
        vars_expanded(w, env) == w,
{
    lemma_plain_from(w, 0, env);
    assert(w.skip(0) =~= w);
}

} // verus!
