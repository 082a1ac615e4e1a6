//! Completion of commands, schedules and paths.

use vstd::prelude::*;
use vstd::string::*;

use crate::command_spec::{command_names, names, registry};
use crate::mode::Mode;
use crate::text;
use crate::text::Text;
use crate::tui::lines::{no_lines, push_line};
use crate::paths::{file_name_of, last_part_start, parent_of, path_file_name, path_parent};
use crate::tui::text_order::{sort_strings, sorted_texts};
use crate::word_expansion::{join_path, joined_path};

verus! {

// ── Candidates that begin with a prefix ──

/// The strings that begin with a prefix.
pub open spec fn beginning_with(s: Seq<Text>, prefix: Text) -> Seq<Text>
    decreases s.len(),
{
    if s.len() == 0 {
        Seq::empty()
    } else {
        let rest = beginning_with(s.drop_last(), prefix);
        if text::starts_with(s.last(), prefix) {
            rest.push(s.last())
        } else {
            rest
        }
    }
}

/// The strings that begin with a prefix.
pub fn keep_beginning_with(v: &Vec<String>, prefix: &str) -> (r: Vec<String>)
    ensures
        text::texts(r@) == beginning_with(text::texts(v@), prefix@),
{
    let ghost all = text::texts(v@);
    let mut out = no_lines();
    let mut i: usize = 0;
    assert(text::texts(out@) =~= beginning_with(all.take(0), prefix@));
    while i < v.len()
        invariant
            i <= v@.len(),
            all == text::texts(v@),
            text::texts(out@) == beginning_with(all.take(i as int), prefix@),
        decreases v@.len() - i,
    {
        proof {
            assert(all.take(i + 1).drop_last() =~= all.take(i as int));
            assert(all.take(i + 1).last() == v@[i as int]@);
        }
        if text::str_starts_with(v[i].as_str(), prefix) {
            push_line(&mut out, v[i].clone());
        }
        i = i + 1;
    }
    assert(all.take(i as int) =~= all);
    out
}

/// What was kept is there and begins with the prefix, and nothing like it was
/// left out.
pub proof fn lemma_beginning_with(s: Seq<Text>, prefix: Text, t: Text)
    ensures
        beginning_with(s, prefix).contains(t) <==> s.contains(t) && text::starts_with(t, prefix),
    decreases s.len(),
{
    if s.len() > 0 {
        let d = s.drop_last();
        let rest = beginning_with(d, prefix);
        let r = beginning_with(s, prefix);
        lemma_beginning_with(d, prefix, t);
        assert(s =~= d.push(s.last()));
        if r.contains(t) {
            let i = r.index_of(t);
            if i < rest.len() {
                assert(rest[i] == t);
                assert(rest.contains(t));
                assert(s[d.index_of(t)] == t);
            } else {
                assert(s[s.len() - 1] == t);
            }
        }
        if s.contains(t) && text::starts_with(t, prefix) {
            let i = s.index_of(t);
            if i < d.len() {
                assert(d[i] == t);
                assert(d.contains(t));
                assert(r[rest.index_of(t)] == t);
            } else {
                assert(r[rest.len() as int] == t);
            }
        }
    }
}

// ── Commands ──

pub open spec fn without_colon(word: Text) -> Text {
    match text::strip_prefix(word, ":"@) {
        Some(rest) => rest,
        None => word,
    }
}

pub open spec fn with_colons(s: Seq<Text>) -> Seq<Text> {
    s.map_values(|t: Text| ":"@ + t)
}

/// The commands that begin with a word, which may have its colon or not.
pub open spec fn builtin_candidates(word: Text) -> Seq<Text> {
    with_colons(beginning_with(names(registry()).push("restart"@), without_colon(word)))
}

pub fn builtin_command_candidates(word: &str) -> (r: Vec<String>)
    ensures
        text::texts(r@) == builtin_candidates(word@),
{
    let prefix = match text::chars_strip_prefix(&text::chars_of(word), ":") {
        Some(rest) => text::all_string(&rest),
        None => word.to_owned(),
    };
    let mut commands = command_names();
    push_line(&mut commands, "restart".to_owned());
    let kept = keep_beginning_with(&commands, prefix.as_str());
    let ghost all = with_colons(text::texts(kept@));
    let mut out = no_lines();
    let mut i: usize = 0;
    assert(text::texts(out@) =~= all.take(0));
    while i < kept.len()
        invariant
            i <= kept@.len(),
            all == with_colons(text::texts(kept@)),
            text::texts(out@) == all.take(i as int),
        decreases kept@.len() - i,
    {
        push_line(&mut out, text::concat2(":", kept[i].as_str()));
        assert(all.take(i as int).push(all[i as int]) =~= all.take(i + 1));
        i = i + 1;
    }
    assert(all.take(i as int) =~= all);
    out
}

// ── Schedules ──

pub open spec fn keywords() -> Seq<Text> {
    seq![
        "every"@,
        "in"@,
        "at"@,
        "on"@,
        "daily"@,
        "hourly"@,
        "weekly"@,
        "monthly"@,
        "cron"@,
    ]
}

fn keyword_list() -> (r: Vec<String>)
    ensures
        text::texts(r@) == keywords(),
{
    let mut r = no_lines();
    push_line(&mut r, "every".to_owned());
    push_line(&mut r, "in".to_owned());
    push_line(&mut r, "at".to_owned());
    push_line(&mut r, "on".to_owned());
    push_line(&mut r, "daily".to_owned());
    push_line(&mut r, "hourly".to_owned());
    push_line(&mut r, "weekly".to_owned());
    push_line(&mut r, "monthly".to_owned());
    push_line(&mut r, "cron".to_owned());
    assert(text::texts(r@) =~= keywords());
    r
}

/// How many words a schedule takes that starts with these words.
pub open spec fn schedule_words(w: Seq<Text>) -> Option<int> {
    if w.len() == 0 {
        None
    } else if w[0] == "daily"@ || w[0] == "hourly"@ || w[0] == "weekly"@ || w[0] == "monthly"@ {
        Some(1)
    } else if w[0] == "every"@ || w[0] == "in"@ {
        Some(2)
    } else if w[0] == "cron"@ {
        Some(6)
    } else if w[0] == "at"@ {
        if w.len() >= 4 && w[2] == "on"@ {
            Some(4)
        } else {
            Some(2)
        }
    } else if w[0] == "on"@ {
        if w.len() >= 4 && w[2] == "at"@ {
            Some(4)
        } else {
            Some(2)
        }
    } else {
        None
    }
}

/// What follows the first `n` words.
pub open spec fn after_words(s: Text, n: int) -> Text
    decreases n,
{
    if n <= 0 {
        s
    } else {
        let t = text::trim_start(s);
        after_words(t.skip(text::word_len(t)), n - 1)
    }
}

pub open spec fn without_first(s: Text) -> Text {
    if s.len() > 0 {
        s.skip(1)
    } else {
        s
    }
}

/// The command behind a schedule, if the schedule is complete.
pub open spec fn scheduled_part(line: Text) -> Option<Text> {
    match schedule_words(text::words(line)) {
        Some(n) => if text::words(line).len() < n {
            None
        } else {
            Some(without_first(after_words(line, n)))
        },
        None => None,
    }
}

fn count_schedule_words(w: &Vec<String>) -> (r: Option<usize>)
    ensures
        match r {
            Some(n) => schedule_words(text::texts(w@)) == Some(n as int),
            None => schedule_words(text::texts(w@)) is None,
        },
{
    if w.len() == 0 {
        return None;
    }
    let ghost t = text::texts(w@);
    assert(t[0] == w@[0]@);
    let first = w[0].as_str();
    if text::str_eq(first, "daily") || text::str_eq(first, "hourly") || text::str_eq(first, "weekly") || text::str_eq(
        first,
        "monthly",
    ) {
        return Some(1);
    }
    if text::str_eq(first, "every") || text::str_eq(first, "in") {
        return Some(2);
    }
    if text::str_eq(first, "cron") {
        return Some(6);
    }
    if text::str_eq(first, "at") {
        if w.len() >= 4 {
            assert(t[2] == w@[2]@);
            if text::str_eq(w[2].as_str(), "on") {
                return Some(4);
            }
        }
        return Some(2);
    }
    if text::str_eq(first, "on") {
        if w.len() >= 4 {
            assert(t[2] == w@[2]@);
            if text::str_eq(w[2].as_str(), "at") {
                return Some(4);
            }
        }
        return Some(2);
    }
    None
}

/// The command behind a schedule, if the schedule is complete. What follows the
/// schedule loses the one character that parts them.
pub fn cron_command_part(line_prefix: &str) -> (r: Option<String>)
    ensures
        text::opt_text(r) == scheduled_part(line_prefix@),
{
    let v = text::chars_of(line_prefix);
    let w = text::chars_words(&v);
    let n = match count_schedule_words(&w) {
        Some(n) => n,
        None => {
            return None;
        },
    };
    assert(text::texts(w@).len() == w@.len());
    if w.len() < n {
        return None;
    }
    let mut at: usize = 0;
    let mut i: usize = 0;
    assert(v@.skip(0) =~= v@);
    while i < n
        invariant
            i <= n,
            at <= v@.len(),
            after_words(v@, n as int) == after_words(v@.skip(at as int), n - i),
        decreases n - i,
    {
        let from = text::skip_white(&v, at);
        let to = text::word_end(&v, from);
        assert(v@.skip(from as int).skip(to - from) =~= v@.skip(to as int));
        at = to;
        i = i + 1;
    }
    if at < v.len() {
        let r = text::string_of(&v, at + 1, v.len());
        assert(r@ =~= v@.skip(at as int).skip(1));
        Some(r)
    } else {
        let r = text::string_of(&v, at, v.len());
        assert(r@ =~= v@.skip(at as int));
        Some(r)
    }
}

// ── Shell segments ──

pub open spec fn is_operator(t: Text) -> bool {
    t == "->"@ || t == "~>"@ || t == "|||"@ || t == "|?|"@
}

pub fn is_chain_operator(token: &str) -> (r: bool)
    ensures
        r == is_operator(token@),
{
    text::str_eq(token, "->") || text::str_eq(token, "~>") || text::str_eq(token, "|||") || text::str_eq(token, "|?|")
}

/// How many words stand behind the last operator.
pub open spec fn words_in_segment(w: Seq<Text>) -> nat
    decreases w.len(),
{
    if w.len() == 0 || is_operator(w.last()) {
        0
    } else {
        words_in_segment(w.drop_last()) + 1
    }
}

/// Whether the word being typed is a command, not an argument.
pub open spec fn typing_command(line: Text) -> bool {
    let n = words_in_segment(text::words(line));
    if line.len() > 0 && text::is_white(line.last()) {
        text::trim(line).len() == 0 || n == 0
    } else {
        text::trim(line).len() == 0 || n <= 1
    }
}

pub fn completing_command(line_prefix: &str) -> (r: bool)
    ensures
        r == typing_command(line_prefix@),
{
    let v = text::chars_of(line_prefix);
    let w = text::chars_words(&v);
    let ghost all = text::texts(w@);
    let mut i: usize = w.len();
    assert(all.take(i as int) =~= all);
    while i > 0 && !is_chain_operator(w[i - 1].as_str())
        invariant
            i <= w@.len(),
            all == text::texts(w@),
            all == text::words(line_prefix@),
            words_in_segment(all) == words_in_segment(all.take(i as int)) + w@.len() - i,
        decreases i,
    {
        assert(all.take(i as int).drop_last() =~= all.take(i - 1));
        assert(all.take(i as int).last() == w@[i - 1]@);
        i = i - 1;
    }
    let n: usize = w.len() - i;
    proof {
        if i > 0 {
            assert(all.take(i as int).last() == w@[i - 1]@);
        }
        assert(words_in_segment(all.take(i as int)) == 0);
    }
    let blank = text::str_trim(line_prefix).len() == 0;
    if v.len() > 0 && text::is_whitespace(v[v.len() - 1]) {
        blank || n == 0
    } else {
        blank || n <= 1
    }
}

// ── Paths ──

/// Where to look, what the names begin with, and what stands before them.
#[derive(Debug, PartialEq, Eq)]
pub struct PathContext {
    pub base_dir: String,
    pub partial: String,
    pub display_prefix: String,
}

/// A context over character sequences.
pub struct ContextModel {
    pub base_dir: Text,
    pub partial: Text,
    pub display_prefix: Text,
}

impl View for PathContext {
    type V = ContextModel;

    open spec fn view(&self) -> ContextModel {
        ContextModel {
            base_dir: self.base_dir@,
            partial: self.partial@,
            display_prefix: self.display_prefix@,
        }
    }
}

pub open spec fn text_result(r: Result<String, String>) -> Result<Text, Text> {
    match r {
        Ok(s) => Ok(s@),
        Err(e) => Err(e@),
    }
}

pub open spec fn or_empty(t: Option<Text>) -> Text {
    match t {
        Some(x) => x,
        None => Seq::empty(),
    }
}

/// The directory that a prefix itself names, what it asks for there, and what
/// is shown before it. `expanded` is what the prefix stands for.
pub open spec fn own_context(prefix: Text, expanded: Text) -> ContextModel {
    if text::ends_with(prefix, "/"@) {
        ContextModel { base_dir: expanded, partial: Seq::empty(), display_prefix: prefix }
    } else {
        ContextModel {
            base_dir: or_empty(parent_of(expanded)),
            partial: or_empty(file_name_of(expanded)),
            display_prefix: prefix.take(last_part_start(prefix)),
        }
    }
}

/// A context that names no directory looks in `dir`.
pub open spec fn looking_in(c: ContextModel, dir: Text) -> ContextModel {
    if c.base_dir.len() > 0 {
        c
    } else {
        ContextModel { base_dir: dir, ..c }
    }
}

/// The context of a prefix that stands for `expanded`.
pub open spec fn expanded_context(
    prefix: Text,
    expanded: Text,
    current_dir: Result<Text, Text>,
) -> Result<ContextModel, Text> {
    let own = own_context(prefix, expanded);
    match current_dir {
        Ok(dir) => Ok(looking_in(own, dir)),
        Err(e) => if own.base_dir.len() > 0 {
            Ok(own)
        } else {
            Err("resolve current directory for path completion: "@ + e)
        },
    }
}

/// The context of a prefix with the home directory filled in.
pub open spec fn context_of(
    prefix: Text,
    home: Option<Text>,
    current_dir: Result<Text, Text>,
) -> Result<Option<ContextModel>, Text> {
    let home = match home {
        Some(h) => if h.len() > 0 {
            Some(h)
        } else {
            None
        },
        None => None,
    };
    if prefix == "~"@ {
        match home {
            Some(h) => Ok(
                Some(
                    ContextModel { base_dir: h, partial: Seq::empty(), display_prefix: "~/"@ },
                ),
            ),
            None => Ok(None),
        }
    } else {
        match (text::strip_prefix(prefix, "~/"@), home) {
            (Some(rest), None) => Ok(None),
            (Some(rest), Some(h)) => some_context(
                expanded_context(prefix, joined_path(h, rest), current_dir),
            ),
            (None, _) => some_context(expanded_context(prefix, prefix, current_dir)),
        }
    }
}

pub open spec fn some_context(r: Result<ContextModel, Text>) -> Result<Option<ContextModel>, Text> {
    match r {
        Ok(c) => Ok(Some(c)),
        Err(e) => Err(e),
    }
}

fn find_own_context(prefix: &str, expanded: &str) -> (r: PathContext)
    ensures
        r@ == own_context(prefix@, expanded@),
{
    let v = text::chars_of(prefix);
    let empty = String::new();
    assert(empty@ =~= Seq::<char>::empty());
    if text::chars_end_with(&v, "/") {
        return PathContext {
            base_dir: expanded.to_owned(),
            partial: empty,
            display_prefix: prefix.to_owned(),
        };
    }
    let base_dir = match path_parent(expanded) {
        Some(p) => p,
        None => empty.clone(),
    };
    let partial = match path_file_name(expanded) {
        Some(p) => p,
        None => empty,
    };
    let mut n: usize = v.len();
    assert(v@.take(n as int) =~= v@);
    while n > 0 && v[n - 1] != '/'
        invariant
            n <= v@.len(),
            last_part_start(v@.take(n as int)) == last_part_start(v@),
        decreases n,
    {
        assert(v@.take(n as int).drop_last() =~= v@.take(n - 1));
        n = n - 1;
    }
    let display_prefix = text::string_of(&v, 0, n);
    assert(display_prefix@ =~= v@.take(n as int));
    PathContext { base_dir, partial, display_prefix }
}

fn from_expanded(prefix: &str, expanded: &str, current_dir: Result<String, String>) -> (r: Result<
    PathContext,
    String,
>)
    ensures
        match r {
            Ok(c) => expanded_context(prefix@, expanded@, text_result(current_dir)) == Ok::<
                ContextModel,
                Text,
            >(c@),
            Err(e) => expanded_context(prefix@, expanded@, text_result(current_dir)) == Err::<
                ContextModel,
                Text,
            >(e@),
        },
{
    let own = find_own_context(prefix, expanded);
    if own.base_dir.as_str().unicode_len() > 0 {
        return Ok(own);
    }
    match current_dir {
        Ok(dir) => Ok(PathContext { base_dir: dir, ..own }),
        Err(e) => Err(text::concat2("resolve current directory for path completion: ", e.as_str())),
    }
}

/// Where to look for what begins with a prefix; nowhere if it speaks of a home
/// directory that is not known.
pub fn path_completion_context_from_sources(
    prefix: &str,
    home: Option<&str>,
    current_dir: Result<String, String>,
) -> (r: Result<Option<PathContext>, String>)
    ensures
        match r {
            Ok(Some(c)) => context_of(prefix@, text::opt_str(home), text_result(current_dir)) == Ok::<
                Option<ContextModel>,
                Text,
            >(Some(c@)),
            Ok(None) => context_of(prefix@, text::opt_str(home), text_result(current_dir)) == Ok::<
                Option<ContextModel>,
                Text,
            >(None),
            Err(e) => context_of(prefix@, text::opt_str(home), text_result(current_dir)) == Err::<
                Option<ContextModel>,
                Text,
            >(e@),
        },
{
    let known: Option<&str> = match home {
        Some(h) => if h.unicode_len() > 0 {
            Some(h)
        } else {
            None
        },
        None => None,
    };
    if text::str_eq(prefix, "~") {
        return match known {
            Some(h) => {
                let partial = String::new();
                assert(partial@ =~= Seq::<char>::empty());
                Ok(
                    Some(
                        PathContext {
                            base_dir: h.to_owned(),
                            partial,
                            display_prefix: "~/".to_owned(),
                        },
                    ),
                )
            },
            None => Ok(None),
        };
    }
    let context = match text::chars_strip_prefix(&text::chars_of(prefix), "~/") {
        Some(rest) => match known {
            Some(h) => from_expanded(prefix, join_path(h, text::all_string(&rest).as_str()).as_str(), current_dir),
            None => {
                return Ok(None);
            },
        },
        None => from_expanded(prefix, prefix, current_dir),
    };
    match context {
        Ok(c) => Ok(Some(c)),
        Err(e) => Err(e),
    }
}

/// A prefix with `~` replaced by the home directory, which is empty if it is not
/// known.
pub open spec fn tilde_filled(prefix: Text, home: Text) -> Text {
    if prefix == "~"@ {
        home
    } else {
        match text::strip_prefix(prefix, "~/"@) {
            Some(rest) => home + "/"@ + rest,
            None => prefix,
        }
    }
}

/// The context of a prefix at the prompt.
pub open spec fn prompt_context(prefix: Text, home: Text, current_dir: Text) -> ContextModel {
    looking_in(own_context(prefix, tilde_filled(prefix, home)), current_dir)
}

/// Where to look for what begins with a prefix at the prompt.
pub fn path_completion_context(prefix: &str, home: &str, current_dir: &str) -> (r: PathContext)
    ensures
        r@ == prompt_context(prefix@, home@, current_dir@),
{
    let expanded = if text::str_eq(prefix, "~") {
        home.to_owned()
    } else {
        match text::chars_strip_prefix(&text::chars_of(prefix), "~/") {
            Some(rest) => text::concat3(home, "/", text::all_string(&rest).as_str()),
            None => prefix.to_owned(),
        }
    };
    let own = find_own_context(prefix, expanded.as_str());
    if own.base_dir.as_str().unicode_len() > 0 {
        own
    } else {
        PathContext { base_dir: current_dir.to_owned(), ..own }
    }
}

// ── Directories ──

/// A name in a directory.
#[derive(Debug, PartialEq, Eq)]
pub struct DirectoryEntry {
    pub name: String,
    pub is_dir: bool,
}

/// What reading a directory gave.
#[derive(Debug)]
pub enum DirectoryListing {
    Entries(Vec<DirectoryEntry>),
    NotFound,
    /// Why the directory could not be read.
    Unreadable(String),
    /// Why an entry could not be read.
    BadEntry(String),
}

pub open spec fn path_candidate(entry: DirectoryEntry, shown: Text) -> Text {
    shown + entry.name@ + (if entry.is_dir {
        "/"@
    } else {
        ""@
    })
}

/// The entries that begin with `partial`, as they are shown.
pub open spec fn path_candidates(entries: Seq<DirectoryEntry>, partial: Text, shown: Text) -> Seq<
    Text,
>
    decreases entries.len(),
{
    if entries.len() == 0 {
        Seq::empty()
    } else {
        let rest = path_candidates(entries.drop_last(), partial, shown);
        if text::starts_with(entries.last().name@, partial) {
            rest.push(path_candidate(entries.last(), shown))
        } else {
            rest
        }
    }
}

/// The entries that begin with `partial`, as they are shown.
pub fn entry_candidates(entries: &Vec<DirectoryEntry>, context: &PathContext) -> (r: Vec<String>)
    ensures
        text::texts(r@) == path_candidates(entries@, context@.partial, context@.display_prefix),
{
    let mut out = no_lines();
    let mut i: usize = 0;
    assert(text::texts(out@) =~= path_candidates(
        entries@.take(0),
        context@.partial,
        context@.display_prefix,
    ));
    while i < entries.len()
        invariant
            i <= entries@.len(),
            text::texts(out@) == path_candidates(
                entries@.take(i as int),
                context@.partial,
                context@.display_prefix,
            ),
        decreases entries@.len() - i,
    {
        assert(entries@.take(i + 1).drop_last() =~= entries@.take(i as int));
        if text::str_starts_with(entries[i].name.as_str(), context.partial.as_str()) {
            let suffix = if entries[i].is_dir {
                "/"
            } else {
                ""
            };
            push_line(
                &mut out,
                text::concat3(context.display_prefix.as_str(), entries[i].name.as_str(), suffix),
            );
        }
        i = i + 1;
    }
    assert(entries@.take(i as int) =~= entries@);
    out
}

pub open spec fn listed_candidates(context: ContextModel, listing: DirectoryListing) -> Result<
    Seq<Text>,
    Text,
> {
    match listing {
        DirectoryListing::Entries(entries) => Ok(
            path_candidates(entries@, context.partial, context.display_prefix),
        ),
        DirectoryListing::NotFound => Ok(Seq::empty()),
        DirectoryListing::Unreadable(e) => Err(
            "read completion directory "@ + context.base_dir + ": "@ + e@,
        ),
        DirectoryListing::BadEntry(e) => Err(
            "read completion entry in "@ + context.base_dir + ": "@ + e@,
        ),
    }
}

/// The candidates that a directory gives; one that is not there gives none.
pub fn path_completion_candidates(context: &PathContext, listing: &DirectoryListing) -> (r: Result<
    Vec<String>,
    String,
>)
    ensures
        match r {
            Ok(v) => listed_candidates(context@, *listing) == Ok::<Seq<Text>, Text>(text::texts(v@)),
            Err(e) => listed_candidates(context@, *listing) == Err::<Seq<Text>, Text>(e@),
        },
{
    match listing {
        DirectoryListing::Entries(entries) => Ok(entry_candidates(entries, context)),
        DirectoryListing::NotFound => Ok(no_lines()),
        DirectoryListing::Unreadable(e) => Err(
            text::concat4(
                "read completion directory ",
                context.base_dir.as_str(),
                ": ",
                e.as_str(),
            ),
        ),
        DirectoryListing::BadEntry(e) => Err(
            text::concat4("read completion entry in ", context.base_dir.as_str(), ": ", e.as_str()),
        ),
    }
}

/// A file in a directory of the search path.
#[derive(Debug, PartialEq, Eq)]
pub struct CommandEntry {
    pub name: String,
    pub executable: bool,
}

/// The executable files that begin with a prefix.
pub open spec fn executables(entries: Seq<CommandEntry>, prefix: Text) -> Seq<Text>
    decreases entries.len(),
{
    if entries.len() == 0 {
        Seq::empty()
    } else {
        let rest = executables(entries.drop_last(), prefix);
        if text::starts_with(entries.last().name@, prefix) && entries.last().executable {
            rest.push(entries.last().name@)
        } else {
            rest
        }
    }
}

/// The commands that begin with a prefix; a path is none.
pub open spec fn command_candidates(entries: Seq<CommandEntry>, prefix: Text) -> Seq<Text> {
    if prefix.contains('/') || text::starts_with(prefix, "~"@) {
        Seq::empty()
    } else {
        executables(entries, prefix)
    }
}

fn has_slash(v: &Vec<char>) -> (r: bool)
    ensures
        r == v@.contains('/'),
{
    let mut i: usize = 0;
    while i < v.len()
        invariant
            i <= v@.len(),
            forall|j: int| 0 <= j < i ==> v@[j] != '/',
        decreases v@.len() - i,
    {
        if v[i] == '/' {
            assert(v@[i as int] == '/');
            return true;
        }
        i = i + 1;
    }
    false
}

/// The commands that begin with a prefix.
pub fn command_completion_candidates(prefix: &str, entries: &Vec<CommandEntry>) -> (r: Vec<String>)
    ensures
        text::texts(r@) == command_candidates(entries@, prefix@),
{
    let mut out = no_lines();
    if has_slash(&text::chars_of(prefix)) || text::str_starts_with(prefix, "~") {
        return out;
    }
    let mut i: usize = 0;
    assert(text::texts(out@) =~= executables(entries@.take(0), prefix@));
    while i < entries.len()
        invariant
            i <= entries@.len(),
            text::texts(out@) == executables(entries@.take(i as int), prefix@),
        decreases entries@.len() - i,
    {
        assert(entries@.take(i + 1).drop_last() =~= entries@.take(i as int));
        if text::str_starts_with(entries[i].name.as_str(), prefix) && entries[i].executable {
            push_line(&mut out, entries[i].name.clone());
        }
        i = i + 1;
    }
    assert(entries@.take(i as int) =~= entries@);
    out
}

// ── Everything together ──

/// What completes a line without a colon.
#[derive(Debug, PartialEq, Eq)]
pub enum CompletionSource {
    /// These words.
    Words(Vec<String>),
    /// Files, and commands if one is being typed.
    Files { commands: bool },
}

/// A source over character sequences.
pub enum SourceModel {
    Words(Seq<Text>),
    Files { commands: bool },
}

impl View for CompletionSource {
    type V = SourceModel;

    open spec fn view(&self) -> SourceModel {
        match self {
            CompletionSource::Words(v) => SourceModel::Words(text::texts(v@)),
            CompletionSource::Files { commands } => SourceModel::Files { commands: *commands },
        }
    }
}

pub open spec fn source_of(mode: Mode, line: Text, word: Text) -> SourceModel {
    match mode {
        Mode::Job => SourceModel::Files { commands: typing_command(line) },
        Mode::Cron => match scheduled_part(line) {
            Some(part) => SourceModel::Files { commands: typing_command(part) },
            None => SourceModel::Words(beginning_with(keywords(), word)),
        },
    }
}

/// What completes the word at the end of a line without a colon.
pub fn completion_source(mode: Mode, line_prefix: &str, word: &str) -> (r: CompletionSource)
    ensures
        r@ == source_of(mode, line_prefix@, word@),
{
    match mode {
        Mode::Job => CompletionSource::Files { commands: completing_command(line_prefix) },
        Mode::Cron => match cron_command_part(line_prefix) {
            Some(part) => CompletionSource::Files { commands: completing_command(part.as_str()) },
            None => CompletionSource::Words(keep_beginning_with(&keyword_list(), word)),
        },
    }
}

pub open spec fn texts_result(r: Result<Vec<String>, String>) -> Result<Seq<Text>, Text> {
    match r {
        Ok(v) => Ok(text::texts(v@)),
        Err(e) => Err(e@),
    }
}

/// All candidates in order, each once.
pub open spec fn bare_candidates(
    source: SourceModel,
    paths: Result<Seq<Text>, Text>,
    commands: Seq<Text>,
) -> Result<Seq<Text>, Text> {
    match source {
        SourceModel::Words(w) => Ok(w),
        SourceModel::Files { commands: wanted } => match paths {
            Ok(p) => Ok(
                sorted_texts(
                    if wanted {
                        p + commands
                    } else {
                        p
                    },
                ),
            ),
            Err(e) => Err(e),
        },
    }
}

/// The candidates for the word at the end of a line without a colon, given what
/// the directories hold.
pub fn bare_completion_candidates(
    mode: Mode,
    line_prefix: &str,
    word: &str,
    paths: Result<Vec<String>, String>,
    entries: &Vec<CommandEntry>,
) -> (r: Result<Vec<String>, String>)
    ensures
        texts_result(r) == bare_candidates(
            source_of(mode, line_prefix@, word@),
            texts_result(paths),
            command_candidates(entries@, word@),
        ),
{
    match completion_source(mode, line_prefix, word) {
        CompletionSource::Words(w) => Ok(w),
        CompletionSource::Files { commands } => match paths {
            Ok(p) => {
                let mut all = p;
                if commands {
                    let ghost before = text::texts(all@);
                    let mut more = command_completion_candidates(word, entries);
                    let ghost added = text::texts(more@);
                    all.append(&mut more);
                    assert(text::texts(all@) =~= before + added);
                }
                Ok(sort_strings(&all))
            },
            Err(e) => Err(e),
        },
    }
}

// ── Shared prefixes ──

/// How many characters two texts share from `i` on.
pub open spec fn shared_to(a: Text, b: Text, i: int) -> int
    decreases a.len() - i,
{
    if 0 <= i < a.len() && i < b.len() && a[i] == b[i] {
        shared_to(a, b, i + 1)
    } else {
        i
    }
}

/// What all strings begin with.
pub open spec fn shared(items: Seq<Text>) -> Text
    decreases items.len(),
{
    if items.len() == 0 {
        Seq::empty()
    } else if items.len() == 1 {
        items[0]
    } else {
        let before = shared(items.drop_last());
        before.take(shared_to(before, items.last(), 0))
    }
}

proof fn lemma_shared_to(a: Text, b: Text, i: int)
    requires
        0 <= i <= a.len(),
        i <= b.len(),
        a.take(i) == b.take(i),
    ensures
        i <= shared_to(a, b, i) <= a.len(),
        shared_to(a, b, i) <= b.len(),
        a.take(shared_to(a, b, i)) == b.take(shared_to(a, b, i)),
    decreases a.len() - i,
{
    if i < a.len() && i < b.len() && a[i] == b[i] {
        assert(a.take(i + 1) =~= a.take(i).push(a[i]));
        assert(b.take(i + 1) =~= b.take(i).push(b[i]));
        lemma_shared_to(a, b, i + 1);
    }
}

/// Every string begins with what all share.
pub proof fn lemma_all_begin_with_shared(items: Seq<Text>, k: int)
    requires
        0 <= k < items.len(),
    ensures
        text::starts_with(items[k], shared(items)),
    decreases items.len(),
{
    if items.len() > 1 {
        let d = items.drop_last();
        let before = shared(d);
        let n = shared_to(before, items.last(), 0);
        assert(before.take(0) =~= items.last().take(0));
        lemma_shared_to(before, items.last(), 0);
        if k < d.len() {
            lemma_all_begin_with_shared(d, k);
            assert(d[k] == items[k]);
            assert(items[k].subrange(0, before.len() as int) =~= before);
            assert(items[k].subrange(0, n) =~= before.take(n));
        } else {
            assert(items[k].subrange(0, n) =~= items.last().take(n));
        }
    } else {
        assert(items[k].subrange(0, items[k].len() as int) =~= items[k]);
    }
}

/// What all strings begin with.
pub fn shared_prefix(items: &Vec<String>) -> (r: String)
    ensures
        r@ == shared(text::texts(items@)),
{
    let ghost all = text::texts(items@);
    if items.len() == 0 {
        let r = String::new();
        assert(r@ =~= Seq::<char>::empty());
        return r;
    }
    let mut prefix = text::chars_of(items[0].as_str());
    let mut i: usize = 1;
    assert(all.take(1)[0] == items@[0]@);
    while i < items.len()
        invariant
            1 <= i <= items@.len(),
            all == text::texts(items@),
            prefix@ == shared(all.take(i as int)),
        decreases items@.len() - i,
    {
        let next = text::chars_of(items[i].as_str());
        let mut n: usize = 0;
        while n < prefix.len() && n < next.len() && prefix[n] == next[n]
            invariant
                n <= prefix@.len(),
                n <= next@.len(),
                shared_to(prefix@, next@, 0) == shared_to(prefix@, next@, n as int),
            decreases prefix@.len() - n,
        {
            n = n + 1;
        }
        let shorter = text::sub_chars(&prefix, 0, n);
        proof {
            assert(shorter@ =~= prefix@.take(n as int));
            assert(all.take(i + 1).drop_last() =~= all.take(i as int));
            assert(all.take(i + 1).last() == next@);
        }
        prefix = shorter;
        i = i + 1;
    }
    assert(all.take(i as int) =~= all);
    text::all_string(&prefix)
}

/// What a word is replaced with: the only candidate, or what all candidates
/// share if that is longer.
pub open spec fn replacement_of(candidates: Seq<Text>, word: Text) -> Option<Text> {
    if candidates.len() == 0 {
        None
    } else if candidates.len() == 1 {
        Some(
            if text::ends_with(candidates[0], "/"@) {
                candidates[0]
            } else {
                candidates[0] + " "@
            },
        )
    } else if text::byte_len(shared(candidates)) <= text::byte_len(word) {
        None
    } else {
        Some(shared(candidates))
    }
}

/// What a word is replaced with, if anything.
pub fn completion_replacement(candidates: &Vec<String>, word: &str) -> (r: Option<String>)
    ensures
        text::opt_text(r) == replacement_of(text::texts(candidates@), word@),
{
    let ghost all = text::texts(candidates@);
    if candidates.len() == 0 {
        return None;
    }
    if candidates.len() == 1 {
        assert(all[0] == candidates@[0]@);
        if text::chars_end_with(&text::chars_of(candidates[0].as_str()), "/") {
            return Some(candidates[0].clone());
        }
        return Some(text::concat2(candidates[0].as_str(), " "));
    }
    let common = shared_prefix(candidates);
    if text::str_byte_len(common.as_str()) <= text::str_byte_len(word) {
        return None;
    }
    Some(common)
}

} // verus!
