//! Completion: which candidates there are, and what a word becomes.

use vstd::prelude::*;

use crate::text;
use crate::command_spec::{names, registry};
use crate::laws::texts::{print, printed};
use crate::mode::Mode;
use crate::text::Text;
use crate::tui::completion::{
    beginning_with, builtin_candidates, command_candidates, executables, is_operator, keywords,
    path_candidate, replacement_of, schedule_words, shared, shared_to, source_of, typing_command,
    without_colon, words_in_segment, CommandEntry, DirectoryEntry, SourceModel,
};

verus! {

/// The candidates are just those texts that begin with what was typed, in their order.
pub proof fn lemma_candidates_begin_so(s: Seq<Text>, prefix: Text, t: Text)
    ensures
        beginning_with(s, prefix).contains(t) <==> s.contains(t) && text::starts_with(t, prefix),
        s.len() > 0 && text::starts_with(s.last(), prefix) ==> beginning_with(s, prefix)
            == beginning_with(s.drop_last(), prefix).push(s.last()),
    decreases s.len(),
{
    if s.len() > 0 {
        let front = s.drop_last();
        lemma_candidates_begin_so(front, prefix, t);
        let kept = beginning_with(front, prefix);
        if beginning_with(s, prefix).contains(t) {
            let k = beginning_with(s, prefix).index_of(t);
            if k < kept.len() {
                assert(kept[k] == t);
                assert(kept.contains(t));
                let j = front.index_of(t);
                assert(s[j] == t);
            } else {
                assert(s[s.len() - 1] == t);
            }
        }
        if s.contains(t) && text::starts_with(t, prefix) {
            let j = s.index_of(t);
            if j < front.len() {
                assert(front[j] == t);
                assert(front.contains(t));
                let k = kept.index_of(t);
                assert(beginning_with(s, prefix)[k] == t);
            } else {
                assert(beginning_with(s, prefix)[kept.len() as int] == t);
            }
        }
    }
}

/// Each listed command whose name begins with the word is offered with a colon, whether the
/// word has one or not.
pub proof fn lemma_commands_offered(word: Text, i: int)
    requires
        0 <= i < registry().len(),
        word.len() == 0 || word[0] != ':',
        text::starts_with(registry()[i].name, word),
    ensures
        builtin_candidates(word).contains(seq![':'] + registry()[i].name),
        builtin_candidates(seq![':'] + word) == builtin_candidates(word),
{
    reveal_strlit(":");
    assert(":"@ =~= seq![':']);
    let all = names(registry()).push("restart"@);
    let name = registry()[i].name;
    assert(all[i] == name);
    lemma_candidates_begin_so(all, word, name);
    let kept = beginning_with(all, word);
    let k = kept.index_of(name);
    if text::starts_with(word, ":"@) {
        assert(word.subrange(0, 1)[0] == ':');
    }
    assert(without_colon(word) == word);
    let c = seq![':'] + word;
    assert(c.subrange(0, 1) =~= ":"@);
    assert(c.skip(1) =~= word);
    assert(without_colon(c) == word);
    assert(builtin_candidates(word)[k] == ":"@ + kept[k]);
}

// ── Schedules ──

proof fn lemma_keyword_prints()
    ensures
        print("every"@) == printed(5, 'e', 'v'),
        print("in"@) == printed(2, 'i', 'n'),
        print("at"@) == printed(2, 'a', 't'),
        print("on"@) == printed(2, 'o', 'n'),
        print("daily"@) == printed(5, 'd', 'a'),
        print("hourly"@) == printed(6, 'h', 'o'),
        print("weekly"@) == printed(6, 'w', 'e'),
        print("monthly"@) == printed(7, 'm', 'o'),
        print("cron"@) == printed(4, 'c', 'r'),
{
    reveal_strlit("every");
    reveal_strlit("in");
    reveal_strlit("at");
    reveal_strlit("on");
    reveal_strlit("daily");
    reveal_strlit("hourly");
    reveal_strlit("weekly");
    reveal_strlit("monthly");
    reveal_strlit("cron");
}

/// A schedule takes as many words as it is read from: one for a name, two with a span of
/// time or a time, four with days as well, and six with crontab fields.
pub proof fn lemma_words_of_schedules(a: Text, b: Text, rest: Seq<Text>)
    ensures
        schedule_words(seq!["daily"@] + rest) == Some(1int),
        schedule_words(seq!["hourly"@] + rest) == Some(1int),
        schedule_words(seq!["weekly"@] + rest) == Some(1int),
        schedule_words(seq!["monthly"@] + rest) == Some(1int),
        schedule_words(seq!["every"@] + rest) == Some(2int),
        schedule_words(seq!["in"@] + rest) == Some(2int),
        schedule_words(seq!["cron"@] + rest) == Some(6int),
        schedule_words(seq!["at"@, a, "on"@, b] + rest) == Some(4int),
        schedule_words(seq!["on"@, a, "at"@, b] + rest) == Some(4int),
        rest.len() == 0 || rest[0] != "on"@ ==> schedule_words(seq!["at"@, a] + rest) == Some(2int),
        schedule_words(Seq::empty()) is None,
        !keywords().contains(a) ==> schedule_words(seq![a] + rest) is None,
{
    lemma_keyword_prints();
    assert((seq!["daily"@] + rest)[0] == "daily"@);
    assert((seq!["hourly"@] + rest)[0] == "hourly"@);
    assert((seq!["weekly"@] + rest)[0] == "weekly"@);
    assert((seq!["monthly"@] + rest)[0] == "monthly"@);
    assert((seq!["every"@] + rest)[0] == "every"@);
    assert((seq!["in"@] + rest)[0] == "in"@);
    assert((seq!["cron"@] + rest)[0] == "cron"@);
    let x = seq!["at"@, a, "on"@, b] + rest;
    assert(x[0] == "at"@ && x[2] == "on"@);
    let y = seq!["on"@, a, "at"@, b] + rest;
    assert(y[0] == "on"@ && y[2] == "at"@);
    let z = seq!["at"@, a] + rest;
    assert(z[0] == "at"@);
    if rest.len() > 0 {
        assert(z[2] == rest[0]);
    }
    if !keywords().contains(a) {
        let k = keywords();
        assert(k[0] == "every"@ && k[1] == "in"@ && k[2] == "at"@ && k[3] == "on"@ && k[4]
            == "daily"@ && k[5] == "hourly"@ && k[6] == "weekly"@ && k[7] == "monthly"@ && k[8]
            == "cron"@);
        assert((seq![a] + rest)[0] == a);
    }
}

/// In CRON mode the words of schedules are offered until the schedule is whole, and files
/// behind it; in JOB mode files are offered at once.
pub proof fn lemma_what_is_offered(line: Text, word: Text)
    ensures
        source_of(Mode::Job, line, word) == (SourceModel::Files { commands: typing_command(line) }),
        schedule_words(text::words(line)) is None ==> source_of(Mode::Cron, line, word)
            == SourceModel::Words(beginning_with(keywords(), word)),
        schedule_words(text::words(line)) matches Some(n) ==> {
            &&& text::words(line).len() < n ==> source_of(Mode::Cron, line, word)
                == SourceModel::Words(beginning_with(keywords(), word))
            &&& text::words(line).len() >= n ==> source_of(Mode::Cron, line, word) is Files
        },
{
}

// ── Commands and arguments ──

proof fn lemma_operator_prints()
    ensures
        print("->"@) == printed(2, '-', '>'),
        print("~>"@) == printed(2, '~', '>'),
        print("|||"@) == printed(3, '|', '|'),
        print("|?|"@) == printed(3, '|', '?'),
{
    reveal_strlit("->");
    reveal_strlit("~>");
    reveal_strlit("|||");
    reveal_strlit("|?|");
}

/// Behind an operator a new command begins, and each other word is counted with it.
pub proof fn lemma_words_behind_operators(w: Seq<Text>, t: Text)
    ensures
        words_in_segment(Seq::empty()) == 0,
        is_operator(t) <==> t == "->"@ || t == "~>"@ || t == "|||"@ || t == "|?|"@,
        is_operator(t) ==> words_in_segment(w.push(t)) == 0,
        !is_operator(t) ==> words_in_segment(w.push(t)) == words_in_segment(w) + 1,
{
    assert(w.push(t).drop_last() =~= w);
}

/// A command is typed where at most the word under the cursor stands behind the last
/// operator.
pub proof fn lemma_command_typed(line: Text)
    requires
        text::trim(line).len() > 0,
    ensures
        text::is_white(line.last()) && line.len() > 0 ==> (typing_command(line) <==> words_in_segment(
            text::words(line),
        ) == 0),
        line.len() > 0 && !text::is_white(line.last()) ==> (typing_command(line) <==> words_in_segment(
            text::words(line),
        ) <= 1),
{
}

/// A directory is offered with a separator behind it, and a file without.
pub proof fn lemma_entries_offered(entry: DirectoryEntry, shown: Text)
    ensures
        entry.is_dir ==> path_candidate(entry, shown) == shown + entry.name@ + seq!['/'],
        !entry.is_dir ==> path_candidate(entry, shown) == shown + entry.name@,
{
    reveal_strlit("/");
    reveal_strlit("");
    assert("/"@ =~= seq!['/']);
    assert(""@ =~= Seq::<char>::empty());
    assert(shown + entry.name@ + Seq::<char>::empty() =~= shown + entry.name@);
}

/// Only files that can be run are offered as commands, and none for a path.
pub proof fn lemma_programs_offered(entries: Seq<CommandEntry>, e: CommandEntry, prefix: Text)
    ensures
        prefix.contains('/') ==> command_candidates(entries, prefix).len() == 0,
        text::starts_with(prefix, "~"@) ==> command_candidates(entries, prefix).len() == 0,
        text::starts_with(e.name@, prefix) && e.executable ==> executables(entries.push(e), prefix)
            == executables(entries, prefix).push(e.name@),
        !(text::starts_with(e.name@, prefix) && e.executable) ==> executables(
            entries.push(e),
            prefix,
        ) == executables(entries, prefix),
        executables(Seq::empty(), prefix).len() == 0,
{
    assert(entries.push(e).drop_last() =~= entries);
}

// ── What a word becomes ──

proof fn lemma_shared_maximal(a: Text, b: Text, i: int)
    requires
        0 <= i <= a.len(),
        i <= b.len(),
        forall|j: int| 0 <= j < i ==> a[j] == b[j],
    ensures
        ({
            let n = shared_to(a, b, i);
            &&& i <= n <= a.len() && n <= b.len()
            &&& forall|j: int| 0 <= j < n ==> a[j] == b[j]
            &&& n == a.len() || n == b.len() || a[n] != b[n]
        }),
    decreases a.len() - i,
{
    if i < a.len() && i < b.len() && a[i] == b[i] {
        lemma_shared_maximal(a, b, i + 1);
    }
}

/// Of two candidates the word becomes what both begin with, up to where they differ.
pub proof fn lemma_shared_by_two(a: Text, b: Text)
    ensures
        ({
            let t = shared(seq![a, b]);
            let n = t.len() as int;
            &&& n <= a.len() && n <= b.len()
            &&& forall|j: int| 0 <= j < n ==> t[j] == a[j] && t[j] == b[j]
            &&& n == a.len() || n == b.len() || a[n] != b[n]
        }),
{
    lemma_shared_maximal(a, b, 0);
    let s = seq![a, b];
    assert(s.drop_last() =~= seq![a]);
    reveal_with_fuel(shared, 3);
}

/// One candidate takes the place of the word, with a blank behind it unless it is a
/// directory; several take it as far as they agree, if that is further than the word.
pub proof fn lemma_word_becomes(one: Text, several: Seq<Text>, word: Text)
    ensures
        replacement_of(Seq::empty(), word) is None,
        one.len() > 0 && one.last() == '/' ==> replacement_of(seq![one], word) == Some(one),
        one.len() > 0 && one.last() != '/' ==> replacement_of(seq![one], word) == Some(
            one + seq![' '],
        ),
        several.len() > 1 && text::byte_len(shared(several)) > text::byte_len(word)
            ==> replacement_of(several, word) == Some(shared(several)),
        several.len() > 1 && text::byte_len(shared(several)) <= text::byte_len(word)
            ==> replacement_of(several, word) is None,
{
    reveal_strlit("/");
    reveal_strlit(" ");
    assert("/"@ =~= seq!['/'] && " "@ =~= seq![' ']);
    if one.len() > 0 {
        let n = one.len() as int;
        assert(one.subrange(n - 1, n) =~= seq![one.last()]);
        if one.last() != '/' {
            assert(seq![one.last()][0] != seq!['/'][0]);
        }
    }
}

} // verus!
