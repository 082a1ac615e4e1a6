//! Commands: what each of them means, and which IDs it takes.

use vstd::prelude::*;

use crate::text;
use crate::command::params_map;
use crate::command_spec::{
    begins_with, find_spec, names, registry, suggestions, with_initial, CommandArgKind, SpecModel,
};
use crate::cron::CronModel;
use crate::laws::texts::{lemma_trimmed, lemma_word_len, print, printed, solid};
use crate::mode::Mode;
use crate::parser::ast::{ArgModel, ScheduleModel};
use crate::parser::error::{ErrModel, ParseErrorKind};
use crate::parser::grammar::{
    chain, command, eof_from, mode_param, mode_params, optional_params, peek, peek_span, raw_text,
    shown_texts, single_statement, usize_of,
};
use crate::parser::resolved::{
    chain_without, cron_of, first_words, named, resolved, schedule_meant, schedule_of,
    ResolvedModel,
};
use crate::parser::token::{id_text, IdKind, Span, SpannedModel, TokenModel, ValueModel};
use crate::pipeline::ChainModel;
use crate::text::Text;

verus! {

proof fn lemma_prints()
    ensures
        print("run"@) == printed(3, 'r', 'u'),
        print("cron"@) == printed(4, 'c', 'r'),
        print("kill"@) == printed(4, 'k', 'i'),
        print("retry"@) == printed(5, 'r', 'e'),
        print("out"@) == printed(3, 'o', 'u'),
        print("tail"@) == printed(4, 't', 'a'),
        print("err"@) == printed(3, 'e', 'r'),
        print("fg"@) == printed(2, 'f', 'g'),
        print("wait"@) == printed(4, 'w', 'a'),
        print("send"@) == printed(4, 's', 'e'),
        print("cancel"@) == printed(6, 'c', 'a'),
        print("pause"@) == printed(5, 'p', 'a'),
        print("resume"@) == printed(6, 'r', 'e'),
        print("log"@) == printed(3, 'l', 'o'),
        print("jobs"@) == printed(4, 'j', 'o'),
        print("crons"@) == printed(5, 'c', 'r'),
        print("scopes"@) == printed(6, 's', 'c'),
        print("env"@) == printed(3, 'e', 'n'),
        print("cd"@) == printed(2, 'c', 'd'),
        print("scope"@) == printed(5, 's', 'c'),
        print("help"@) == printed(4, 'h', 'e'),
        print("config"@) == printed(6, 'c', 'o'),
        print("clear"@) == printed(5, 'c', 'l'),
        print("quit"@) == printed(4, 'q', 'u'),
        print("exit"@) == printed(4, 'e', 'x'),
        print("wrap"@) == printed(4, 'w', 'r'),
{
    reveal_strlit("run");
    reveal_strlit("cron");
    reveal_strlit("kill");
    reveal_strlit("retry");
    reveal_strlit("out");
    reveal_strlit("tail");
    reveal_strlit("err");
    reveal_strlit("fg");
    reveal_strlit("wait");
    reveal_strlit("send");
    reveal_strlit("cancel");
    reveal_strlit("pause");
    reveal_strlit("resume");
    reveal_strlit("log");
    reveal_strlit("jobs");
    reveal_strlit("crons");
    reveal_strlit("scopes");
    reveal_strlit("env");
    reveal_strlit("cd");
    reveal_strlit("scope");
    reveal_strlit("help");
    reveal_strlit("config");
    reveal_strlit("clear");
    reveal_strlit("quit");
    reveal_strlit("exit");
    reveal_strlit("wrap");
}

/// The prints of the names in the order in which the commands are listed.
spec fn print_at(i: int) -> int {
    if i == 0 {
        printed(3, 'r', 'u')
    } else if i == 1 {
        printed(4, 'c', 'r')
    } else if i == 2 {
        printed(4, 'k', 'i')
    } else if i == 3 {
        printed(5, 'r', 'e')
    } else if i == 4 {
        printed(3, 'o', 'u')
    } else if i == 5 {
        printed(4, 't', 'a')
    } else if i == 6 {
        printed(3, 'e', 'r')
    } else if i == 7 {
        printed(2, 'f', 'g')
    } else if i == 8 {
        printed(4, 'w', 'a')
    } else if i == 9 {
        printed(4, 's', 'e')
    } else if i == 10 {
        printed(6, 'c', 'a')
    } else if i == 11 {
        printed(5, 'p', 'a')
    } else if i == 12 {
        printed(6, 'r', 'e')
    } else if i == 13 {
        printed(3, 'l', 'o')
    } else if i == 14 {
        printed(4, 'j', 'o')
    } else if i == 15 {
        printed(5, 'c', 'r')
    } else if i == 16 {
        printed(6, 's', 'c')
    } else if i == 17 {
        printed(3, 'e', 'n')
    } else if i == 18 {
        printed(2, 'c', 'd')
    } else if i == 19 {
        printed(5, 's', 'c')
    } else if i == 20 {
        printed(4, 'h', 'e')
    } else if i == 21 {
        printed(6, 'c', 'o')
    } else if i == 22 {
        printed(5, 'c', 'l')
    } else if i == 23 {
        printed(4, 'q', 'u')
    } else if i == 24 {
        printed(4, 'e', 'x')
    } else if i == 25 {
        printed(4, 'w', 'r')
    } else {
        0
    }
}

spec fn place(p: int) -> int {
    if p == printed(3, 'r', 'u') {
        0
    } else if p == printed(4, 'c', 'r') {
        1
    } else if p == printed(4, 'k', 'i') {
        2
    } else if p == printed(5, 'r', 'e') {
        3
    } else if p == printed(3, 'o', 'u') {
        4
    } else if p == printed(4, 't', 'a') {
        5
    } else if p == printed(3, 'e', 'r') {
        6
    } else if p == printed(2, 'f', 'g') {
        7
    } else if p == printed(4, 'w', 'a') {
        8
    } else if p == printed(4, 's', 'e') {
        9
    } else if p == printed(6, 'c', 'a') {
        10
    } else if p == printed(5, 'p', 'a') {
        11
    } else if p == printed(6, 'r', 'e') {
        12
    } else if p == printed(3, 'l', 'o') {
        13
    } else if p == printed(4, 'j', 'o') {
        14
    } else if p == printed(5, 'c', 'r') {
        15
    } else if p == printed(6, 's', 'c') {
        16
    } else if p == printed(3, 'e', 'n') {
        17
    } else if p == printed(2, 'c', 'd') {
        18
    } else if p == printed(5, 's', 'c') {
        19
    } else if p == printed(4, 'h', 'e') {
        20
    } else if p == printed(6, 'c', 'o') {
        21
    } else if p == printed(5, 'c', 'l') {
        22
    } else if p == printed(4, 'q', 'u') {
        23
    } else if p == printed(4, 'e', 'x') {
        24
    } else if p == printed(4, 'w', 'r') {
        25
    } else {
        26
    }
}

proof fn lemma_places(i: int)
    requires
        0 <= i < 26,
    ensures
        place(print_at(i)) == i,
{
}

proof fn lemma_listed(i: int)
    requires
        0 <= i < 26,
    ensures
        registry().len() == 26,
        print(registry()[i].name) == print_at(i),
{
    lemma_prints();
    if i == 0 {
        assert(registry()[0].name == "run"@);
    } else if i == 1 {
        assert(registry()[1].name == "cron"@);
    } else if i == 2 {
        assert(registry()[2].name == "kill"@);
    } else if i == 3 {
        assert(registry()[3].name == "retry"@);
    } else if i == 4 {
        assert(registry()[4].name == "out"@);
    } else if i == 5 {
        assert(registry()[5].name == "tail"@);
    } else if i == 6 {
        assert(registry()[6].name == "err"@);
    } else if i == 7 {
        assert(registry()[7].name == "fg"@);
    } else if i == 8 {
        assert(registry()[8].name == "wait"@);
    } else if i == 9 {
        assert(registry()[9].name == "send"@);
    } else if i == 10 {
        assert(registry()[10].name == "cancel"@);
    } else if i == 11 {
        assert(registry()[11].name == "pause"@);
    } else if i == 12 {
        assert(registry()[12].name == "resume"@);
    } else if i == 13 {
        assert(registry()[13].name == "log"@);
    } else if i == 14 {
        assert(registry()[14].name == "jobs"@);
    } else if i == 15 {
        assert(registry()[15].name == "crons"@);
    } else if i == 16 {
        assert(registry()[16].name == "scopes"@);
    } else if i == 17 {
        assert(registry()[17].name == "env"@);
    } else if i == 18 {
        assert(registry()[18].name == "cd"@);
    } else if i == 19 {
        assert(registry()[19].name == "scope"@);
    } else if i == 20 {
        assert(registry()[20].name == "help"@);
    } else if i == 21 {
        assert(registry()[21].name == "config"@);
    } else if i == 22 {
        assert(registry()[22].name == "clear"@);
    } else if i == 23 {
        assert(registry()[23].name == "quit"@);
    } else if i == 24 {
        assert(registry()[24].name == "exit"@);
    } else if i == 25 {
        assert(registry()[25].name == "wrap"@);
    }
}

proof fn lemma_passed(specs: Seq<SpecModel>, name: Text, k: int)
    requires
        0 <= k <= specs.len(),
        forall|j: int| 0 <= j < k ==> (#[trigger] specs[j]).name != name,
    ensures
        find_spec(specs, name) == find_spec(specs.skip(k), name),
    decreases k,
{
    if k == 0 {
        assert(specs.skip(0) =~= specs);
    } else {
        lemma_passed(specs, name, k - 1);
        assert(specs.skip(k - 1)[0] == specs[k - 1]);
        assert(specs.skip(k - 1).drop_first() =~= specs.skip(k));
    }
}

proof fn lemma_found(i: int)
    requires
        0 <= i < 26,
    ensures
        find_spec(registry(), registry()[i].name) == Some(registry()[i]),
{
    let name = registry()[i].name;
    lemma_listed(i);
    lemma_places(i);
    assert forall|j: int| 0 <= j < i implies (#[trigger] registry()[j]).name != name by {
        lemma_listed(j);
        lemma_places(j);
    }
    lemma_passed(registry(), name, i);
    assert(registry().skip(i)[0] == registry()[i]);
}

/// Each listed command is found by its name, and a name that is not listed by none.
pub proof fn lemma_commands_found(i: int, name: Text)
    ensures
        0 <= i < registry().len() ==> find_spec(registry(), registry()[i].name) == Some(
            registry()[i],
        ),
        find_spec(registry(), name) is None <==> !exists|j: int|
            0 <= j < registry().len() && (#[trigger] registry()[j]).name == name,
{
    lemma_listed(0);
    if 0 <= i < registry().len() {
        lemma_found(i);
    }
    if exists|j: int| 0 <= j < registry().len() && (#[trigger] registry()[j]).name == name {
        let j = choose|j: int| 0 <= j < registry().len() && (#[trigger] registry()[j]).name == name;
        lemma_found(j);
    } else {
        lemma_passed(registry(), name, 26);
        assert(registry().skip(26) =~= Seq::<SpecModel>::empty());
    }
}

// ── From tokens to commands ──

/// What one statement of these tokens means.
#[verifier::opaque]
pub open spec fn meant(ts: Seq<SpannedModel>, len: usize, input: Text, mode: Mode) -> Result<
    ResolvedModel,
    ErrModel,
> {
    match single_statement(ts, len, input) {
        Ok(ast) => resolved(ast, mode),
        Err(e) => Err(e),
    }
}

/// Nothing is meant, for this reason.
pub open spec fn refused(r: Result<ResolvedModel, ErrModel>, kind: ParseErrorKind) -> bool {
    r matches Err(e) && e.kind == kind
}

/// What a command without parameters means.
#[verifier::opaque]
spec fn called(name: Text, arg: ArgModel, span: Span) -> Result<ResolvedModel, ErrModel> {
    named(name, params_map(Seq::empty()), arg, span)
}

/// A command with nothing behind its name.
pub open spec fn alone(ts: Seq<SpannedModel>, name: Text) -> bool {
    ts.len() == 1 && ts[0].token == TokenModel::Command(name)
}

/// A command with an ID behind its name.
pub open spec fn on(ts: Seq<SpannedModel>, name: Text, k: IdKind, n: u32) -> bool {
    &&& ts.len() == 2
    &&& ts[0].token == TokenModel::Command(name)
    &&& ts[1].token == TokenModel::IdRef(k, n)
}

/// The ID of a job is `J` and its number, and that of a cron is `C` and its number.
pub proof fn lemma_ids_written(n: u32)
    ensures
        id_text(IdKind::Job, n) == seq!['J'] + text::decimal(n as nat),
        id_text(IdKind::Cron, n) == seq!['C'] + text::decimal(n as nat),
{
    reveal_strlit("J");
    reveal_strlit("C");
    assert("J"@ =~= seq!['J'] && "C"@ =~= seq!['C']);
}

/// A command that takes no argument means what its name says.
pub proof fn lemma_commands_alone(ts: Seq<SpannedModel>, len: usize, input: Text, mode: Mode)
    ensures
        alone(ts, "jobs"@) ==> meant(ts, len, input, mode) == Ok::<ResolvedModel, ErrModel>(
            ResolvedModel::Jobs,
        ),
        alone(ts, "crons"@) ==> meant(ts, len, input, mode) == Ok::<ResolvedModel, ErrModel>(
            ResolvedModel::Crons,
        ),
        alone(ts, "scopes"@) ==> meant(ts, len, input, mode) == Ok::<ResolvedModel, ErrModel>(
            ResolvedModel::Scopes,
        ),
        alone(ts, "clear"@) ==> meant(ts, len, input, mode) == Ok::<ResolvedModel, ErrModel>(
            ResolvedModel::Clear,
        ),
        alone(ts, "quit"@) ==> meant(ts, len, input, mode) == Ok::<ResolvedModel, ErrModel>(
            ResolvedModel::Quit,
        ),
        alone(ts, "exit"@) ==> meant(ts, len, input, mode) == Ok::<ResolvedModel, ErrModel>(
            ResolvedModel::Quit,
        ),
        alone(ts, "log"@) ==> meant(ts, len, input, mode) == Ok::<ResolvedModel, ErrModel>(
            ResolvedModel::Log(None),
        ),
        alone(ts, "env"@) ==> meant(ts, len, input, mode) == Ok::<ResolvedModel, ErrModel>(
            ResolvedModel::Env(None),
        ),
        alone(ts, "scope"@) ==> meant(ts, len, input, mode) == Ok::<ResolvedModel, ErrModel>(
            ResolvedModel::Scope(None),
        ),
        alone(ts, "help"@) ==> meant(ts, len, input, mode) == Ok::<ResolvedModel, ErrModel>(
            ResolvedModel::Help(None),
        ),
        alone(ts, "config"@) ==> meant(ts, len, input, mode) == Ok::<ResolvedModel, ErrModel>(
            ResolvedModel::Config(None),
        ),
        alone(ts, "wrap"@) ==> meant(ts, len, input, mode) == Ok::<ResolvedModel, ErrModel>(
            ResolvedModel::Wrap(None),
        ),
        alone(ts, "run"@) ==> refused(meant(ts, len, input, mode), ParseErrorKind::MissingArgument),
        alone(ts, "cron"@) ==> refused(meant(ts, len, input, mode), ParseErrorKind::MissingArgument),
        alone(ts, "kill"@) ==> refused(meant(ts, len, input, mode), ParseErrorKind::InvalidIdRef),
        alone(ts, "retry"@) ==> refused(meant(ts, len, input, mode), ParseErrorKind::InvalidIdRef),
        alone(ts, "out"@) ==> refused(meant(ts, len, input, mode), ParseErrorKind::InvalidIdRef),
        alone(ts, "tail"@) ==> refused(meant(ts, len, input, mode), ParseErrorKind::InvalidIdRef),
        alone(ts, "err"@) ==> refused(meant(ts, len, input, mode), ParseErrorKind::InvalidIdRef),
        alone(ts, "fg"@) ==> refused(meant(ts, len, input, mode), ParseErrorKind::InvalidIdRef),
        alone(ts, "wait"@) ==> refused(meant(ts, len, input, mode), ParseErrorKind::InvalidIdRef),
        alone(ts, "send"@) ==> refused(meant(ts, len, input, mode), ParseErrorKind::MissingArgument),
        alone(ts, "cancel"@) ==> refused(meant(ts, len, input, mode), ParseErrorKind::InvalidIdRef),
        alone(ts, "pause"@) ==> refused(meant(ts, len, input, mode), ParseErrorKind::InvalidIdRef),
        alone(ts, "resume"@) ==> refused(meant(ts, len, input, mode), ParseErrorKind::InvalidIdRef),
        alone(ts, "cd"@) ==> refused(meant(ts, len, input, mode), ParseErrorKind::MissingArgument),
{
    let span = Span { start: ts[0].start as usize, end: peek_span(ts, 1, len).start };
    lemma_named_alone(span);
    if alone(ts, "run"@) {
        lemma_alone(ts, len, input, mode, 0, "run"@);
    }
    if alone(ts, "cron"@) {
        lemma_alone(ts, len, input, mode, 1, "cron"@);
    }
    if alone(ts, "kill"@) {
        lemma_alone(ts, len, input, mode, 2, "kill"@);
    }
    if alone(ts, "retry"@) {
        lemma_alone(ts, len, input, mode, 3, "retry"@);
    }
    if alone(ts, "out"@) {
        lemma_alone(ts, len, input, mode, 4, "out"@);
    }
    if alone(ts, "tail"@) {
        lemma_alone(ts, len, input, mode, 5, "tail"@);
    }
    if alone(ts, "err"@) {
        lemma_alone(ts, len, input, mode, 6, "err"@);
    }
    if alone(ts, "fg"@) {
        lemma_alone(ts, len, input, mode, 7, "fg"@);
    }
    if alone(ts, "wait"@) {
        lemma_alone(ts, len, input, mode, 8, "wait"@);
    }
    if alone(ts, "send"@) {
        lemma_alone(ts, len, input, mode, 9, "send"@);
    }
    if alone(ts, "cancel"@) {
        lemma_alone(ts, len, input, mode, 10, "cancel"@);
    }
    if alone(ts, "pause"@) {
        lemma_alone(ts, len, input, mode, 11, "pause"@);
    }
    if alone(ts, "resume"@) {
        lemma_alone(ts, len, input, mode, 12, "resume"@);
    }
    if alone(ts, "log"@) {
        lemma_alone(ts, len, input, mode, 13, "log"@);
    }
    if alone(ts, "jobs"@) {
        lemma_alone(ts, len, input, mode, 14, "jobs"@);
    }
    if alone(ts, "crons"@) {
        lemma_alone(ts, len, input, mode, 15, "crons"@);
    }
    if alone(ts, "scopes"@) {
        lemma_alone(ts, len, input, mode, 16, "scopes"@);
    }
    if alone(ts, "env"@) {
        lemma_alone(ts, len, input, mode, 17, "env"@);
    }
    if alone(ts, "cd"@) {
        lemma_alone(ts, len, input, mode, 18, "cd"@);
    }
    if alone(ts, "scope"@) {
        lemma_alone(ts, len, input, mode, 19, "scope"@);
    }
    if alone(ts, "help"@) {
        lemma_alone(ts, len, input, mode, 20, "help"@);
    }
    if alone(ts, "config"@) {
        lemma_alone(ts, len, input, mode, 21, "config"@);
    }
    if alone(ts, "clear"@) {
        lemma_alone(ts, len, input, mode, 22, "clear"@);
    }
    if alone(ts, "quit"@) {
        lemma_alone(ts, len, input, mode, 23, "quit"@);
    }
    if alone(ts, "exit"@) {
        lemma_alone(ts, len, input, mode, 24, "exit"@);
    }
    if alone(ts, "wrap"@) {
        lemma_alone(ts, len, input, mode, 25, "wrap"@);
    }
}

/// The tree of a command with nothing behind its name.
proof fn lemma_alone(ts: Seq<SpannedModel>, len: usize, input: Text, mode: Mode, i: int, name: Text)
    requires
        0 <= i < 26,
        registry()[i].name == name,
        alone(ts, name),
    ensures
        ({
            let k = registry()[i].arg_kind;
            let span = Span { start: ts[0].start as usize, end: peek_span(ts, 1, len).start };
            if k is Empty || k is OptionalId || k is OptionalText {
                meant(ts, len, input, mode) == called(
                    name,
                    ArgModel::Empty,
                    span,
                )
            } else {
                refused(
                    meant(ts, len, input, mode),
                    if k is Id || k is Tail {
                        ParseErrorKind::InvalidIdRef
                    } else {
                        ParseErrorKind::MissingArgument
                    },
                )
            }
        }),
{
    reveal(meant);
    reveal(called);
    lemma_found(i);
    assert(shown_texts(ts, 1, 1) =~= Seq::<Text>::empty());
    assert(eof_from(ts, 1) == 1);
    assert(peek(ts, 1) is Eof);
}

proof fn lemma_named_alone(span: Span)
    ensures
        called("jobs"@, ArgModel::Empty, span) == Ok::<ResolvedModel, ErrModel>(
            ResolvedModel::Jobs,
        ),
        called("crons"@, ArgModel::Empty, span) == Ok::<ResolvedModel, ErrModel>(
            ResolvedModel::Crons,
        ),
        called("scopes"@, ArgModel::Empty, span) == Ok::<ResolvedModel, ErrModel>(
            ResolvedModel::Scopes,
        ),
        called("clear"@, ArgModel::Empty, span) == Ok::<ResolvedModel, ErrModel>(
            ResolvedModel::Clear,
        ),
        called("quit"@, ArgModel::Empty, span) == Ok::<ResolvedModel, ErrModel>(
            ResolvedModel::Quit,
        ),
        called("exit"@, ArgModel::Empty, span) == Ok::<ResolvedModel, ErrModel>(
            ResolvedModel::Quit,
        ),
        called("log"@, ArgModel::Empty, span) == Ok::<ResolvedModel, ErrModel>(
            ResolvedModel::Log(None),
        ),
        called("env"@, ArgModel::Empty, span) == Ok::<ResolvedModel, ErrModel>(
            ResolvedModel::Env(None),
        ),
        called("scope"@, ArgModel::Empty, span) == Ok::<ResolvedModel, ErrModel>(
            ResolvedModel::Scope(None),
        ),
        called("help"@, ArgModel::Empty, span) == Ok::<ResolvedModel, ErrModel>(
            ResolvedModel::Help(None),
        ),
        called("config"@, ArgModel::Empty, span) == Ok::<ResolvedModel, ErrModel>(
            ResolvedModel::Config(None),
        ),
        called("wrap"@, ArgModel::Empty, span) == Ok::<ResolvedModel, ErrModel>(
            ResolvedModel::Wrap(None),
        ),
{
    reveal(called);
    lemma_prints();
}

/// A command on an ID means what its name says, of that ID: jobs can be retried, read,
/// followed, fetched to the front, waited for and cancelled, crons can be paused and
/// resumed, and both can be killed and looked up in the log. On the other kind of ID each
/// is refused.
pub proof fn lemma_commands_on_ids(
    ts: Seq<SpannedModel>,
    len: usize,
    input: Text,
    mode: Mode,
    k: IdKind,
    n: u32,
)
    ensures
        on(ts, "retry"@, k, n) && k is Job ==> meant(ts, len, input, mode) == Ok::<ResolvedModel, ErrModel>(
            ResolvedModel::Retry(id_text(k, n)),
        ),
        on(ts, "retry"@, k, n) && !(k is Job) ==> refused(
            meant(ts, len, input, mode),
            ParseErrorKind::InvalidIdRef,
        ),
        on(ts, "out"@, k, n) && k is Job ==> meant(ts, len, input, mode) == Ok::<ResolvedModel, ErrModel>(
            ResolvedModel::Out { id: id_text(k, n), tail_bytes: None },
        ),
        on(ts, "out"@, k, n) && !(k is Job) ==> refused(
            meant(ts, len, input, mode),
            ParseErrorKind::InvalidIdRef,
        ),
        on(ts, "err"@, k, n) && k is Job ==> meant(ts, len, input, mode) == Ok::<ResolvedModel, ErrModel>(
            ResolvedModel::ErrOutput(id_text(k, n)),
        ),
        on(ts, "err"@, k, n) && !(k is Job) ==> refused(
            meant(ts, len, input, mode),
            ParseErrorKind::InvalidIdRef,
        ),
        on(ts, "fg"@, k, n) && k is Job ==> meant(ts, len, input, mode) == Ok::<ResolvedModel, ErrModel>(
            ResolvedModel::Fg(id_text(k, n)),
        ),
        on(ts, "fg"@, k, n) && !(k is Job) ==> refused(
            meant(ts, len, input, mode),
            ParseErrorKind::InvalidIdRef,
        ),
        on(ts, "wait"@, k, n) && k is Job ==> meant(ts, len, input, mode) == Ok::<ResolvedModel, ErrModel>(
            ResolvedModel::Wait(id_text(k, n)),
        ),
        on(ts, "wait"@, k, n) && !(k is Job) ==> refused(
            meant(ts, len, input, mode),
            ParseErrorKind::InvalidIdRef,
        ),
        on(ts, "cancel"@, k, n) && k is Job ==> meant(ts, len, input, mode) == Ok::<ResolvedModel, ErrModel>(
            ResolvedModel::Cancel(id_text(k, n)),
        ),
        on(ts, "cancel"@, k, n) && !(k is Job) ==> refused(
            meant(ts, len, input, mode),
            ParseErrorKind::InvalidIdRef,
        ),
        on(ts, "tail"@, k, n) && k is Job ==> meant(ts, len, input, mode) == Ok::<ResolvedModel, ErrModel>(
            ResolvedModel::Out { id: id_text(k, n), tail_bytes: Some(8192) },
        ),
        on(ts, "tail"@, k, n) && !(k is Job) ==> refused(
            meant(ts, len, input, mode),
            ParseErrorKind::InvalidIdRef,
        ),
        on(ts, "pause"@, k, n) && k is Cron ==> meant(ts, len, input, mode) == Ok::<ResolvedModel, ErrModel>(
            ResolvedModel::Pause(id_text(k, n)),
        ),
        on(ts, "pause"@, k, n) && !(k is Cron) ==> refused(
            meant(ts, len, input, mode),
            ParseErrorKind::InvalidIdRef,
        ),
        on(ts, "resume"@, k, n) && k is Cron ==> meant(ts, len, input, mode) == Ok::<ResolvedModel, ErrModel>(
            ResolvedModel::Resume(id_text(k, n)),
        ),
        on(ts, "resume"@, k, n) && !(k is Cron) ==> refused(
            meant(ts, len, input, mode),
            ParseErrorKind::InvalidIdRef,
        ),
        on(ts, "kill"@, k, n) ==> meant(ts, len, input, mode) == Ok::<ResolvedModel, ErrModel>(
            ResolvedModel::Kill(id_text(k, n)),
        ),
        on(ts, "log"@, k, n) ==> meant(ts, len, input, mode) == Ok::<ResolvedModel, ErrModel>(
            ResolvedModel::Log(Some(id_text(k, n))),
        ),
{
    let span = Span { start: ts[0].start as usize, end: peek_span(ts, 2, len).start };
    lemma_named_on(k, n, span);
    if on(ts, "retry"@, k, n) {
        lemma_on(ts, len, input, mode, k, n, 3, "retry"@);
    }
    if on(ts, "out"@, k, n) {
        lemma_on(ts, len, input, mode, k, n, 4, "out"@);
    }
    if on(ts, "err"@, k, n) {
        lemma_on(ts, len, input, mode, k, n, 6, "err"@);
    }
    if on(ts, "fg"@, k, n) {
        lemma_on(ts, len, input, mode, k, n, 7, "fg"@);
    }
    if on(ts, "wait"@, k, n) {
        lemma_on(ts, len, input, mode, k, n, 8, "wait"@);
    }
    if on(ts, "cancel"@, k, n) {
        lemma_on(ts, len, input, mode, k, n, 10, "cancel"@);
    }
    if on(ts, "tail"@, k, n) {
        lemma_on(ts, len, input, mode, k, n, 5, "tail"@);
    }
    if on(ts, "pause"@, k, n) {
        lemma_on(ts, len, input, mode, k, n, 11, "pause"@);
    }
    if on(ts, "resume"@, k, n) {
        lemma_on(ts, len, input, mode, k, n, 12, "resume"@);
    }
    if on(ts, "kill"@, k, n) {
        lemma_on(ts, len, input, mode, k, n, 2, "kill"@);
    }
    if on(ts, "log"@, k, n) {
        lemma_on(ts, len, input, mode, k, n, 13, "log"@);
    }
}

/// The tree of a command on an ID.
proof fn lemma_on(
    ts: Seq<SpannedModel>,
    len: usize,
    input: Text,
    mode: Mode,
    k: IdKind,
    n: u32,
    i: int,
    name: Text,
)
    requires
        0 <= i < 26,
        registry()[i].name == name,
        on(ts, name, k, n),
    ensures
        ({
            let span = Span { start: ts[0].start as usize, end: peek_span(ts, 2, len).start };
            let kinds = match registry()[i].arg_kind {
                CommandArgKind::Id(a) => Some(a),
                CommandArgKind::OptionalId(a) => Some(a),
                CommandArgKind::Tail(a) => Some(a),
                _ => None,
            };
            kinds matches Some(a) ==> if a is JobOrCron || (a is Job && k is Job) || (a is Cron
                && k is Cron) {
                meant(ts, len, input, mode) == called(
                    name,
                    if registry()[i].arg_kind is Tail {
    ArgModel::TailRef(k, n, None)
} else {
    ArgModel::IdRef(k, n)
},
                    span,
                )
            } else {
                refused(meant(ts, len, input, mode), ParseErrorKind::InvalidIdRef)
            }
        }),
{
    reveal(meant);
    reveal(called);
    lemma_found(i);
    assert(peek(ts, 2) is Eof);
}

proof fn lemma_named_on(k: IdKind, n: u32, span: Span)
    ensures
        called("retry"@, ArgModel::IdRef(k, n), span) == Ok::<ResolvedModel, ErrModel>(
            ResolvedModel::Retry(id_text(k, n)),
        ),
        called("out"@, ArgModel::IdRef(k, n), span) == Ok::<ResolvedModel, ErrModel>(
            ResolvedModel::Out { id: id_text(k, n), tail_bytes: None },
        ),
        called("err"@, ArgModel::IdRef(k, n), span) == Ok::<ResolvedModel, ErrModel>(
            ResolvedModel::ErrOutput(id_text(k, n)),
        ),
        called("fg"@, ArgModel::IdRef(k, n), span) == Ok::<ResolvedModel, ErrModel>(
            ResolvedModel::Fg(id_text(k, n)),
        ),
        called("wait"@, ArgModel::IdRef(k, n), span) == Ok::<ResolvedModel, ErrModel>(
            ResolvedModel::Wait(id_text(k, n)),
        ),
        called("cancel"@, ArgModel::IdRef(k, n), span) == Ok::<ResolvedModel, ErrModel>(
            ResolvedModel::Cancel(id_text(k, n)),
        ),
        called("tail"@, ArgModel::TailRef(k, n, None), span) == Ok::<ResolvedModel, ErrModel>(
            ResolvedModel::Out { id: id_text(k, n), tail_bytes: Some(8192) },
        ),
        called("pause"@, ArgModel::IdRef(k, n), span) == Ok::<ResolvedModel, ErrModel>(
            ResolvedModel::Pause(id_text(k, n)),
        ),
        called("resume"@, ArgModel::IdRef(k, n), span) == Ok::<ResolvedModel, ErrModel>(
            ResolvedModel::Resume(id_text(k, n)),
        ),
        called("kill"@, ArgModel::IdRef(k, n), span) == Ok::<ResolvedModel, ErrModel>(
            ResolvedModel::Kill(id_text(k, n)),
        ),
        called("log"@, ArgModel::IdRef(k, n), span) == Ok::<ResolvedModel, ErrModel>(
            ResolvedModel::Log(Some(id_text(k, n))),
        ),
{
    reveal(called);
    lemma_prints();
}

/// `:tail` takes the number of bytes from the word behind the ID.
pub proof fn lemma_tail_of_so_many_bytes(
    ts: Seq<SpannedModel>,
    len: usize,
    input: Text,
    mode: Mode,
    n: u32,
    b: usize,
)
    requires
        ts.len() == 3,
        ts[0].token == TokenModel::Command("tail"@),
        ts[1].token == TokenModel::IdRef(IdKind::Job, n),
        ts[2].token == TokenModel::Word(text::decimal(b as nat)),
    ensures
        meant(ts, len, input, mode) == Ok::<ResolvedModel, ErrModel>(
            ResolvedModel::Out { id: id_text(IdKind::Job, n), tail_bytes: Some(b) },
        ),
{
    reveal(meant);
    lemma_found(5);
    lemma_prints();
    assert(registry()[5].name == "tail"@);
    text::lemma_decimal_read_back(b as nat, usize::MAX as nat);
    assert(text::is_digit(text::decimal(b as nat)[0]));
    assert(usize_of(text::decimal(b as nat)) == Some(b as nat));
    assert(peek(ts, 3) is Eof);
}

proof fn lemma_to_the_end(ts: Seq<SpannedModel>, pos: int)
    requires
        0 <= pos <= ts.len(),
        forall|i: int| pos <= i < ts.len() ==> !((#[trigger] ts[i]).token is Eof),
    ensures
        eof_from(ts, pos) == ts.len(),
    decreases ts.len() - pos,
{
    if pos < ts.len() {
        lemma_to_the_end(ts, pos + 1);
    }
}

/// A command with words behind its name, none of which is the end.
pub open spec fn with_words(ts: Seq<SpannedModel>, name: Text) -> bool {
    &&& ts.len() > 1
    &&& ts[0].token == TokenModel::Command(name)
    &&& forall|i: int| 0 <= i < ts.len() ==> !((#[trigger] ts[i]).token is Eof)
    &&& !(ts[1].token is ModeParenOpen)
}

/// `:cd` goes to just what is written behind it.
pub proof fn lemma_directory_as_written(ts: Seq<SpannedModel>, len: usize, input: Text, mode: Mode)
    requires
        with_words(ts, "cd"@),
        text::byte_slice(input, ts[1].start, ts.last().end).len() > 0,
    ensures
        meant(ts, len, input, mode) == Ok::<ResolvedModel, ErrModel>(
            ResolvedModel::Cd(text::byte_slice(input, ts[1].start, ts.last().end)),
        ),
{
    reveal(meant);
    lemma_found(18);
    lemma_prints();
    assert(registry()[18].name == "cd"@);
    lemma_to_the_end(ts, 1);
    assert(peek(ts, ts.len() as int) is Eof);
}

/// The words behind `:env`, `:scope`, `:help`, `:config` and `:wrap` are handed on, with a
/// space between them.
pub proof fn lemma_words_handed_on(ts: Seq<SpannedModel>, len: usize, input: Text, mode: Mode)
    ensures
        ({
            let words = text::join(shown_texts(ts, 1, ts.len() as int), " "@);
            words.len() > 0 ==> {
                &&& with_words(ts, "env"@) ==> meant(ts, len, input, mode) == Ok::<ResolvedModel, ErrModel>(
                    ResolvedModel::Env(Some(words)),
                )
                &&& with_words(ts, "scope"@) ==> meant(ts, len, input, mode) == Ok::<ResolvedModel, ErrModel>(
                    ResolvedModel::Scope(Some(words)),
                )
                &&& with_words(ts, "help"@) ==> meant(ts, len, input, mode) == Ok::<ResolvedModel, ErrModel>(
                    ResolvedModel::Help(Some(words)),
                )
                &&& with_words(ts, "config"@) ==> meant(ts, len, input, mode) == Ok::<ResolvedModel, ErrModel>(
                    ResolvedModel::Config(Some(words)),
                )
                &&& with_words(ts, "wrap"@) ==> meant(ts, len, input, mode) == Ok::<ResolvedModel, ErrModel>(
                    ResolvedModel::Wrap(Some(words)),
                )
            }
        }),
{
    let words = text::join(shown_texts(ts, 1, ts.len() as int), " "@);
    let span = Span { start: ts[0].start as usize, end: peek_span(ts, ts.len() as int, len).start };
    lemma_named_with(words, span);
    if with_words(ts, "env"@) {
        lemma_with(ts, len, input, mode, 17, "env"@);
    }
    if with_words(ts, "scope"@) {
        lemma_with(ts, len, input, mode, 19, "scope"@);
    }
    if with_words(ts, "help"@) {
        lemma_with(ts, len, input, mode, 20, "help"@);
    }
    if with_words(ts, "config"@) {
        lemma_with(ts, len, input, mode, 21, "config"@);
    }
    if with_words(ts, "wrap"@) {
        lemma_with(ts, len, input, mode, 25, "wrap"@);
    }
}

/// The tree of a command with words behind its name.
proof fn lemma_with(ts: Seq<SpannedModel>, len: usize, input: Text, mode: Mode, i: int, name: Text)
    requires
        0 <= i < 26,
        registry()[i].name == name,
        registry()[i].arg_kind is OptionalText,
        with_words(ts, name),
    ensures
        ({
            let words = text::join(shown_texts(ts, 1, ts.len() as int), " "@);
            let span = Span {
                start: ts[0].start as usize,
                end: peek_span(ts, ts.len() as int, len).start,
            };
            words.len() > 0 ==> meant(ts, len, input, mode) == called(
                name,
                ArgModel::Text(words),
                span,
            )
        }),
{
    reveal(meant);
    reveal(called);
    lemma_found(i);
    lemma_to_the_end(ts, 1);
    assert(peek(ts, ts.len() as int) is Eof);
}

proof fn lemma_named_with(words: Text, span: Span)
    ensures
        words.len() > 0 ==> {
            &&& called("env"@, ArgModel::Text(words), span) == Ok::<ResolvedModel, ErrModel>(
                ResolvedModel::Env(Some(words)),
            )
            &&& called("scope"@, ArgModel::Text(words), span) == Ok::<ResolvedModel, ErrModel>(
                ResolvedModel::Scope(Some(words)),
            )
            &&& called("help"@, ArgModel::Text(words), span) == Ok::<ResolvedModel, ErrModel>(
                ResolvedModel::Help(Some(words)),
            )
            &&& called("config"@, ArgModel::Text(words), span) == Ok::<ResolvedModel, ErrModel>(
                ResolvedModel::Config(Some(words)),
            )
            &&& called("wrap"@, ArgModel::Text(words), span) == Ok::<ResolvedModel, ErrModel>(
                ResolvedModel::Wrap(Some(words)),
            )
        },
{
    reveal(called);
    lemma_prints();
}

/// `:send` sends what stands behind the job to that job.
pub proof fn lemma_text_sent(
    ts: Seq<SpannedModel>,
    len: usize,
    input: Text,
    mode: Mode,
    n: u32,
    w: Text,
    data: Text,
)
    requires
        with_words(ts, "send"@),
        ts[1].token == TokenModel::IdRef(IdKind::Job, n),
        solid(w),
        data.len() > 0 && !text::is_white(data[0]) && !text::is_white(data[data.len() - 1]),
        text::byte_slice(input, ts[1].start, ts.last().end) == w + seq![' '] + data,
    ensures
        meant(ts, len, input, mode) == Ok::<ResolvedModel, ErrModel>(
            ResolvedModel::Send { id: w, data },
        ),
{
    reveal(meant);
    lemma_found(9);
    lemma_prints();
    assert(registry()[9].name == "send"@);
    lemma_to_the_end(ts, 1);
    assert(peek(ts, ts.len() as int) is Eof);
    let t = w + seq![' '] + data;
    let none = Seq::<char>::empty();
    assert(none + t + none =~= t);
    assert(t[0] == w[0] && t[t.len() - 1] == data[data.len() - 1]);
    lemma_trimmed(none, t, none);
    assert(t =~= w + (seq![' '] + data));
    lemma_word_len(w, seq![' '] + data);
    assert(t.take(w.len() as int) =~= w);
    assert(t.skip(w.len() as int) =~= seq![' '] + data + none);
    lemma_trimmed(seq![' '], data, none);
    let arg = ArgModel::Text(t);
    assert(raw_text(ts, 1, input) == t);
}

/// `:send` does not send to a cron.
pub proof fn lemma_nothing_sent_to_crons(
    ts: Seq<SpannedModel>,
    len: usize,
    input: Text,
    mode: Mode,
    n: u32,
)
    requires
        with_words(ts, "send"@),
        ts[1].token == TokenModel::IdRef(IdKind::Cron, n),
    ensures
        meant(ts, len, input, mode) is Err,
{
    reveal(meant);
    lemma_found(9);
    lemma_prints();
    assert(registry()[9].name == "send"@);
}

/// `:run` runs the chain behind it, and in JOB mode so does the chain alone.
pub proof fn lemma_chain_is_run(
    ts: Seq<SpannedModel>,
    len: usize,
    input: Text,
    c: ChainModel,
    mode: Mode,
)
    ensures
        with_words(ts, "run"@) && chain(ts, 1, len) == Ok::<(ChainModel, int), ErrModel>(
            (c, ts.len() as int),
        ) ==> meant(ts, len, input, mode) == Ok::<ResolvedModel, ErrModel>(
            ResolvedModel::Run { chain: c, params: Map::empty() },
        ),
        ts.len() > 0 && !(ts[0].token is Command) && !(ts[0].token is Eof) && chain(ts, 0, len)
            == Ok::<(ChainModel, int), ErrModel>((c, ts.len() as int))
            && !crate::parser::resolved::asks_for_help(ArgModel::Chain(c)) ==> meant(
            ts,
            len,
            input,
            Mode::Job,
        ) == Ok::<ResolvedModel, ErrModel>(
            ResolvedModel::Run { chain: c, params: Map::empty() },
        ),
{
    reveal(meant);
    lemma_found(0);
    lemma_prints();
    assert(registry()[0].name == "run"@);
    assert(peek(ts, ts.len() as int) is Eof);
    assert(params_map(Seq::empty()) =~= Map::<Text, ValueModel>::empty());
}

/// A lone `?` asks for help on the mode.
pub proof fn lemma_help_on_the_mode(arg: ArgModel, span: Span)
    requires
        crate::parser::resolved::asks_for_help(arg),
    ensures
        crate::parser::resolved::bare(arg, Mode::Job, span) == Ok::<ResolvedModel, ErrModel>(
            ResolvedModel::Help(Some("job"@)),
        ),
        crate::parser::resolved::bare(arg, Mode::Cron, span) == Ok::<ResolvedModel, ErrModel>(
            ResolvedModel::Help(Some("cron"@)),
        ),
        "job"@ != "cron"@,
{
    reveal_strlit("job");
    reveal_strlit("cron");
    assert("job"@.len() == 3 && "cron"@.len() == 4);
}

/// A name that is not listed is refused as unknown.
pub proof fn lemma_unknown_commands(
    ts: Seq<SpannedModel>,
    len: usize,
    input: Text,
    mode: Mode,
    name: Text,
)
    requires
        ts.len() > 0,
        ts[0].token == TokenModel::Command(name),
        find_spec(registry(), name) is None,
    ensures
        meant(ts, len, input, mode) matches Err(e) && e.kind == ParseErrorKind::UnknownCommand,
{
    reveal(meant);
}

proof fn lemma_kept(all: Seq<Text>, c: char, t: Text)
    ensures
        with_initial(all, c).contains(t) <==> all.contains(t) && t.len() > 0 && t[0] == c,
    decreases all.len(),
{
    reveal(Seq::filter);
    let f = begins_with(c);
    if all.len() > 0 {
        let front = all.drop_last();
        lemma_kept(front, c, t);
        let kept = front.filter(f);
        if all.filter(f).contains(t) {
            let k = all.filter(f).index_of(t);
            if k < kept.len() {
                assert(kept[k] == t);
                assert(kept.contains(t));
                let j = front.index_of(t);
                assert(all[j] == t);
            } else {
                assert(all[all.len() - 1] == t);
            }
        }
        if all.contains(t) && f(t) {
            let j = all.index_of(t);
            if j < front.len() {
                assert(front[j] == t);
                assert(front.contains(t));
                let k = kept.index_of(t);
                assert(all.filter(f)[k] == t);
            } else {
                assert(all.filter(f)[kept.len() as int] == t);
            }
        }
    } else {
        assert(all.filter(f) =~= all);
    }
}

/// For an unknown command those are offered that begin with the same letter, if there are
/// any, and else all.
pub proof fn lemma_commands_suggested(name: Text, i: int, t: Text)
    requires
        name.len() > 0,
        0 <= i < registry().len(),
    ensures
        registry()[i].name.len() > 0 && registry()[i].name[0] == name[0] ==> suggestions(
            name,
        ).contains(registry()[i].name),
        suggestions(name).contains(t) ==> (exists|j: int|
            0 <= j < registry().len() && (#[trigger] registry()[j]).name == t),
        (exists|j: int|
            0 <= j < registry().len() && (#[trigger] registry()[j]).name.len() > 0
                && registry()[j].name[0] == name[0]) && suggestions(name).contains(t) ==> t[0]
            == name[0],
{
    let all = names(registry());
    let c = name[0];
    lemma_kept(all, c, registry()[i].name);
    lemma_kept(all, c, t);
    assert(all[i] == registry()[i].name);
    if exists|j: int|
        0 <= j < registry().len() && (#[trigger] registry()[j]).name.len() > 0
            && registry()[j].name[0] == name[0] {
        let j = choose|j: int|
            0 <= j < registry().len() && (#[trigger] registry()[j]).name.len() > 0
                && registry()[j].name[0] == name[0];
        lemma_kept(all, c, registry()[j].name);
        assert(all[j] == registry()[j].name);
    }
    if suggestions(name).contains(t) {
        let k = all.index_of(t);
        assert(registry()[k].name == t);
    }
}

// ── Crons ──

/// A cron runs the command behind its schedule, on that schedule; without a command it is
/// refused.
pub proof fn lemma_cron_runs_its_command(
    c: ChainModel,
    params: Map<Text, ValueModel>,
    span: Span,
    n: int,
    s: ScheduleModel,
    m: CronModel,
)
    requires
        first_words(c) is Some,
        schedule_of(first_words(c)->0, span) == Ok::<(ScheduleModel, int), ErrModel>((s, n)),
        schedule_meant(s) == Some(m),
    ensures
        n != (first_words(c)->0).len() ==> cron_of(c, params, span) == Ok::<ResolvedModel, ErrModel>(
            ResolvedModel::Cron { schedule: m, chain: chain_without(c, n), params },
        ),
        n == (first_words(c)->0).len() ==> refused(
            cron_of(c, params, span),
            ParseErrorKind::MissingArgument,
        ),
{
}

// ── Mode parameters ──

/// The last value given to a parameter holds, and the other parameters keep theirs.
pub proof fn lemma_last_value_holds(v: Seq<(Text, ValueModel)>, key: Text, x: ValueModel, other: Text)
    ensures
        params_map(v.push((key, x))).contains_key(key),
        params_map(v.push((key, x)))[key] == x,
        other != key ==> (params_map(v.push((key, x))).contains_key(other) <==> params_map(
            v,
        ).contains_key(other)),
        other != key && params_map(v).contains_key(other) ==> params_map(v.push((key, x)))[other]
            == params_map(v)[other],
        params_map(Seq::empty()) == Map::<Text, ValueModel>::empty(),
{
    assert(v.push((key, x)).drop_last() =~= v);
}

/// `:run(pty=...)` sets the parameter to the boolean that is written.
pub proof fn lemma_pty_set(ts: Seq<SpannedModel>, len: usize, b: bool)
    requires
        ts.len() >= 6,
        ts[1].token is ModeParenOpen,
        ts[2].token == TokenModel::Word("pty"@),
        ts[3].token is ParamEq,
        ts[4].token == TokenModel::ParamValue(ValueModel::Bool(b)),
        ts[5].token is ModeParenClose,
    ensures
        optional_params(ts, 1, len, registry()[0]) == Ok::<
            (Seq<(Text, ValueModel)>, int),
            ErrModel,
        >((seq![("pty"@, ValueModel::Bool(b))], 6)),
        optional_params(ts, 1, len, registry()[1]) is Err,
{
    lemma_prints();
    reveal_strlit("need.");
    reveal_strlit("pty");
    assert("pty"@.len() == 3 && "need."@.len() == 5);
    assert(registry()[0].name == "run"@ && registry()[1].name == "cron"@);
    reveal_with_fuel(mode_params, 3);
    assert(Seq::<(Text, ValueModel)>::empty().push(("pty"@, ValueModel::Bool(b))) =~= seq![
        ("pty"@, ValueModel::Bool(b)),
    ]);
}

/// What a job needs is named behind `need.`, and its quantity is kept as it is written.
pub proof fn lemma_needs_set(
    ts: Seq<SpannedModel>,
    pos: int,
    len: usize,
    command: Text,
    key: Text,
    q: Text,
)
    requires
        0 <= pos && pos + 3 <= ts.len(),
        key.len() > 0,
        ts[pos].token == TokenModel::Word("need."@ + key),
        ts[pos + 1].token is ParamEq,
        ts[pos + 2].token == TokenModel::ParamValue(ValueModel::Str(q)) || ts[pos + 2].token
            == TokenModel::Word(q),
    ensures
        mode_param(ts, pos, len, command) == Ok::<((Text, ValueModel), int), ErrModel>(
            (("need."@ + key, ValueModel::Str(q)), pos + 3),
        ),
{
    reveal_strlit("need.");
    let full = "need."@ + key;
    assert("need."@.len() == 5);
    assert(full.take(5) =~= "need."@);
    assert(full.len() > 5);
}

} // verus!
