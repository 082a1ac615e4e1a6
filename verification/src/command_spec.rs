//! The registry of builtin commands and their mode parameters.

use vstd::prelude::*;

use crate::text;
use crate::text::Text;

verus! {

/// Which entity IDs a command takes.
#[derive(Debug, Clone, Copy, PartialEq, Eq, Structural)]
pub enum CommandIdKind {
    Job,
    Cron,
    JobOrCron,
}

/// What a command takes as its argument.
#[derive(Debug, Clone, Copy, PartialEq, Eq, Structural)]
pub enum CommandArgKind {
    /// A chain of jobs.
    Chain,
    /// A schedule and a chain.
    Cron,
    /// An ID and an optional byte count.
    Tail(CommandIdKind),
    Id(CommandIdKind),
    OptionalId(CommandIdKind),
    Text,
    /// An ID and text for it.
    TargetText(CommandIdKind),
    OptionalText,
    Empty,
}

/// A builtin command.
#[derive(Debug, Clone, Copy)]
pub struct CommandSpec {
    pub name: &'static str,
    pub arg_kind: CommandArgKind,
    pub usage: &'static str,
    pub mode_params: bool,
}

/// What a mode parameter takes as its value.
#[derive(Debug, Clone, Copy, PartialEq, Eq, Structural)]
pub enum ModeParamValueKind {
    String,
    Bool,
}

/// A mode parameter.
#[derive(Debug, Clone, Copy)]
pub struct ModeParamSpec {
    pub name: &'static str,
    pub value_kind: ModeParamValueKind,
    pub value_hint: &'static str,
}

pub open spec fn id_kind_display(k: CommandIdKind) -> Text {
    match k {
        CommandIdKind::Job => "J<n>"@,
        CommandIdKind::Cron => "C<n>"@,
        CommandIdKind::JobOrCron => "J<n> or C<n>"@,
    }
}

pub open spec fn id_kind_example(k: CommandIdKind) -> Text {
    match k {
        CommandIdKind::Cron => "C1"@,
        _ => "J1"@,
    }
}

impl CommandIdKind {
    pub fn accepts_job(self) -> (r: bool)
        ensures
            r == (self != CommandIdKind::Cron),
    {
        match self {
            CommandIdKind::Cron => false,
            _ => true,
        }
    }

    pub fn accepts_cron(self) -> (r: bool)
        ensures
            r == (self != CommandIdKind::Job),
    {
        match self {
            CommandIdKind::Job => false,
            _ => true,
        }
    }

    /// The accepted forms, for messages.
    pub fn display(self) -> (r: &'static str)
        ensures
            r@ == id_kind_display(self),
    {
        match self {
            CommandIdKind::Job => "J<n>",
            CommandIdKind::Cron => "C<n>",
            CommandIdKind::JobOrCron => "J<n> or C<n>",
        }
    }

    /// An ID that the command takes.
    pub fn first_example(self) -> (r: &'static str)
        ensures
            r@ == id_kind_example(self),
    {
        match self {
            CommandIdKind::Cron => "C1",
            _ => "J1",
        }
    }
}

/// A command as its name, argument kind, usage line and whether it takes mode
/// parameters.
pub struct SpecModel {
    pub name: Text,
    pub arg_kind: CommandArgKind,
    pub usage: Text,
    pub mode_params: bool,
}

impl View for CommandSpec {
    type V = SpecModel;

    open spec fn view(&self) -> SpecModel {
        SpecModel {
            name: self.name@,
            arg_kind: self.arg_kind,
            usage: self.usage@,
            mode_params: self.mode_params,
        }
    }
}

impl CommandSpec {
    pub fn accepts_mode_params(&self) -> (r: bool)
        ensures
            r == self.mode_params,
    {
        self.mode_params
    }
}

pub open spec fn entry(name: Text, arg_kind: CommandArgKind, usage: Text) -> SpecModel {
    SpecModel { name, arg_kind, usage, mode_params: arg_kind is Chain || arg_kind is Cron }
}

/// All builtin commands, in the order in which they are listed.
pub open spec fn registry() -> Seq<SpecModel> {
    seq![
        entry("run"@, CommandArgKind::Chain, ":run[(params)] <chain>"@),
        entry("cron"@, CommandArgKind::Cron, ":cron[(params)] <schedule> <chain>"@),
        entry("kill"@, CommandArgKind::Id(CommandIdKind::JobOrCron), ":kill <J<n>|C<n>>"@),
        entry("retry"@, CommandArgKind::Id(CommandIdKind::Job), ":retry <J<n>>"@),
        entry("out"@, CommandArgKind::Id(CommandIdKind::Job), ":out <J<n>>"@),
        entry("tail"@, CommandArgKind::Tail(CommandIdKind::Job), ":tail <J<n>> [bytes]"@),
        entry("err"@, CommandArgKind::Id(CommandIdKind::Job), ":err <J<n>>"@),
        entry("fg"@, CommandArgKind::Id(CommandIdKind::Job), ":fg <J<n>>"@),
        entry("wait"@, CommandArgKind::Id(CommandIdKind::Job), ":wait <J<n>>"@),
        entry("send"@, CommandArgKind::TargetText(CommandIdKind::Job), ":send <J<n>> <text>"@),
        entry("cancel"@, CommandArgKind::Id(CommandIdKind::Job), ":cancel <J<n>>"@),
        entry("pause"@, CommandArgKind::Id(CommandIdKind::Cron), ":pause <C<n>>"@),
        entry("resume"@, CommandArgKind::Id(CommandIdKind::Cron), ":resume <C<n>>"@),
        entry("log"@, CommandArgKind::OptionalId(CommandIdKind::JobOrCron), ":log [J<n>|C<n>]"@),
        entry("jobs"@, CommandArgKind::Empty, ":jobs"@),
        entry("crons"@, CommandArgKind::Empty, ":crons"@),
        entry("scopes"@, CommandArgKind::Empty, ":scopes"@),
        entry("env"@, CommandArgKind::OptionalText, ":env [set KEY=VALUE|unset KEY]"@),
        entry("cd"@, CommandArgKind::Text, ":cd <path>"@),
        entry("scope"@, CommandArgKind::OptionalText, ":scope [subcommand]"@),
        entry("help"@, CommandArgKind::OptionalText, ":help [topic]"@),
        entry("config"@, CommandArgKind::OptionalText, ":config [subcommand]"@),
        entry("clear"@, CommandArgKind::Empty, ":clear"@),
        entry("quit"@, CommandArgKind::Empty, ":quit"@),
        entry("exit"@, CommandArgKind::Empty, ":exit"@),
        entry("wrap"@, CommandArgKind::OptionalText, ":wrap [on|off|status]"@),
    ]
}

/// The models of a list of commands.
pub open spec fn spec_models(v: Seq<CommandSpec>) -> Seq<SpecModel> {
    v.map_values(|c: CommandSpec| c@)
}

fn command(name: &'static str, arg_kind: CommandArgKind, usage: &'static str) -> (r: CommandSpec)
    ensures
        r@ == entry(name@, arg_kind, usage@),
{
    let mode_params = match arg_kind {
        CommandArgKind::Chain => true,
        CommandArgKind::Cron => true,
        _ => false,
    };
    CommandSpec { name, arg_kind, usage, mode_params }
}

/// All builtin commands, in the order in which they are listed.
pub fn command_specs() -> (r: Vec<CommandSpec>)
    ensures
        spec_models(r@) == registry(),
{
    let job = CommandIdKind::Job;
    let cron = CommandIdKind::Cron;
    let both = CommandIdKind::JobOrCron;
    let v: Vec<CommandSpec> = vec![
        command("run", CommandArgKind::Chain, ":run[(params)] <chain>"),
        command("cron", CommandArgKind::Cron, ":cron[(params)] <schedule> <chain>"),
        command("kill", CommandArgKind::Id(both), ":kill <J<n>|C<n>>"),
        command("retry", CommandArgKind::Id(job), ":retry <J<n>>"),
        command("out", CommandArgKind::Id(job), ":out <J<n>>"),
        command("tail", CommandArgKind::Tail(job), ":tail <J<n>> [bytes]"),
        command("err", CommandArgKind::Id(job), ":err <J<n>>"),
        command("fg", CommandArgKind::Id(job), ":fg <J<n>>"),
        command("wait", CommandArgKind::Id(job), ":wait <J<n>>"),
        command("send", CommandArgKind::TargetText(job), ":send <J<n>> <text>"),
        command("cancel", CommandArgKind::Id(job), ":cancel <J<n>>"),
        command("pause", CommandArgKind::Id(cron), ":pause <C<n>>"),
        command("resume", CommandArgKind::Id(cron), ":resume <C<n>>"),
        command("log", CommandArgKind::OptionalId(both), ":log [J<n>|C<n>]"),
        command("jobs", CommandArgKind::Empty, ":jobs"),
        command("crons", CommandArgKind::Empty, ":crons"),
        command("scopes", CommandArgKind::Empty, ":scopes"),
        command("env", CommandArgKind::OptionalText, ":env [set KEY=VALUE|unset KEY]"),
        command("cd", CommandArgKind::Text, ":cd <path>"),
        command("scope", CommandArgKind::OptionalText, ":scope [subcommand]"),
        command("help", CommandArgKind::OptionalText, ":help [topic]"),
        command("config", CommandArgKind::OptionalText, ":config [subcommand]"),
        command("clear", CommandArgKind::Empty, ":clear"),
        command("quit", CommandArgKind::Empty, ":quit"),
        command("exit", CommandArgKind::Empty, ":exit"),
        command("wrap", CommandArgKind::OptionalText, ":wrap [on|off|status]"),
    ];
    assert(spec_models(v@) =~= registry());
    v
}

/// The first command of `specs` with the given name.
pub open spec fn find_spec(specs: Seq<SpecModel>, name: Text) -> Option<SpecModel>
    decreases specs.len(),
{
    if specs.len() == 0 {
        None
    } else if specs[0].name == name {
        Some(specs[0])
    } else {
        find_spec(specs.drop_first(), name)
    }
}

/// The command with the given name.
pub fn command_spec(name: &str) -> (r: Option<CommandSpec>)
    ensures
        match r {
            Some(c) => find_spec(registry(), name@) == Some(c@) && c.name@ == name@,
            None => find_spec(registry(), name@) is None,
        },
{
    let v = command_specs();
    let mut i: usize = 0;
    assert(registry().skip(0) =~= registry());
    while i < v.len()
        invariant
            i <= v@.len(),
            spec_models(v@) == registry(),
            find_spec(registry(), name@) == find_spec(registry().skip(i as int), name@),
        decreases v@.len() - i,
    {
        proof {
            assert(registry().skip(i as int)[0] == spec_models(v@)[i as int]);
            assert(registry().skip(i as int).drop_first() =~= registry().skip(i + 1));
        }
        if text::str_eq(v[i].name, name) {
            return Some(v[i]);
        }
        i = i + 1;
    }
    None
}

/// The names of all builtin commands, in the order in which they are listed.
pub open spec fn names(specs: Seq<SpecModel>) -> Seq<Text> {
    specs.map_values(|c: SpecModel| c.name)
}

/// The names of all builtin commands, in the order in which they are listed.
pub fn command_names() -> (r: Vec<String>)
    ensures
        text::texts(r@) == names(registry()),
{
    let v = command_specs();
    let mut out: Vec<String> = Vec::new();
    let mut i: usize = 0;
    assert(text::texts(out@) =~= names(registry()).take(0));
    while i < v.len()
        invariant
            i <= v@.len(),
            spec_models(v@) == registry(),
            text::texts(out@) == names(registry()).take(i as int),
        decreases v@.len() - i,
    {
        let n = v[i].name.to_owned();
        proof {
            assert(registry()[i as int] == spec_models(v@)[i as int]);
            assert(text::texts(out@.push(n)) =~= text::texts(out@).push(n@));
            assert(names(registry()).take(i + 1) =~= names(registry()).take(i as int).push(n@));
        }
        out.push(n);
        i = i + 1;
    }
    assert(spec_models(v@).len() == v@.len());
    assert(names(registry()).take(i as int) =~= names(registry()));
    out
}

/// Whether a name begins with the character `c`.
pub open spec fn begins_with(c: char) -> spec_fn(Text) -> bool {
    |n: Text| n.len() > 0 && n[0] == c
}

/// The members of `names` that begin with the character `c`.
pub open spec fn with_initial(names: Seq<Text>, c: char) -> Seq<Text> {
    names.filter(begins_with(c))
}

/// Names to offer for an unknown command: those with its first character, or
/// all of them if there is none.
pub open spec fn suggestions(name: Text) -> Seq<Text> {
    let all = names(registry());
    if name.len() > 0 && with_initial(all, name[0]).len() > 0 {
        with_initial(all, name[0])
    } else {
        all
    }
}

/// Names to offer for an unknown command: those with its first character, or
/// all of them if there is none.
pub fn command_suggestions(name: &str) -> (r: Vec<String>)
    ensures
        text::texts(r@) == suggestions(name@),
{
    let all = command_names();
    let cs = text::chars_of(name);
    if cs.len() == 0 {
        return all;
    }
    let c = cs[0];
    let mut out: Vec<String> = Vec::new();
    let mut i: usize = 0;
    let ghost p = begins_with(c);
    proof {
        reveal(Seq::filter);
        assert(text::texts(all@).take(0) =~= Seq::<Text>::empty());
        assert(text::texts(out@) =~= text::texts(all@).take(0).filter(p));
    }
    while i < all.len()
        invariant
            i <= all@.len(),
            p == begins_with(c),
            text::texts(out@) == text::texts(all@).take(i as int).filter(p),
        decreases all@.len() - i,
    {
        let n = text::chars_of(all[i].as_str());
        proof {
            reveal(Seq::filter);
            let next = text::texts(all@).take(i + 1);
            assert(next.drop_last() =~= text::texts(all@).take(i as int));
            assert(next.last() == all@[i as int]@);
        }
        if n.len() > 0 && n[0] == c {
            let w = all[i].clone();
            proof {
                assert(text::texts(out@.push(w)) =~= text::texts(out@).push(w@));
            }
            out.push(w);
        }
        i = i + 1;
    }
    assert(text::texts(all@).take(all@.len() as int) =~= text::texts(all@));
    assert(text::texts(out@) == with_initial(names(registry()), c));
    assert(text::texts(out@).len() == out@.len());
    if out.len() > 0 {
        out
    } else {
        all
    }
}

/// A mode parameter as its name, value kind and an example value.
pub struct ParamModel {
    pub name: Text,
    pub value_kind: ModeParamValueKind,
    pub value_hint: Text,
}

impl View for ModeParamSpec {
    type V = ParamModel;

    open spec fn view(&self) -> ParamModel {
        ParamModel { name: self.name@, value_kind: self.value_kind, value_hint: self.value_hint@ }
    }
}

/// The mode parameter with the given name.
pub open spec fn find_param(key: Text) -> Option<ParamModel> {
    if key == "pty"@ {
        Some(
            ParamModel {
                name: "pty"@,
                value_kind: ModeParamValueKind::Bool,
                value_hint: "false"@,
            },
        )
    } else {
        None
    }
}

/// The mode parameter with the given name, if the command takes it.
pub open spec fn find_param_for(command: Text, key: Text) -> Option<ParamModel> {
    if command == "run"@ {
        find_param(key)
    } else {
        None
    }
}

/// The mode parameter with the given name.
pub fn mode_param_spec(key: &str) -> (r: Option<ModeParamSpec>)
    ensures
        match r {
            Some(p) => find_param(key@) == Some(p@),
            None => find_param(key@) is None,
        },
{
    if text::str_eq(key, "pty") {
        Some(
            ModeParamSpec {
                name: "pty",
                value_kind: ModeParamValueKind::Bool,
                value_hint: "false",
            },
        )
    } else {
        None
    }
}

/// The mode parameter with the given name, if the command takes it.
pub fn mode_param_spec_for_command(command: &str, key: &str) -> (r: Option<ModeParamSpec>)
    ensures
        match r {
            Some(p) => find_param_for(command@, key@) == Some(p@),
            None => find_param_for(command@, key@) is None,
        },
{
    if text::str_eq(command, "run") {
        mode_param_spec(key)
    } else {
        None
    }
}

} // verus!
