use cue_shell::command::ModeParams;
use cue_shell::cron::{
    parse_day_filter, parse_time_of_day, CronPreset, CronSchedule, CrontabSchedule,
};
use cue_shell::duration::{format_duration, parse_duration_str, Duration};
use cue_shell::mode::Mode;
use cue_shell::parser::error::{ParseError, ParseErrorKind};
use cue_shell::parser::resolved::ResolvedCommand;
use cue_shell::parser::ast::CronScheduleAst;
use cue_shell::parser::parse::strip_file_script_comment;
use cue_shell::parser::resolver::{
    parse_bare_cron_schedule, parse_command, parse_file_script_command,
};
use cue_shell::parser::token::{IdKind, Span, Token, Value};
use cue_shell::parser::tokenizer::Tokenizer;
use cue_shell::storage::records::{parse_cron_id, parse_job_history_id, parse_script_run_id};

#[test]
fn tokens_cover_the_input() {
    for input in ["", ":run(pty=false) echo 'ä b' -> ls ||| cat J7", "  a |> b\n# c"] {
        let tokens = Tokenizer::tokenize(input).expect("tokens");
        let mut at = 0;
        for token in &tokens {
            assert_eq!(token.span.start, at, "{input:?}");
            at = token.span.end;
        }
        assert_eq!(at, input.len());
        assert_eq!(tokens.last().map(|t| &t.token), Some(&Token::Eof));
    }
}

#[test]
fn ids_are_tokens_of_their_own() {
    let tokens = Tokenizer::tokenize(":kill J12").expect("tokens");
    assert!(tokens.iter().any(|t| t.token == Token::IdRef(IdKind::Job, 12)));
}

#[test]
fn unterminated_quotes_are_reported_where_they_start() {
    let error = Tokenizer::tokenize("echo 'ab").expect_err("open quote");
    assert!(error.pos < "echo 'ab".len());
    let error = parse_command("echo 'ab", Mode::Job).expect_err("open quote");
    assert!(error.span.start < "echo 'ab".len());
}

#[test]
fn bare_input_is_the_command_of_its_mode() {
    let bare = parse_command("cargo test -> ls", Mode::Job).expect("bare job");
    let named = parse_command(":run cargo test -> ls", Mode::Cron).expect("named job");
    match (bare, named) {
        (
            ResolvedCommand::Run { chain: a, params: p },
            ResolvedCommand::Run { chain: b, params: q },
        ) => {
            assert_eq!(a, b);
            assert!(p.is_empty() && q.is_empty());
        }
        other => panic!("expected two runs, got {other:?}"),
    }
    let bare = parse_command("every 5m ls", Mode::Cron).expect("bare cron");
    let named = parse_command(":cron every 5m ls", Mode::Job).expect("named cron");
    match (bare, named) {
        (
            ResolvedCommand::Cron { schedule: s, chain: a, .. },
            ResolvedCommand::Cron { schedule: t, chain: b, .. },
        ) => {
            assert_eq!(s, t);
            assert_eq!(s, CronSchedule::Interval(Duration::from_secs(300)));
            assert_eq!(a, b);
        }
        other => panic!("expected two crons, got {other:?}"),
    }
}

#[test]
fn scripts_resolve_in_order() {
    let script = ":run echo one\n:jobs\n:kill J3";
    match parse_file_script_command(script).expect("script") {
        ResolvedCommand::Script { items, .. } => {
            let sources: Vec<&str> = items.iter().map(|item| item.source.as_str()).collect();
            assert_eq!(sources, vec![":run echo one", ":jobs", ":kill J3"]);
            assert!(matches!(*items[1].command, ResolvedCommand::Jobs));
            assert!(matches!(&*items[2].command, ResolvedCommand::Kill { id } if id == "J3"));
        }
        other => panic!("expected a script, got {other:?}"),
    }
}

fn kind_of(input: &str) -> ParseErrorKind {
    let error: ParseError = parse_command(input, Mode::Job).expect_err("invalid input");
    error.kind
}

#[test]
fn each_kind_of_error_has_an_input() {
    assert_eq!(kind_of(":foo"), ParseErrorKind::UnknownCommand);
    assert_eq!(kind_of(":run(typo=1) ls"), ParseErrorKind::InvalidModeParam);
    assert_eq!(kind_of(":run"), ParseErrorKind::MissingArgument);
    assert_eq!(kind_of(":pause J1"), ParseErrorKind::InvalidIdRef);
    assert_eq!(kind_of(":cron every 0s ls"), ParseErrorKind::InvalidCronSchedule);
    assert_eq!(kind_of(":run a->b"), ParseErrorKind::UnexpectedToken);
    assert_eq!(kind_of(":run(pty=false"), ParseErrorKind::UnmatchedParen);
    let error = parse_command(":foo", Mode::Job).expect_err("unknown command");
    assert!(error.text().starts_with("parse error at byte Span { start: 4, end: 4 }: "));
}

#[test]
fn schedules_are_understood() {
    let schedule = |input: &str| match parse_command(input, Mode::Cron).expect("cron") {
        ResolvedCommand::Cron { schedule, .. } => schedule,
        other => panic!("expected a cron, got {other:?}"),
    };
    assert_eq!(schedule("in 90s ls"), CronSchedule::Delay(Duration::from_secs(90)));
    assert_eq!(schedule("daily ls"), CronSchedule::Preset(CronPreset::Daily));
    assert_eq!(
        schedule("at 9am ls"),
        CronSchedule::TimeOfDay { time_secs: 9 * 3600, days: None }
    );
    let weekdays = parse_day_filter("weekdays").expect("weekdays");
    assert!(weekdays.mon && weekdays.fri && !weekdays.sat && !weekdays.sun);
    assert_eq!(
        schedule("on weekdays at 9am ls"),
        CronSchedule::TimeOfDay { time_secs: 9 * 3600, days: Some(weekdays) }
    );
    assert_eq!(parse_time_of_day("14:30"), Some(52_200));
    assert_eq!(parse_time_of_day("24:00"), None);
    assert_eq!(parse_day_filter("noday"), None);
    assert_eq!(CrontabSchedule::parse("*/5 * * * *").map(|c| c.as_str().to_string()),
        Some("*/5 * * * *".to_string()));
    assert!(CrontabSchedule::parse("60 * * * *").is_none());
    assert!(CrontabSchedule::parse("* * * *").is_none());
}

#[test]
fn durations_are_read_back() {
    for secs in [0, 59, 60, 90, 3600, 5400, 90_000] {
        let duration = Duration::from_secs(secs);
        assert_eq!(parse_duration_str(&format_duration(duration)), Some(duration));
    }
    assert_eq!(format_duration(Duration::from_secs(86_400)), "1d");
    assert_eq!(parse_duration_str("1d"), None);
}

#[test]
fn ids_are_read_back() {
    assert_eq!(parse_job_history_id("J4294967295"), Ok(u32::MAX));
    assert_eq!(parse_cron_id("C7"), Ok(7));
    assert_eq!(parse_script_run_id("R0"), Ok(0));
    for id in ["J4294967296", "J", "J-1", "C1", ""] {
        assert!(parse_job_history_id(id).is_err(), "{id:?}");
    }
}

#[test]
fn the_last_of_two_equal_parameters_wins() {
    let mut params = ModeParams::from_pairs(vec![
        ("pty".to_string(), Value::Bool(true)),
        ("pty".to_string(), Value::Bool(false)),
    ]);
    assert_eq!(params.get("pty"), Some(&Value::Bool(false)));
    assert!(!params.pty_enabled());
    params.insert("need.gpu".to_string(), Value::Str("1".to_string()));
    assert_eq!(params.get("need.gpu"), Some(&Value::Str("1".to_string())));
    assert_eq!(params.get("other"), None);
    assert!(ModeParams::new().pty_enabled());
}

#[test]
fn time_and_days_can_stand_in_either_order() {
    let read = |input: &str| format!("{:?}", parse_command(input, Mode::Cron).expect(input));
    assert_eq!(read("at 9am on weekdays ls -l"), read("on weekdays at 9am ls -l"));
    assert_eq!(read("at 9am on weekdays do ls"), read("on weekdays at 9am ls"));
}

#[test]
fn a_do_behind_a_schedule_changes_nothing() {
    let read = |input: &str| format!("{:?}", parse_command(input, Mode::Cron).expect(input));
    for (without, with) in [
        ("every 5m ls", "every 5m do ls"),
        ("at 9am ls", "at 9am do ls"),
        ("in 30s ls", "in 30s do ls"),
        ("daily ls", "daily do ls"),
        ("cron */5 * * * * ls", "cron */5 * * * * do ls"),
    ] {
        assert_eq!(read(without), read(with), "{with}");
    }
}

fn words(list: &[&str]) -> Vec<String> {
    list.iter().map(|word| word.to_string()).collect()
}

#[test]
fn a_schedule_is_read_off_the_front_of_the_words() {
    let span = Span { start: 0, end: 1 };
    let read = |list: &[&str]| parse_bare_cron_schedule(&words(list), span);
    let weekdays = CronScheduleAst::At { time: "9:00".into(), days: Some("mon,wed".into()) };
    assert_eq!(read(&["at", "9:00", "on", "mon,wed", "make"]), Ok((weekdays, 4)));
    assert_eq!(
        read(&["on", "mon,wed", "at", "9:00", "make"]),
        read(&["at", "9:00", "on", "mon,wed", "make"])
    );
    assert_eq!(
        read(&["daily", "do", "make"]),
        Ok((CronScheduleAst::Preset("daily".into()), 2))
    );
    assert_eq!(read(&["daily", "make"]), Ok((CronScheduleAst::Preset("daily".into()), 1)));
    assert_eq!(read(&[]).unwrap_err().kind, ParseErrorKind::MissingArgument);
}

#[test]
fn a_comment_is_taken_off_a_line() {
    assert_eq!(strip_file_script_comment("make all  # builds"), "make all");
    assert_eq!(strip_file_script_comment("# all of it"), "");
    assert_eq!(strip_file_script_comment("echo a#b"), "echo a#b");
    assert_eq!(strip_file_script_comment("echo \"# not\" '# not' # but"), "echo \"# not\" '# not'");
}
