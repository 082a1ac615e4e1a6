use cue_shell::command_spec::{command_specs, CommandArgKind};
use cue_shell::cron::CronSchedule;
use cue_shell::mode::Mode;
use cue_shell::parser::error::ParseErrorKind;
use cue_shell::parser::parse::Parser as CueParser;
use cue_shell::parser::resolved::ResolvedCommand;
use cue_shell::parser::resolver::Resolver;
use cue_shell::pipeline as core_pipeline;
use cue_shell::pipeline::JobPlan;

fn resolve(input: &str, mode: Mode) -> ResolvedCommand {
    let ast = CueParser::parse(input).unwrap();
    Resolver::resolve(ast, mode).unwrap()
}

fn resolve_file_script(input: &str) -> ResolvedCommand {
    let ast = CueParser::parse_file_script(input).unwrap();
    Resolver::resolve(ast, Mode::Job).unwrap()
}

fn leaf_pipeline(chain: core_pipeline::ChainNode) -> core_pipeline::Pipeline {
    match chain {
        core_pipeline::ChainNode::Leaf(JobPlan::Pipeline(pipeline)) => pipeline,
        other => panic!("expected leaf pipeline, got {other:?}"),
    }
}

#[test]
fn resolve_run() {
    let cmd = resolve(":run cargo test", Mode::Job);
    assert!(matches!(cmd, ResolvedCommand::Run { .. }));
}

#[test]
fn resolve_bare_job() {
    let cmd = resolve("cargo test --release", Mode::Job);
    assert!(matches!(cmd, ResolvedCommand::Run { .. }));
}

#[test]
fn resolve_file_script_bare_items_as_runs() {
    let cmd = resolve_file_script("cargo fmt --check\ncargo test -> cargo clippy");
    match cmd {
        ResolvedCommand::Script { items, .. } => {
            assert_eq!(items.len(), 2);
            assert_eq!(items[0].source, "cargo fmt --check");
            assert_eq!(items[1].source, "cargo test -> cargo clippy");
            assert!(matches!(*items[0].command, ResolvedCommand::Run { .. }));
            assert!(matches!(*items[1].command, ResolvedCommand::Run { .. }));
        }
        _ => panic!("expected Script"),
    }
}

#[test]
fn resolve_bare_question_in_job_mode_to_help() {
    let cmd = resolve("?", Mode::Job);
    assert!(matches!(
        cmd,
        ResolvedCommand::Help {
            topic: Some(ref topic)
        } if topic == "job"
    ));
}

#[test]
fn resolve_bare_cron() {
    let cmd = resolve("every 5m cargo test -> cargo clippy", Mode::Cron);
    match cmd {
        ResolvedCommand::Cron {
            schedule: _,
            chain,
            params,
        } => {
            assert!(params.is_empty());
            match chain {
                core_pipeline::ChainNode::Serial { left, right, .. } => {
                    let pipeline = leaf_pipeline(*left);
                    assert_eq!(pipeline.segments[0].command, vec!["cargo", "test"]);
                    let pipeline = leaf_pipeline(*right);
                    assert_eq!(pipeline.segments[0].command, vec!["cargo", "clippy"]);
                }
                _ => panic!("expected serial chain"),
            }
        }
        _ => panic!("expected Cron"),
    }
}

#[test]
fn resolve_bare_question_in_cron_mode_to_help() {
    let cmd = resolve("?", Mode::Cron);
    assert!(matches!(
        cmd,
        ResolvedCommand::Help {
            topic: Some(ref topic)
        } if topic == "cron"
    ));
}

#[test]
fn resolve_bare_cron_supports_do_keyword() {
    let cmd = resolve("daily do echo hello", Mode::Cron);
    match cmd {
        ResolvedCommand::Cron {
            schedule: _, chain, ..
        } => {
            let pipeline = leaf_pipeline(chain);
            assert_eq!(pipeline.segments[0].command, vec!["echo", "hello"]);
        }
        _ => panic!("expected Cron"),
    }
}

#[test]
fn resolve_bare_cron_supports_days_and_time() {
    let cmd = resolve("on weekdays at 9am cargo test", Mode::Cron);
    match cmd {
        ResolvedCommand::Cron { schedule: _, .. } => {
        }
        _ => panic!("expected Cron"),
    }
}

#[test]
fn resolve_bare_cron_supports_hh_mm_time() {
    let cmd = resolve("at 14:30 cargo test", Mode::Cron);
    match cmd {
        ResolvedCommand::Cron { schedule, .. } => {
            assert!(matches!(
                schedule,
                CronSchedule::TimeOfDay {
                    time_secs: 52200,
                    days: None
                }
            ));
        }
        _ => panic!("expected Cron"),
    }
}

#[test]
fn resolve_bare_cron_supports_five_field_do_crontab() {
    let cmd = resolve("*/5 * * * * do curl api/health", Mode::Cron);
    match cmd {
        ResolvedCommand::Cron {
            schedule, chain, ..
        } => {
            assert!(
                matches!(schedule, CronSchedule::Crontab(e) if e.as_str() == "*/5 * * * *")
            );
            let pipeline = leaf_pipeline(chain);
            assert_eq!(pipeline.segments[0].command, vec!["curl", "api/health"]);
        }
        _ => panic!("expected Cron"),
    }
}

#[test]
fn resolve_bare_cron_rejects_unimplemented_freeform_do() {
    let ast = CueParser::parse("$MY_SCHEDULE do $MY_CMD").unwrap();
    let error = Resolver::resolve(ast, Mode::Cron).expect_err("freeform do is unsupported");

    assert_eq!(error.kind, ParseErrorKind::InvalidCronSchedule);
    assert!(error.message.contains("five-field crontab"));
}

#[test]
fn resolve_bare_cron_supports_named_time_and_long_weekday() {
    let cmd = resolve("at midnight on monday cargo test", Mode::Cron);
    match cmd {
        ResolvedCommand::Cron { schedule, .. } => {
            assert!(matches!(
                schedule,
                CronSchedule::TimeOfDay {
                    time_secs: 0,
                    days: Some(_)
                }
            ));
        }
        _ => panic!("expected Cron"),
    }
}

#[test]
fn resolve_bare_cron_rejects_invalid_day_filter() {
    let ast = CueParser::parse("at 9am on noday cargo test").unwrap();
    let error =
        Resolver::resolve(ast, Mode::Cron).expect_err("invalid day filter must be rejected");

    assert_eq!(error.kind, ParseErrorKind::InvalidCronSchedule);
}

#[test]
fn resolve_bare_cron_rejects_signed_duration() {
    let ast = CueParser::parse("every +1h cargo test").unwrap();
    let error =
        Resolver::resolve(ast, Mode::Cron).expect_err("signed duration must be rejected");

    assert_eq!(error.kind, ParseErrorKind::InvalidCronSchedule);
}

#[test]
fn resolve_bare_cron_rejects_zero_duration_schedule() {
    for input in ["every 0s cargo test", "in 0s cargo test"] {
        let ast = CueParser::parse(input).unwrap();
        let error =
            Resolver::resolve(ast, Mode::Cron).expect_err("zero schedule must be rejected");

        assert_eq!(error.kind, ParseErrorKind::InvalidCronSchedule);
    }
}

#[test]
fn resolve_bare_cron_rejects_invalid_crontab_fields() {
    for input in ["cron 60 * * * * echo bad", "*/0 * * * * do echo bad"] {
        let ast = CueParser::parse(input).unwrap();
        let error =
            Resolver::resolve(ast, Mode::Cron).expect_err("invalid crontab must be rejected");

        assert_eq!(error.kind, ParseErrorKind::InvalidCronSchedule);
    }
}

#[test]
fn resolve_kill() {
    let cmd = resolve(":kill J1", Mode::Job);
    match cmd {
        ResolvedCommand::Kill { id } => assert_eq!(id, "J1"),
        _ => panic!("expected Kill"),
    }
}

#[test]
fn resolve_with_params() {
    let cmd = resolve(":run(pty=false) cargo test", Mode::Job);
    match cmd {
        ResolvedCommand::Run { params, .. } => {
            assert!(!params.pty_enabled());
        }
        _ => panic!("expected Run"),
    }
}

#[test]
fn resolve_jobs() {
    let cmd = resolve(":jobs", Mode::Job);
    assert!(matches!(cmd, ResolvedCommand::Jobs));
}

#[test]
fn resolve_env_set() {
    let cmd = resolve(":env set FOO=bar FOO=baz", Mode::Job);
    match cmd {
        ResolvedCommand::Env { subcommand } => {
            assert_eq!(subcommand.as_deref(), Some("set FOO=bar FOO=baz"));
        }
        _ => panic!("expected Env"),
    }
}

#[test]
fn resolve_send_target_and_data() {
    let cmd = resolve(":send J1 continue with the fix", Mode::Job);
    match cmd {
        ResolvedCommand::Send { id, data } => {
            assert_eq!(id, "J1");
            assert_eq!(data, "continue with the fix");
        }
        _ => panic!("expected Send"),
    }
}

#[test]
fn resolve_cron_keeps_scheduler_text() {
    let cmd = resolve(":cron every 1h echo hello", Mode::Job);
    match cmd {
        ResolvedCommand::Cron { schedule: _, .. } => {
        }
        _ => panic!("expected Cron"),
    }
}

#[test]
fn resolve_cron_keeps_five_field_scheduler_text() {
    let cmd = resolve(":cron cron */5 * * * * echo hello", Mode::Job);
    match cmd {
        ResolvedCommand::Cron { schedule, .. } => {
            assert!(
                matches!(schedule, CronSchedule::Crontab(e) if e.as_str() == "*/5 * * * *")
            );
        }
        _ => panic!("expected Cron"),
    }
}

#[test]
fn resolve_cron_command_rejects_invalid_crontab_fields() {
    let ast = CueParser::parse(":cron cron 60 * * * * echo bad").unwrap();
    let error =
        Resolver::resolve(ast, Mode::Job).expect_err("invalid crontab must be rejected");

    assert_eq!(error.kind, ParseErrorKind::InvalidCronSchedule);
}

#[test]
fn resolver_covers_all_registered_commands() {
    for spec in command_specs() {
        let input = match spec.arg_kind {
            CommandArgKind::Chain => format!(":{} echo ok", spec.name),
            CommandArgKind::Cron => format!(":{} every 5m echo ok", spec.name),
            CommandArgKind::Id(allowed) => {
                format!(":{} {}", spec.name, allowed.first_example())
            }
            CommandArgKind::Tail(allowed) => {
                format!(":{} {} 1024", spec.name, allowed.first_example())
            }
            CommandArgKind::Text => format!(":{} J1 hello", spec.name),
            CommandArgKind::TargetText(allowed) => {
                format!(":{} {} hello", spec.name, allowed.first_example())
            }
            CommandArgKind::OptionalId(allowed) => {
                format!(":{} {}", spec.name, allowed.first_example())
            }
            CommandArgKind::OptionalText => format!(":{} status", spec.name),
            CommandArgKind::Empty => format!(":{}", spec.name),
        };
        let ast = CueParser::parse(&input).unwrap_or_else(|error| {
            panic!(
                "registered command `{}` failed to parse: {error:?}",
                spec.name
            )
        });
        Resolver::resolve(ast, Mode::Job).unwrap_or_else(|error| {
            panic!(
                "registered command `{}` failed to resolve from `{input}`: {error:?}",
                spec.name
            )
        });
    }
}
