use cue_shell::parser::ast::{Argument, Ast, ChainNode, JobExpr, Pipeline};
use cue_shell::parser::error::ParseErrorKind;
use cue_shell::parser::parse::Parser;
use cue_shell::parser::token::{IdKind, Value};
use cue_shell::pipeline::{ParallelOp, PipeOp, SerialOp};

fn leaf_pipeline(chain: &ChainNode) -> &Pipeline {
    match chain {
        ChainNode::Leaf(JobExpr::Pipeline(pipeline)) => pipeline,
        other => panic!("expected leaf pipeline, got {other:?}"),
    }
}

fn simple_command(expr: &JobExpr) -> Vec<&str> {
    match expr {
        JobExpr::Pipeline(pipeline) => pipeline.segments[0]
            .command
            .iter()
            .map(String::as_str)
            .collect(),
        other => panic!("expected pipeline, got {other:?}"),
    }
}

#[test]
fn parse_simple_run() {
    let ast = Parser::parse(":run cargo test").unwrap();
    match ast {
        Ast::Command { name, argument, .. } => {
            assert_eq!(name, "run");
            match argument {
                Argument::Chain(chain) => {
                    let p = leaf_pipeline(&chain);
                    assert_eq!(p.segments.len(), 1);
                    assert_eq!(p.segments[0].command, vec!["cargo", "test"]);
                }
                _ => panic!("expected Chain"),
            }
        }
        _ => panic!("expected Command"),
    }
}

#[test]
fn parse_bare_input() {
    let ast = Parser::parse("cargo test --release").unwrap();
    match ast {
        Ast::BareInput { argument, .. } => match argument {
            Argument::Chain(chain) => {
                let p = leaf_pipeline(&chain);
                assert_eq!(p.segments[0].command, vec!["cargo", "test", "--release"]);
            }
            _ => panic!("expected Chain"),
        },
        _ => panic!("expected BareInput"),
    }
}

#[test]
fn parse_bare_input_with_numeric_arg() {
    let ast = Parser::parse("sleep 4").unwrap();
    match ast {
        Ast::BareInput { argument, .. } => match argument {
            Argument::Chain(chain) => {
                let p = leaf_pipeline(&chain);
                assert_eq!(p.segments[0].command, vec!["sleep", "4"]);
            }
            _ => panic!("expected Chain"),
        },
        _ => panic!("expected BareInput"),
    }
}

#[test]
fn parse_kill_id() {
    let ast = Parser::parse(":kill J1").unwrap();
    match ast {
        Ast::Command { name, argument, .. } => {
            assert_eq!(name, "kill");
            assert_eq!(argument, Argument::IdRef(IdKind::Job, 1));
        }
        _ => panic!("expected Command"),
    }
}

#[test]
fn id_arguments_enforce_command_entity_kind() {
    let kill_cron = Parser::parse(":kill C1").unwrap();
    match kill_cron {
        Ast::Command { argument, .. } => {
            assert_eq!(argument, Argument::IdRef(IdKind::Cron, 1));
        }
        _ => panic!("expected Command"),
    }

    let log_cron = Parser::parse(":log C1").unwrap();
    match log_cron {
        Ast::Command { argument, .. } => {
            assert_eq!(argument, Argument::IdRef(IdKind::Cron, 1));
        }
        _ => panic!("expected Command"),
    }

    let pause_job = Parser::parse(":pause J1").expect_err("pause requires cron id");
    assert_eq!(pause_job.kind, ParseErrorKind::InvalidIdRef);
    assert!(pause_job.message.contains("C<n>"));

    let fg_cron = Parser::parse(":fg C1").expect_err("fg requires job id");
    assert_eq!(fg_cron.kind, ParseErrorKind::InvalidIdRef);
    assert!(fg_cron.message.contains("J<n>"));

    let tail_cron = Parser::parse(":tail C1").expect_err("tail requires job id");
    assert_eq!(tail_cron.kind, ParseErrorKind::InvalidIdRef);
    assert!(tail_cron.message.contains("J<n>"));
}

#[test]
fn parse_chain() {
    let ast = Parser::parse(":run a -> b ||| c").unwrap();
    match ast {
        Ast::Command { argument, .. } => match argument {
            Argument::Chain(ChainNode::Serial { op, left, right }) => {
                assert_eq!(op, SerialOp::Then);
                assert!(matches!(*left, ChainNode::Leaf(_)));
                assert!(matches!(*right, ChainNode::Parallel { .. }));
            }
            _ => panic!("expected Chain with Serial"),
        },
        _ => panic!("expected Command"),
    }
}

#[test]
fn parse_job_logical_expression_as_single_leaf() {
    let ast = Parser::parse(":run false && echo no || echo yes").unwrap();
    match ast {
        Ast::Command { argument, .. } => match argument {
            Argument::Chain(ChainNode::Leaf(JobExpr::Or { left, right })) => {
                match *left {
                    JobExpr::And { left, right } => {
                        assert_eq!(simple_command(&left), vec!["false"]);
                        assert_eq!(simple_command(&right), vec!["echo", "no"]);
                    }
                    other => panic!("expected left-assoc AND, got {other:?}"),
                }
                assert_eq!(simple_command(&right), vec!["echo", "yes"]);
            }
            other => panic!("expected single job logical leaf, got {other:?}"),
        },
        _ => panic!("expected Command"),
    }
}

#[test]
fn parse_job_logical_binds_tighter_than_chain_operators() {
    let ast = Parser::parse(":run a || b -> c ||| d").unwrap();
    match ast {
        Ast::Command { argument, .. } => match argument {
            Argument::Chain(ChainNode::Serial { left, right, .. }) => {
                assert!(matches!(*left, ChainNode::Leaf(JobExpr::Or { .. })));
                assert!(matches!(*right, ChainNode::Parallel { .. }));
            }
            other => panic!("expected serial chain, got {other:?}"),
        },
        _ => panic!("expected Command"),
    }
}

#[test]
fn parse_pipeline() {
    let ast = Parser::parse(":run a |> b |&> c").unwrap();
    match ast {
        Ast::Command { argument, .. } => match argument {
            Argument::Chain(chain) => {
                let p = leaf_pipeline(&chain);
                assert_eq!(p.segments.len(), 3);
                assert_eq!(p.segments[0].pipe_to_next, Some(PipeOp::Stdout));
                assert_eq!(p.segments[1].pipe_to_next, Some(PipeOp::StdoutStderr));
                assert!(p.segments[2].pipe_to_next.is_none());
            }
            _ => panic!("expected pipeline"),
        },
        _ => panic!("expected Command"),
    }
}

#[test]
fn parse_rejects_bare_shell_pipe() {
    let err = Parser::parse(":run echo hi | wc -c")
        .expect_err("bare shell pipe should not be accepted as a word");

    assert!(
        err.message
            .contains("bare `|` is not a cue-shell pipe operator")
    );
    assert!(err.message.contains("use `|>`"));
}

#[test]
fn parse_mode_params() {
    let ast = Parser::parse(":run(pty=false) cargo test").unwrap();
    match ast {
        Ast::Command {
            mode_params,
            argument,
            ..
        } => {
            assert_eq!(mode_params.len(), 1);
            assert_eq!(mode_params[0].0, "pty");
            assert_eq!(mode_params[0].1, Value::Bool(false));
            assert!(matches!(argument, Argument::Chain(_)));
        }
        _ => panic!("expected Command"),
    }
}

#[test]
fn mode_params_reject_commands_without_mode_param_support() {
    let err = Parser::parse(":kill(timeout=1s) J1").expect_err("kill params should fail");
    assert_eq!(err.kind, ParseErrorKind::InvalidModeParam);
    assert!(err.message.contains("does not accept mode params"));
}

#[test]
fn mode_params_reject_unknown_names() {
    let err = Parser::parse(":run(typo=1) cargo test").expect_err("unknown param should fail");
    assert_eq!(err.kind, ParseErrorKind::InvalidModeParam);
    assert!(err.message.contains("unknown mode parameter `typo`"));
}

#[test]
fn mode_params_reject_params_not_supported_by_command() {
    let err = Parser::parse(":cron(pty=false) every 5m cargo test")
        .expect_err("cron must not accept run-only pty param");
    assert_eq!(err.kind, ParseErrorKind::InvalidModeParam);
    assert!(
        err.message
            .contains("mode parameter `pty` is not supported by `:cron`")
    );
}

#[test]
fn mode_params_reject_unimplemented_timeout() {
    let err = Parser::parse(":run(timeout=1s) cargo test")
        .expect_err("timeout is not an implemented mode parameter");
    assert_eq!(err.kind, ParseErrorKind::InvalidModeParam);
    assert!(err.message.contains("unknown mode parameter `timeout`"));
}

#[test]
fn mode_params_accept_need_namespace() {
    let ast = Parser::parse(":run(need.gpu=1,need.gpu_mem=24GiB) cargo test").unwrap();
    match ast {
        Ast::Command { mode_params, .. } => {
            let map: std::collections::BTreeMap<&str, &Value> =
                mode_params.iter().map(|(k, v)| (k.as_str(), v)).collect();
            assert_eq!(map.get("need.gpu"), Some(&&Value::Str("1".into())));
            assert_eq!(map.get("need.gpu_mem"), Some(&&Value::Str("24GiB".into())));
        }
        _ => panic!("expected Command"),
    }
}

#[test]
fn mode_params_need_empty_suffix_is_rejected() {
    let err =
        Parser::parse(":run(need.=1) cargo test").expect_err("empty key suffix should fail");
    assert_eq!(err.kind, ParseErrorKind::InvalidModeParam);
    assert!(err.message.contains("need."));
}

#[test]
fn mode_params_need_rejects_bool_value() {
    let err = Parser::parse(":run(need.gpu=true) cargo test")
        .expect_err("need.* requires string quantity, not bool");
    assert_eq!(err.kind, ParseErrorKind::InvalidModeParam);
    assert!(err.message.contains("resource need"));
    assert!(err.message.contains("need.gpu"));
}

#[test]
fn mode_params_unknown_non_need_key_still_rejected() {
    // Sanity: only `need.<X>` is whitelisted; other unknown keys must
    // continue to be rejected.
    let err = Parser::parse(":run(unrecognized=1) cargo test")
        .expect_err("non-need unknown keys still fail");
    assert_eq!(err.kind, ParseErrorKind::InvalidModeParam);
    assert!(
        err.message
            .contains("unknown mode parameter `unrecognized`")
    );
}

#[test]
fn mode_params_reject_values_with_wrong_type() {
    let err = Parser::parse(":run(pty=soon) cargo test").expect_err("pty needs bool");
    assert_eq!(err.kind, ParseErrorKind::InvalidModeParam);
    assert!(err.message.contains("pty"));
    assert!(err.message.contains("a boolean"));

    let err = Parser::parse(":run(retry=-1) cargo test")
        .expect_err("retry is not an implemented mode parameter");
    assert_eq!(err.kind, ParseErrorKind::InvalidModeParam);
    assert!(err.message.contains("unknown mode parameter `retry`"));
}

#[test]
fn oversized_id_ref_is_rejected_for_id_commands() {
    let err = Parser::parse(":kill J4294967296").expect_err("oversized ID should fail");
    assert_eq!(err.kind, ParseErrorKind::InvalidIdRef);
    assert!(err.message.contains("requires an ID"));
}

#[test]
fn parse_send_text() {
    let ast = Parser::parse(":send J1 continue with the fix").unwrap();
    match ast {
        Ast::Command { name, argument, .. } => {
            assert_eq!(name, "send");
            assert_eq!(argument, Argument::Text("J1 continue with the fix".into()));
        }
        _ => panic!("expected Command"),
    }
}

#[test]
fn parse_send_raw_preserves_quoted_operators() {
    // Chain operators without whitespace must be quoted when passed as text.
    let ast = Parser::parse(":send J1 replace 'a->b' with 'c->d'").unwrap();
    match ast {
        Ast::Command { name, argument, .. } => {
            assert_eq!(name, "send");
            assert_eq!(
                argument,
                Argument::Text("J1 replace 'a->b' with 'c->d'".into())
            );
        }
        _ => panic!("expected Command"),
    }
}

#[test]
fn parse_send_raw_rejects_unquoted_chain_operator_without_boundary() {
    let err = Parser::parse(":send J1 replace a->b").unwrap_err();
    assert!(err.message.contains("must be surrounded by whitespace"));
}

#[test]
fn parse_send_requires_job_target() {
    let cron_target = Parser::parse(":send C1 input").expect_err("send requires job id");
    assert_eq!(cron_target.kind, ParseErrorKind::InvalidIdRef);
    assert!(cron_target.message.contains("J<n>"));

    let text_target = Parser::parse(":send process input").expect_err("send requires id");
    assert_eq!(text_target.kind, ParseErrorKind::InvalidIdRef);
    assert!(text_target.message.contains("target ID"));
}

#[test]
fn parse_cron() {
    let ast = Parser::parse(":cron every 5m cargo test").unwrap();
    match ast {
        Ast::Command { name, argument, .. } => {
            assert_eq!(name, "cron");
            assert!(matches!(argument, Argument::Chain(ChainNode::Leaf(_))));
        }
        _ => panic!("expected Command"),
    }
}

#[test]
fn parse_empty_command() {
    let ast = Parser::parse(":jobs").unwrap();
    match ast {
        Ast::Command { name, argument, .. } => {
            assert_eq!(name, "jobs");
            assert_eq!(argument, Argument::Empty);
        }
        _ => panic!("expected Command"),
    }
}

#[test]
fn unknown_command_error() {
    let err = Parser::parse(":foo").unwrap_err();
    assert_eq!(err.kind, ParseErrorKind::UnknownCommand);
    assert!(!err.suggestions.is_empty());
}

#[test]
fn missing_run_argument() {
    let err = Parser::parse(":run").unwrap_err();
    assert_eq!(err.kind, ParseErrorKind::MissingArgument);
}

#[test]
fn complex_chain_with_pipes() {
    // cargo build |> grep error -> cargo test ||| cargo clippy
    let ast =
        Parser::parse(":run cargo build |> grep error -> cargo test ||| cargo clippy").unwrap();
    match ast {
        Ast::Command { argument, .. } => match argument {
            Argument::Chain(ChainNode::Serial { left, right, .. }) => {
                // left = pipeline (cargo build |> grep error)
                if let ChainNode::Leaf(_) = *left {
                    let p = leaf_pipeline(&left);
                    assert_eq!(p.segments.len(), 2);
                    assert_eq!(p.segments[0].command, vec!["cargo", "build"]);
                    assert_eq!(p.segments[0].pipe_to_next, Some(PipeOp::Stdout));
                    assert_eq!(p.segments[1].command, vec!["grep", "error"]);
                } else {
                    panic!("expected Leaf pipeline");
                }
                // right = parallel (cargo test ||| cargo clippy)
                assert!(matches!(*right, ChainNode::Parallel { .. }));
            }
            _ => panic!("expected Serial chain"),
        },
        _ => panic!("expected Command"),
    }
}

#[test]
fn single_quoted_args_with_colon() {
    // Regression: single quotes should be treated as literal string
    // delimiters, not as regular characters.  The `:` inside `'[:upper:]'`
    // must NOT be parsed as a command prefix.
    let ast = Parser::parse(":run tr '[:upper:]' '[:lower:]'").unwrap();
    match ast {
        Ast::Command { argument, .. } => match argument {
            Argument::Chain(chain) => {
                let p = leaf_pipeline(&chain);
                assert_eq!(p.segments.len(), 1);
                assert_eq!(p.segments[0].command, vec!["tr", "[:upper:]", "[:lower:]"]);
            }
            _ => panic!("expected single-segment pipeline"),
        },
        _ => panic!("expected Command"),
    }
}

#[test]
fn unquoted_args_with_colon() {
    let ast = Parser::parse(":run tr [:upper:] [:lower:]").unwrap();
    match ast {
        Ast::Command { argument, .. } => match argument {
            Argument::Chain(chain) => {
                let p = leaf_pipeline(&chain);
                assert_eq!(p.segments.len(), 1);
                assert_eq!(p.segments[0].command, vec!["tr", "[:upper:]", "[:lower:]"]);
            }
            _ => panic!("expected single-segment pipeline"),
        },
        _ => panic!("expected Command"),
    }
}

#[test]
fn parse_multiline_script() {
    let ast = Parser::parse("cargo test\n:run cargo clippy").unwrap();
    match ast {
        Ast::Script { items, .. } => {
            assert_eq!(items.len(), 2);
            assert_eq!(items[0].source, "cargo test");
            assert_eq!(items[1].source, ":run cargo clippy");
        }
        _ => panic!("expected Script"),
    }
}

#[test]
fn parse_multiline_chain_continues_after_operator() {
    let ast = Parser::parse("cargo test ->\ncargo clippy").unwrap();
    match ast {
        Ast::BareInput { argument, .. } => {
            assert!(matches!(
                argument,
                Argument::Chain(ChainNode::Serial { .. })
            ));
        }
        _ => panic!("expected BareInput"),
    }
}

#[test]
fn parse_multiline_chain_continues_before_operator() {
    let ast = Parser::parse("cat a\n||| cat b").unwrap();
    match ast {
        Ast::BareInput { argument, .. } => {
            assert!(matches!(
                argument,
                Argument::Chain(ChainNode::Parallel {
                    op: ParallelOp::All,
                    ..
                })
            ));
        }
        _ => panic!("expected BareInput"),
    }
}

#[test]
fn parse_file_script_wraps_single_item_as_script() {
    let ast = Parser::parse_file_script(":run cargo test").unwrap();
    match ast {
        Ast::Script { items, .. } => {
            assert_eq!(items.len(), 1);
            assert_eq!(items[0].source, ":run cargo test");
        }
        _ => panic!("expected Script"),
    }
}

#[test]
fn parse_file_script_ignores_leading_shebang() {
    let ast = Parser::parse_file_script("#!/usr/bin/env cue\n:run cargo test").unwrap();
    match ast {
        Ast::Script { items, .. } => {
            assert_eq!(items.len(), 1);
            assert_eq!(items[0].source, ":run cargo test");
        }
        _ => panic!("expected Script"),
    }
}

#[test]
fn parse_file_script_rejects_comment_only_file() {
    let err = Parser::parse_file_script("#!/usr/bin/env cue\n# only comments\n  # more\n")
        .expect_err("comment-only file should be invalid");
    assert_eq!(err.kind, ParseErrorKind::MissingArgument);
    assert_eq!(err.message, "empty .cue script");
}

#[test]
fn parse_file_script_ignores_comment_lines_between_items() {
    let ast = Parser::parse_file_script(":run cargo fmt\n# skip me\n:run cargo test").unwrap();
    match ast {
        Ast::Script { items, .. } => {
            assert_eq!(items.len(), 2);
            assert_eq!(items[0].source, ":run cargo fmt");
            assert_eq!(items[1].source, ":run cargo test");
        }
        _ => panic!("expected Script"),
    }
}

#[test]
fn parse_file_script_strips_trailing_comments() {
    let ast = Parser::parse_file_script(":run echo ok # note").unwrap();
    match ast {
        Ast::Script { items, .. } => {
            assert_eq!(items.len(), 1);
            assert_eq!(items[0].source, ":run echo ok");
            match &*items[0].statement {
                Ast::Command { argument, .. } => match argument {
                    Argument::Chain(chain) => {
                        let p = leaf_pipeline(chain);
                        assert_eq!(p.segments[0].command, vec!["echo", "ok"]);
                    }
                    _ => panic!("expected Chain"),
                },
                _ => panic!("expected Command"),
            }
        }
        _ => panic!("expected Script"),
    }
}

#[test]
fn parse_file_script_preserves_hash_inside_quotes() {
    let ast = Parser::parse_file_script(":run echo '#literal' \"#also-literal\"").unwrap();
    match ast {
        Ast::Script { items, .. } => match &*items[0].statement {
            Ast::Command { argument, .. } => match argument {
                Argument::Chain(chain) => {
                    let p = leaf_pipeline(chain);
                    assert_eq!(
                        p.segments[0].command,
                        vec!["echo", "#literal", "#also-literal"]
                    );
                }
                _ => panic!("expected Chain"),
            },
            _ => panic!("expected Command"),
        },
        _ => panic!("expected Script"),
    }
}

fn bare_chain(input: &str) -> ChainNode {
    match Parser::parse(input).unwrap() {
        Ast::BareInput { argument: Argument::Chain(chain), .. } => chain,
        other => panic!("expected a bare chain, got {other:?}"),
    }
}

fn leaf_words(chain: &ChainNode) -> Vec<&str> {
    match chain {
        ChainNode::Leaf(expr) => simple_command(expr),
        other => panic!("expected a leaf, got {other:?}"),
    }
}

#[test]
fn a_group_is_the_chain_in_it() {
    match bare_chain("(a -> b) ||| c") {
        ChainNode::Parallel { op, left, right } => {
            assert_eq!(op, ParallelOp::All);
            assert_eq!(leaf_words(&right), vec!["c"]);
            match *left {
                ChainNode::Serial { op, left, right } => {
                    assert_eq!(op, SerialOp::Then);
                    assert_eq!(leaf_words(&left), vec!["a"]);
                    assert_eq!(leaf_words(&right), vec!["b"]);
                }
                other => panic!("expected a serial chain, got {other:?}"),
            }
        }
        other => panic!("expected a parallel chain, got {other:?}"),
    }
    assert_eq!(bare_chain("((a))"), bare_chain("a"));
    assert_eq!(bare_chain("a ~> (b ||| c)"), bare_chain("a ~> b ||| c"));
    assert_eq!(bare_chain(":run a -> (b)".trim_start_matches(":run ")), bare_chain("a -> b"));
}

#[test]
fn a_group_of_one_job_can_be_joined() {
    match bare_chain("a && (b || c)") {
        ChainNode::Leaf(JobExpr::And { left, right }) => {
            assert_eq!(simple_command(&left), vec!["a"]);
            assert!(matches!(*right, JobExpr::Or { .. }));
        }
        other => panic!("expected a job, got {other:?}"),
    }
}

#[test]
fn misplaced_groups_are_refused() {
    for input in ["(a -> b) |> c", "a |> (b)", "(a) |> b"] {
        let error = Parser::parse(input).expect_err(input);
        assert_eq!(error.kind, ParseErrorKind::UnexpectedToken, "{input}");
        assert!(error.message.starts_with("cannot nest a chain group"), "{}", error.message);
    }
    for input in ["(a -> b) && c", "c || (a ||| b)"] {
        let error = Parser::parse(input).expect_err(input);
        assert_eq!(error.kind, ParseErrorKind::UnexpectedToken, "{input}");
        assert!(error.message.starts_with("cannot join a chain group"), "{}", error.message);
    }
    assert_eq!(Parser::parse("(a -> b").expect_err("open").kind, ParseErrorKind::UnmatchedParen);
    assert_eq!(Parser::parse("()").expect_err("empty").kind, ParseErrorKind::MissingArgument);
    assert_eq!(Parser::parse("a )").expect_err("close").kind, ParseErrorKind::UnexpectedToken);
}

#[test]
fn every_pipe_needs_a_command_on_both_sides() {
    for input in ["a |>", "a |> |> b", "|> b", "a |&> -> b", ":run a |!>"] {
        let error = Parser::parse(input).expect_err(input);
        assert_eq!(error.kind, ParseErrorKind::MissingArgument, "{input}");
        assert_eq!(error.message, "expected command", "{input}");
    }
}

#[test]
fn comments_are_taken_off_script_lines() {
    let script = |text: &str| Parser::parse_file_script(text).unwrap();
    assert_eq!(
        match script("echo 'a # b' # c") {
            Ast::Script { items, .. } => items[0].source.clone(),
            other => panic!("expected a script, got {other:?}"),
        },
        "echo 'a # b'"
    );
    assert_eq!(
        match script("echo a#b") {
            Ast::Script { items, .. } => items[0].source.clone(),
            other => panic!("expected a script, got {other:?}"),
        },
        "echo a#b"
    );
}
