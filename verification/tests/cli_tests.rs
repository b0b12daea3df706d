use shawl::cli::{evaluate_cli, Cli, CliError, CommonOpts, LogRotation, Priority, Subcommand};

fn s(text: &str) -> String {
    text.to_string()
}

fn argv(args: &[&str]) -> Vec<String> {
    args.iter().map(|a| a.to_string()).collect()
}

fn check_args(args: &[&str], expected: Cli) {
    assert_eq!(expected, evaluate_cli(&argv(args)).unwrap());
}

#[test]
fn run_works_with_minimal_arguments() {
    check_args(
        &["shawl", "run", "--", "foo"],
        Cli {
            sub: Subcommand::Run {
                name: s("Shawl"),
                cwd: None,
                common: CommonOpts { command: vec![s("foo")], ..Default::default() },
            },
        },
    );
}

#[test]
fn run_requires_a_command() {
    let result = evaluate_cli(&argv(&["shawl", "run"]));
    assert!(matches!(result, Err(CliError::MissingRequiredArgument { .. })));
}

#[test]
fn run_accepts_pass() {
    check_args(
        &["shawl", "run", "--pass", "1,2", "--", "foo"],
        Cli {
            sub: Subcommand::Run {
                name: s("Shawl"),
                cwd: None,
                common: CommonOpts {
                    pass: Some(vec![1, 2]),
                    command: vec![s("foo")],
                    ..Default::default()
                },
            },
        },
    );
}

#[test]
fn run_accepts_pass_with_leading_negative() {
    check_args(
        &["shawl", "run", "--pass", "-1", "--", "foo"],
        Cli {
            sub: Subcommand::Run {
                name: s("Shawl"),
                cwd: None,
                common: CommonOpts {
                    pass: Some(vec![-1]),
                    command: vec![s("foo")],
                    ..Default::default()
                },
            },
        },
    );
}

#[test]
fn run_rejects_pass_without_value() {
    let result = evaluate_cli(&argv(&["shawl", "run", "--pass", "--", "foo"]));
    assert!(result.is_err());
}

#[test]
fn run_accepts_restart() {
    check_args(
        &["shawl", "run", "--restart", "--", "foo"],
        Cli {
            sub: Subcommand::Run {
                name: s("Shawl"),
                cwd: None,
                common: CommonOpts {
                    restart: true,
                    command: vec![s("foo")],
                    ..Default::default()
                },
            },
        },
    );
}

#[test]
fn run_rejects_restart_with_conflicting_options() {
    for case in [
        vec!["shawl", "run", "--restart", "--no-restart", "--", "foo"],
        vec!["shawl", "run", "--restart", "--restart-if", "1", "--", "foo"],
        vec!["shawl", "run", "--restart", "--restart-if-not", "1", "--", "foo"],
    ] {
        let result = evaluate_cli(&argv(&case));
        assert!(matches!(result, Err(CliError::ArgumentConflict)));
    }
}

#[test]
fn run_accepts_no_restart() {
    check_args(
        &["shawl", "run", "--no-restart", "--", "foo"],
        Cli {
            sub: Subcommand::Run {
                name: s("Shawl"),
                cwd: None,
                common: CommonOpts {
                    no_restart: true,
                    command: vec![s("foo")],
                    ..Default::default()
                },
            },
        },
    );
}

#[test]
fn run_rejects_no_restart_with_conflicting_options() {
    for case in [
        vec!["shawl", "run", "--no-restart", "--restart", "--", "foo"],
        vec!["shawl", "run", "--no-restart", "--restart-if", "1", "--", "foo"],
        vec!["shawl", "run", "--no-restart", "--restart-if-not", "1", "--", "foo"],
    ] {
        let result = evaluate_cli(&argv(&case));
        assert!(matches!(result, Err(CliError::ArgumentConflict)));
    }
}

#[test]
fn run_accepts_restart_if() {
    check_args(
        &["shawl", "run", "--restart-if", "1,2", "--", "foo"],
        Cli {
            sub: Subcommand::Run {
                name: s("Shawl"),
                cwd: None,
                common: CommonOpts {
                    restart_if: vec![1, 2],
                    command: vec![s("foo")],
                    ..Default::default()
                },
            },
        },
    );
}

#[test]
fn run_accepts_restart_if_with_leading_negative() {
    check_args(
        &["shawl", "run", "--restart-if", "-1", "--", "foo"],
        Cli {
            sub: Subcommand::Run {
                name: s("Shawl"),
                cwd: None,
                common: CommonOpts {
                    restart_if: vec![-1],
                    command: vec![s("foo")],
                    ..Default::default()
                },
            },
        },
    );
}

#[test]
fn run_rejects_restart_if_without_value() {
    let result = evaluate_cli(&argv(&["shawl", "run", "--restart-if", "--", "foo"]));
    assert!(result.is_err());
}

#[test]
fn run_rejects_restart_if_with_conflicting_options() {
    for case in [
        vec!["shawl", "run", "--restart-if", "0", "--restart", "--", "foo"],
        vec!["shawl", "run", "--restart-if", "0", "--no-restart", "--", "foo"],
        vec!["shawl", "run", "--restart-if", "0", "--restart-if-not", "1", "--", "foo"],
    ] {
        let result = evaluate_cli(&argv(&case));
        assert!(matches!(result, Err(CliError::ArgumentConflict)));
    }
}

#[test]
fn run_accepts_restart_if_not() {
    check_args(
        &["shawl", "run", "--restart-if-not", "1,2", "--", "foo"],
        Cli {
            sub: Subcommand::Run {
                name: s("Shawl"),
                cwd: None,
                common: CommonOpts {
                    restart_if_not: vec![1, 2],
                    command: vec![s("foo")],
                    ..Default::default()
                },
            },
        },
    );
}

#[test]
fn run_accepts_restart_if_not_with_leading_negative() {
    check_args(
        &["shawl", "run", "--restart-if-not", "-1", "--", "foo"],
        Cli {
            sub: Subcommand::Run {
                name: s("Shawl"),
                cwd: None,
                common: CommonOpts {
                    restart_if_not: vec![-1],
                    command: vec![s("foo")],
                    ..Default::default()
                },
            },
        },
    );
}

#[test]
fn run_rejects_restart_if_not_without_value() {
    let result = evaluate_cli(&argv(&["shawl", "run", "--restart-if-not", "--", "foo"]));
    assert!(result.is_err());
}

#[test]
fn run_rejects_restart_if_not_with_conflicting_options() {
    for case in [
        vec!["shawl", "run", "--restart-if-not", "0", "--restart", "--", "foo"],
        vec!["shawl", "run", "--restart-if-not", "0", "--no-restart", "--", "foo"],
        vec!["shawl", "run", "--restart-if-not", "0", "--restart-if", "1", "--", "foo"],
    ] {
        let result = evaluate_cli(&argv(&case));
        assert!(matches!(result, Err(CliError::ArgumentConflict)));
    }
}

#[test]
fn run_accepts_stop_timeout() {
    check_args(
        &["shawl", "run", "--stop-timeout", "500", "--", "foo"],
        Cli {
            sub: Subcommand::Run {
                name: s("Shawl"),
                cwd: None,
                common: CommonOpts {
                    stop_timeout: Some(500),
                    command: vec![s("foo")],
                    ..Default::default()
                },
            },
        },
    );
}

#[test]
fn run_accepts_name() {
    check_args(
        &["shawl", "run", "--name", "custom-name", "--", "foo"],
        Cli {
            sub: Subcommand::Run {
                name: s("custom-name"),
                cwd: None,
                common: CommonOpts { command: vec![s("foo")], ..Default::default() },
            },
        },
    );
}

#[test]
fn add_works_with_minimal_arguments() {
    check_args(
        &["shawl", "add", "--name", "custom-name", "--", "foo"],
        Cli {
            sub: Subcommand::Add {
                name: s("custom-name"),
                cwd: None,
                dependencies: vec![],
                common: CommonOpts { command: vec![s("foo")], ..Default::default() },
            },
        },
    );
}

#[test]
fn add_requires_a_command() {
    let result = evaluate_cli(&argv(&["shawl", "add", "--name", "foo"]));
    assert!(matches!(result, Err(CliError::MissingRequiredArgument { .. })));
}

#[test]
fn add_requires_a_name() {
    let result = evaluate_cli(&argv(&["shawl", "add", "--", "foo"]));
    assert!(matches!(result, Err(CliError::MissingRequiredArgument { .. })));
}

#[test]
fn add_accepts_pass() {
    check_args(
        &["shawl", "add", "--pass", "1,2", "--name", "foo", "--", "foo"],
        Cli {
            sub: Subcommand::Add {
                name: s("foo"),
                cwd: None,
                dependencies: vec![],
                common: CommonOpts {
                    pass: Some(vec![1, 2]),
                    command: vec![s("foo")],
                    ..Default::default()
                },
            },
        },
    );
}

#[test]
fn add_accepts_dependencies() {
    check_args(
        &["shawl", "add", "--dependencies", "a,b", "--name", "foo", "--", "foo"],
        Cli {
            sub: Subcommand::Add {
                name: s("foo"),
                cwd: None,
                dependencies: vec![s("a"), s("b")],
                common: CommonOpts { command: vec![s("foo")], ..Default::default() },
            },
        },
    );
}

#[test]
fn run_rejects_dependencies() {
    let result = evaluate_cli(&argv(&["shawl", "run", "--dependencies", "a", "--", "foo"]));
    assert!(matches!(result, Err(CliError::UnknownArgument { .. })));
}

#[test]
fn run_accepts_no_log() {
    check_args(
        &["shawl", "run", "--no-log", "--", "foo"],
        Cli {
            sub: Subcommand::Run {
                name: s("Shawl"),
                cwd: None,
                common: CommonOpts { no_log: true, command: vec![s("foo")], ..Default::default() },
            },
        },
    );
}

#[test]
fn run_accepts_no_log_cmd() {
    check_args(
        &["shawl", "run", "--no-log-cmd", "--", "foo"],
        Cli {
            sub: Subcommand::Run {
                name: s("Shawl"),
                cwd: None,
                common: CommonOpts {
                    no_log_cmd: true,
                    command: vec![s("foo")],
                    ..Default::default()
                },
            },
        },
    );
}

#[test]
fn run_accepts_log_as() {
    check_args(
        &["shawl", "run", "--log-as", "foo", "--", "foo"],
        Cli {
            sub: Subcommand::Run {
                name: s("Shawl"),
                cwd: None,
                common: CommonOpts {
                    log_as: Some(s("foo")),
                    command: vec![s("foo")],
                    ..Default::default()
                },
            },
        },
    );
}

#[test]
fn run_accepts_log_cmd_as() {
    check_args(
        &["shawl", "run", "--log-cmd-as", "foo", "--", "foo"],
        Cli {
            sub: Subcommand::Run {
                name: s("Shawl"),
                cwd: None,
                common: CommonOpts {
                    log_cmd_as: Some(s("foo")),
                    command: vec![s("foo")],
                    ..Default::default()
                },
            },
        },
    );
}

#[test]
fn run_accepts_log_rotate_bytes() {
    check_args(
        &["shawl", "run", "--log-rotate", "bytes=123", "--", "foo"],
        Cli {
            sub: Subcommand::Run {
                name: s("Shawl"),
                cwd: None,
                common: CommonOpts {
                    log_rotate: Some(LogRotation::Bytes(123)),
                    command: vec![s("foo")],
                    ..Default::default()
                },
            },
        },
    );
}

#[test]
fn run_accepts_log_rotate_daily() {
    check_args(
        &["shawl", "run", "--log-rotate", "daily", "--", "foo"],
        Cli {
            sub: Subcommand::Run {
                name: s("Shawl"),
                cwd: None,
                common: CommonOpts {
                    log_rotate: Some(LogRotation::Daily),
                    command: vec![s("foo")],
                    ..Default::default()
                },
            },
        },
    );
}

#[test]
fn run_accepts_log_rotate_hourly() {
    check_args(
        &["shawl", "run", "--log-rotate", "hourly", "--", "foo"],
        Cli {
            sub: Subcommand::Run {
                name: s("Shawl"),
                cwd: None,
                common: CommonOpts {
                    log_rotate: Some(LogRotation::Hourly),
                    command: vec![s("foo")],
                    ..Default::default()
                },
            },
        },
    );
}

#[test]
fn run_rejects_bad_log_rotate() {
    let result = evaluate_cli(&argv(&["shawl", "run", "--log-rotate", "weekly", "--", "foo"]));
    assert!(matches!(result, Err(CliError::InvalidValue { .. })));
}

#[test]
fn run_accepts_log_retain() {
    check_args(
        &["shawl", "run", "--log-retain", "5", "--", "foo"],
        Cli {
            sub: Subcommand::Run {
                name: s("Shawl"),
                cwd: None,
                common: CommonOpts {
                    log_retain: Some(5),
                    command: vec![s("foo")],
                    ..Default::default()
                },
            },
        },
    );
}

#[test]
fn run_accepts_log_dir() {
    check_args(
        &["shawl", "run", "--log-dir", "C:/logs", "--", "foo"],
        Cli {
            sub: Subcommand::Run {
                name: s("Shawl"),
                cwd: None,
                common: CommonOpts {
                    log_dir: Some(s("C:/logs")),
                    command: vec![s("foo")],
                    ..Default::default()
                },
            },
        },
    );
}

#[test]
fn run_accepts_pass_start_args() {
    check_args(
        &["shawl", "run", "--pass-start-args", "--", "foo"],
        Cli {
            sub: Subcommand::Run {
                name: s("Shawl"),
                cwd: None,
                common: CommonOpts {
                    pass_start_args: true,
                    command: vec![s("foo")],
                    ..Default::default()
                },
            },
        },
    );
}

#[test]
fn add_accepts_env() {
    check_args(
        &["shawl", "add", "--env", "FOO=bar", "--name", "foo", "--", "foo"],
        Cli {
            sub: Subcommand::Add {
                name: s("foo"),
                cwd: None,
                dependencies: vec![],
                common: CommonOpts {
                    env: vec![(s("FOO"), s("bar"))],
                    command: vec![s("foo")],
                    ..Default::default()
                },
            },
        },
    );
}

#[test]
fn add_accepts_env_multiple_times() {
    check_args(
        &["shawl", "add", "--env", "FOO=1", "--env", "BAR=2", "--name", "foo", "--", "foo"],
        Cli {
            sub: Subcommand::Add {
                name: s("foo"),
                cwd: None,
                dependencies: vec![],
                common: CommonOpts {
                    env: vec![(s("FOO"), s("1")), (s("BAR"), s("2"))],
                    command: vec![s("foo")],
                    ..Default::default()
                },
            },
        },
    );
}

#[test]
fn add_rejects_malformed_env() {
    let result = evaluate_cli(&argv(&["shawl", "add", "--env", "FOO", "--name", "x", "--", "y"]));
    assert!(matches!(result, Err(CliError::InvalidEnvVar { .. })));
}

#[test]
fn add_accepts_path() {
    check_args(
        &["shawl", "add", "--path", "C:/tools", "--name", "foo", "--", "foo"],
        Cli {
            sub: Subcommand::Add {
                name: s("foo"),
                cwd: None,
                dependencies: vec![],
                common: CommonOpts {
                    path: vec![s("C:/tools")],
                    command: vec![s("foo")],
                    ..Default::default()
                },
            },
        },
    );
}

#[test]
fn add_accepts_path_multiple_times() {
    check_args(
        &["shawl", "add", "--path", "C:/a", "--path", "C:/b", "--name", "foo", "--", "foo"],
        Cli {
            sub: Subcommand::Add {
                name: s("foo"),
                cwd: None,
                dependencies: vec![],
                common: CommonOpts {
                    path: vec![s("C:/a"), s("C:/b")],
                    command: vec![s("foo")],
                    ..Default::default()
                },
            },
        },
    );
}

#[test]
fn add_accepts_path_prepend() {
    check_args(
        &["shawl", "add", "--path-prepend", "C:/tools", "--name", "foo", "--", "foo"],
        Cli {
            sub: Subcommand::Add {
                name: s("foo"),
                cwd: None,
                dependencies: vec![],
                common: CommonOpts {
                    path_prepend: vec![s("C:/tools")],
                    command: vec![s("foo")],
                    ..Default::default()
                },
            },
        },
    );
}

#[test]
fn add_accepts_path_prepend_multiple_times() {
    check_args(
        &["shawl", "add", "--path-prepend", "C:/a", "--path-prepend", "C:/b", "--name", "foo", "--", "foo"],
        Cli {
            sub: Subcommand::Add {
                name: s("foo"),
                cwd: None,
                dependencies: vec![],
                common: CommonOpts {
                    path_prepend: vec![s("C:/a"), s("C:/b")],
                    command: vec![s("foo")],
                    ..Default::default()
                },
            },
        },
    );
}

#[test]
fn run_accepts_priority() {
    check_args(
        &["shawl", "run", "--priority", "above-normal", "--", "foo"],
        Cli {
            sub: Subcommand::Run {
                name: s("Shawl"),
                cwd: None,
                common: CommonOpts {
                    priority: Some(Priority::AboveNormal),
                    command: vec![s("foo")],
                    ..Default::default()
                },
            },
        },
    );
}

#[test]
fn run_rejects_bad_priority() {
    let result = evaluate_cli(&argv(&["shawl", "run", "--priority", "zippy", "--", "foo"]));
    assert!(matches!(result, Err(CliError::InvalidValue { .. })));
}

#[test]
fn run_accepts_kill_process_tree() {
    check_args(
        &["shawl", "run", "--kill-process-tree", "--", "foo"],
        Cli {
            sub: Subcommand::Run {
                name: s("Shawl"),
                cwd: None,
                common: CommonOpts {
                    kill_process_tree: true,
                    command: vec![s("foo")],
                    ..Default::default()
                },
            },
        },
    );
}

#[test]
fn run_accepts_restart_delay() {
    check_args(
        &["shawl", "run", "--restart-delay", "250", "--", "foo"],
        Cli {
            sub: Subcommand::Run {
                name: s("Shawl"),
                cwd: None,
                common: CommonOpts {
                    restart_delay: Some(250),
                    command: vec![s("foo")],
                    ..Default::default()
                },
            },
        },
    );
}

#[test]
fn run_accepts_cwd() {
    check_args(
        &["shawl", "run", "--cwd", "C:/work", "--", "foo"],
        Cli {
            sub: Subcommand::Run {
                name: s("Shawl"),
                cwd: Some(s("C:/work")),
                common: CommonOpts { command: vec![s("foo")], ..Default::default() },
            },
        },
    );
}

#[test]
fn rejects_unknown_subcommand() {
    let result = evaluate_cli(&argv(&["shawl", "frob", "--", "foo"]));
    assert!(matches!(result, Err(CliError::UnknownSubcommand { .. })));
}

#[test]
fn rejects_unknown_argument() {
    let result = evaluate_cli(&argv(&["shawl", "run", "--frob", "--", "foo"]));
    assert!(matches!(result, Err(CliError::UnknownArgument { .. })));
}

#[test]
fn run_accepts_equals_forms() {
    check_args(
        &["shawl", "run", "--stop-timeout=3000", "--name=svc", "--pass=1,2", "--", "foo"],
        Cli {
            sub: Subcommand::Run {
                name: s("svc"),
                cwd: None,
                common: CommonOpts {
                    stop_timeout: Some(3000),
                    pass: Some(vec![1, 2]),
                    command: vec![s("foo")],
                    ..Default::default()
                },
            },
        },
    );
}

#[test]
fn rejects_equals_form_of_a_flag() {
    let result = evaluate_cli(&argv(&["shawl", "run", "--restart=true", "--", "foo"]));
    assert!(matches!(result, Err(CliError::UnknownArgument { .. })));
}

#[test]
fn rejects_equals_form_of_an_unknown_option() {
    let result = evaluate_cli(&argv(&["shawl", "run", "--frob=1", "--", "foo"]));
    assert!(matches!(result, Err(CliError::UnknownArgument { .. })));
}

#[test]
fn rejects_option_without_a_following_value() {
    let result = evaluate_cli(&argv(&["shawl", "run", "--name"]));
    assert!(matches!(result, Err(CliError::MissingValue { .. })));
}

#[test]
fn rejects_non_numeric_stop_timeout() {
    let result = evaluate_cli(&argv(&["shawl", "run", "--stop-timeout", "abc", "--", "foo"]));
    assert!(matches!(result, Err(CliError::InvalidValue { .. })));
}

#[test]
fn error_message_names_the_env_value() {
    let err = CliError::InvalidEnvVar { specification: s("FOO") };
    assert_eq!(err.message(), "Invalid KEY=value formatting in 'FOO'");
}
