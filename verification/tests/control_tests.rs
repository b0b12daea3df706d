use shawl::cli::{CommonOpts, LogRotation, Priority};
use shawl::control::{
    construct_bin_path, construct_sc_create_args, construct_shawl_run_args, prepare_command,
};
use shawl::quoting::{join_with_spaces, quote, tokenize};

fn s(text: &str) -> String {
    text.to_string()
}

#[test]
fn run_args_work_with_minimal_input() {
    assert_eq!(
        construct_shawl_run_args(&s("shawl"), &None, &CommonOpts::default()),
        vec!["run", "--name", "shawl"],
    );
}

#[test]
fn run_args_do_not_use_the_command() {
    assert_eq!(
        construct_shawl_run_args(
            &s("shawl"),
            &None,
            &CommonOpts { command: vec![s("foo")], ..Default::default() }
        ),
        vec!["run", "--name", "shawl"],
    );
}

#[test]
fn run_args_handle_name_with_spaces() {
    assert_eq!(
        construct_shawl_run_args(&s("C:/Program Files/shawl"), &None, &CommonOpts::default()),
        vec!["run", "--name", "\"C:/Program Files/shawl\""],
    );
}

#[test]
fn run_args_handle_restart() {
    assert_eq!(
        construct_shawl_run_args(
            &s("shawl"),
            &None,
            &CommonOpts { restart: true, ..Default::default() }
        ),
        vec!["run", "--name", "shawl", "--restart"],
    );
}

#[test]
fn run_args_handle_no_restart() {
    assert_eq!(
        construct_shawl_run_args(
            &s("shawl"),
            &None,
            &CommonOpts { no_restart: true, ..Default::default() }
        ),
        vec!["run", "--name", "shawl", "--no-restart"],
    );
}

#[test]
fn run_args_handle_restart_if_with_one_code() {
    assert_eq!(
        construct_shawl_run_args(
            &s("shawl"),
            &None,
            &CommonOpts { restart_if: vec![0], ..Default::default() }
        ),
        vec!["run", "--name", "shawl", "--restart-if", "0"],
    );
}

#[test]
fn run_args_handle_restart_if_with_multiple_codes() {
    assert_eq!(
        construct_shawl_run_args(
            &s("shawl"),
            &None,
            &CommonOpts { restart_if: vec![1, 10], ..Default::default() }
        ),
        vec!["run", "--name", "shawl", "--restart-if", "1,10"],
    );
}

#[test]
fn run_args_handle_restart_if_not_with_one_code() {
    assert_eq!(
        construct_shawl_run_args(
            &s("shawl"),
            &None,
            &CommonOpts { restart_if_not: vec![0], ..Default::default() }
        ),
        vec!["run", "--name", "shawl", "--restart-if-not", "0"],
    );
}

#[test]
fn run_args_handle_restart_if_not_with_multiple_codes() {
    assert_eq!(
        construct_shawl_run_args(
            &s("shawl"),
            &None,
            &CommonOpts { restart_if_not: vec![1, 10], ..Default::default() }
        ),
        vec!["run", "--name", "shawl", "--restart-if-not", "1,10"],
    );
}

#[test]
fn run_args_handle_pass_with_one_code() {
    assert_eq!(
        construct_shawl_run_args(
            &s("shawl"),
            &None,
            &CommonOpts { pass: Some(vec![0]), ..Default::default() }
        ),
        vec!["run", "--name", "shawl", "--pass", "0"],
    );
}

#[test]
fn run_args_handle_pass_with_multiple_codes() {
    assert_eq!(
        construct_shawl_run_args(
            &s("shawl"),
            &None,
            &CommonOpts { pass: Some(vec![1, 10]), ..Default::default() }
        ),
        vec!["run", "--name", "shawl", "--pass", "1,10"],
    );
}

#[test]
fn run_args_handle_negative_pass_codes() {
    assert_eq!(
        construct_shawl_run_args(
            &s("shawl"),
            &None,
            &CommonOpts { pass: Some(vec![-1]), ..Default::default() }
        ),
        vec!["run", "--name", "shawl", "--pass", "-1"],
    );
}

#[test]
fn run_args_handle_stop_timeout() {
    assert_eq!(
        construct_shawl_run_args(
            &s("shawl"),
            &None,
            &CommonOpts { stop_timeout: Some(3000), ..Default::default() }
        ),
        vec!["run", "--name", "shawl", "--stop-timeout", "3000"],
    );
}

#[test]
fn run_args_handle_cwd_without_spaces() {
    assert_eq!(
        construct_shawl_run_args(&s("shawl"), &Some(s("C:/foo")), &CommonOpts::default()),
        vec!["run", "--name", "shawl", "--cwd", "C:/foo"],
    );
}

#[test]
fn run_args_handle_cwd_with_spaces() {
    assert_eq!(
        construct_shawl_run_args(
            &s("shawl"),
            &Some(s("C:/Program Files/foo")),
            &CommonOpts::default()
        ),
        vec!["run", "--name", "shawl", "--cwd", "\"C:/Program Files/foo\""],
    );
}

#[test]
fn run_args_handle_no_log() {
    assert_eq!(
        construct_shawl_run_args(
            &s("shawl"),
            &None,
            &CommonOpts { no_log: true, ..Default::default() }
        ),
        vec!["run", "--name", "shawl", "--no-log"],
    );
}

#[test]
fn run_args_handle_no_log_cmd() {
    assert_eq!(
        construct_shawl_run_args(
            &s("shawl"),
            &None,
            &CommonOpts { no_log_cmd: true, ..Default::default() }
        ),
        vec!["run", "--name", "shawl", "--no-log-cmd"],
    );
}

#[test]
fn run_args_handle_log_dir_without_spaces() {
    assert_eq!(
        construct_shawl_run_args(
            &s("shawl"),
            &None,
            &CommonOpts { log_dir: Some(s("C:/foo")), ..Default::default() }
        ),
        vec!["run", "--name", "shawl", "--log-dir", "C:/foo"],
    );
}

#[test]
fn run_args_handle_log_dir_with_spaces() {
    assert_eq!(
        construct_shawl_run_args(
            &s("shawl"),
            &None,
            &CommonOpts { log_dir: Some(s("C:/foo bar/hello")), ..Default::default() }
        ),
        vec!["run", "--name", "shawl", "--log-dir", "\"C:/foo bar/hello\""],
    );
}

#[test]
fn run_args_handle_pass_start_args() {
    assert_eq!(
        construct_shawl_run_args(
            &s("shawl"),
            &None,
            &CommonOpts { pass_start_args: true, ..Default::default() }
        ),
        vec!["run", "--name", "shawl", "--pass-start-args"],
    );
}

#[test]
fn run_args_handle_env_without_spaces() {
    assert_eq!(
        construct_shawl_run_args(
            &s("shawl"),
            &None,
            &CommonOpts { env: vec![(s("FOO"), s("bar"))], ..Default::default() }
        ),
        vec!["run", "--name", "shawl", "--env", "FOO=bar"],
    );
}

#[test]
fn run_args_handle_env_with_spaces() {
    assert_eq!(
        construct_shawl_run_args(
            &s("shawl"),
            &None,
            &CommonOpts { env: vec![(s("FOO"), s("bar baz"))], ..Default::default() }
        ),
        vec!["run", "--name", "shawl", "--env", "\"FOO=bar baz\""],
    );
}

#[test]
fn run_args_handle_env_multiple_times() {
    assert_eq!(
        construct_shawl_run_args(
            &s("shawl"),
            &None,
            &CommonOpts {
                env: vec![(s("FOO"), s("1")), (s("BAR"), s("2"))],
                ..Default::default()
            }
        ),
        vec!["run", "--name", "shawl", "--env", "FOO=1", "--env", "BAR=2"],
    );
}

#[test]
fn run_args_handle_path_without_spaces() {
    assert_eq!(
        construct_shawl_run_args(
            &s("shawl"),
            &None,
            &CommonOpts { path: vec![s("C:/foo")], ..Default::default() }
        ),
        vec!["run", "--name", "shawl", "--path", "C:/foo"],
    );
}

#[test]
fn run_args_handle_path_with_spaces() {
    assert_eq!(
        construct_shawl_run_args(
            &s("shawl"),
            &None,
            &CommonOpts { path: vec![s("C:/foo bar")], ..Default::default() }
        ),
        vec!["run", "--name", "shawl", "--path", "\"C:/foo bar\""],
    );
}

#[test]
fn run_args_handle_path_multiple_times() {
    assert_eq!(
        construct_shawl_run_args(
            &s("shawl"),
            &None,
            &CommonOpts { path: vec![s("C:/foo"), s("C:/bar")], ..Default::default() }
        ),
        vec!["run", "--name", "shawl", "--path", "C:/foo", "--path", "C:/bar"],
    );
}

#[test]
fn run_args_handle_restart_delay() {
    assert_eq!(
        construct_shawl_run_args(
            &s("shawl"),
            &None,
            &CommonOpts { restart_delay: Some(250), ..Default::default() }
        ),
        vec!["run", "--name", "shawl", "--restart-delay", "250"],
    );
}

#[test]
fn run_args_handle_kill_process_tree() {
    assert_eq!(
        construct_shawl_run_args(
            &s("shawl"),
            &None,
            &CommonOpts { kill_process_tree: true, ..Default::default() }
        ),
        vec!["run", "--name", "shawl", "--kill-process-tree"],
    );
}

#[test]
fn run_args_handle_log_as_with_spaces() {
    assert_eq!(
        construct_shawl_run_args(
            &s("shawl"),
            &None,
            &CommonOpts { log_as: Some(s("my log")), ..Default::default() }
        ),
        vec!["run", "--name", "shawl", "--log-as", "\"my log\""],
    );
}

#[test]
fn run_args_handle_log_cmd_as() {
    assert_eq!(
        construct_shawl_run_args(
            &s("shawl"),
            &None,
            &CommonOpts { log_cmd_as: Some(s("child")), ..Default::default() }
        ),
        vec!["run", "--name", "shawl", "--log-cmd-as", "child"],
    );
}

#[test]
fn run_args_handle_log_rotate() {
    assert_eq!(
        construct_shawl_run_args(
            &s("shawl"),
            &None,
            &CommonOpts { log_rotate: Some(LogRotation::Bytes(123)), ..Default::default() }
        ),
        vec!["run", "--name", "shawl", "--log-rotate", "bytes=123"],
    );
    assert_eq!(
        construct_shawl_run_args(
            &s("shawl"),
            &None,
            &CommonOpts { log_rotate: Some(LogRotation::Daily), ..Default::default() }
        ),
        vec!["run", "--name", "shawl", "--log-rotate", "daily"],
    );
}

#[test]
fn run_args_handle_log_retain() {
    assert_eq!(
        construct_shawl_run_args(
            &s("shawl"),
            &None,
            &CommonOpts { log_retain: Some(5), ..Default::default() }
        ),
        vec!["run", "--name", "shawl", "--log-retain", "5"],
    );
}

#[test]
fn run_args_handle_path_prepend() {
    assert_eq!(
        construct_shawl_run_args(
            &s("shawl"),
            &None,
            &CommonOpts { path_prepend: vec![s("C:/a"), s("C:/b c")], ..Default::default() }
        ),
        vec!["run", "--name", "shawl", "--path-prepend", "C:/a", "--path-prepend", "\"C:/b c\""],
    );
}

#[test]
fn run_args_handle_priority() {
    assert_eq!(
        construct_shawl_run_args(
            &s("shawl"),
            &None,
            &CommonOpts { priority: Some(Priority::AboveNormal), ..Default::default() }
        ),
        vec!["run", "--name", "shawl", "--priority", "above-normal"],
    );
}

#[test]
fn prepare_command_handles_parts_without_inner_spaces() {
    assert_eq!(prepare_command(&vec![s("cat"), s("file")]), vec![s("cat"), s("file")]);
}

#[test]
fn prepare_command_handles_parts_with_inner_spaces() {
    assert_eq!(prepare_command(&vec![s("cat"), s("some file")]), vec![s("cat"), s("\"some file\"")]);
}

#[test]
fn quote_wraps_text_with_spaces() {
    assert_eq!(quote("foo bar"), "\"foo bar\"");
}

#[test]
fn quote_keeps_text_without_spaces() {
    assert_eq!(quote("foo"), "foo");
}

#[test]
fn bin_path_quotes_command_parts_with_spaces() {
    let opts = CommonOpts { command: vec![s("foo bar"), s("--baz")], ..Default::default() };
    let bin_path = construct_bin_path(&s("C:/w/shawl.exe"), &s("svc"), &None, &opts);
    assert_eq!(bin_path, "C:/w/shawl.exe run --name svc -- \"foo bar\" --baz");
}

#[test]
fn bin_path_round_trips_through_the_parser() {
    let opts = CommonOpts {
        pass: Some(vec![1, -2]),
        restart: true,
        stop_timeout: Some(500),
        restart_delay: Some(250),
        log_dir: Some(s("C:/log dir")),
        log_as: Some(s("my log")),
        log_cmd_as: Some(s("child out")),
        log_rotate: Some(LogRotation::Bytes(4096)),
        log_retain: Some(7),
        env: vec![(s("FOO"), s("bar baz"))],
        path: vec![s("C:/tools")],
        path_prepend: vec![s("C:/pre bin")],
        priority: Some(Priority::High),
        kill_process_tree: true,
        command: vec![s("C:/Program Files/app.exe"), s("--flag")],
        ..Default::default()
    };
    let bin_path = construct_bin_path(&s("C:/w space/shawl.exe"), &s("svc"), &Some(s("C:/w d")), &opts);
    let argv = tokenize(&bin_path);
    let cli = shawl::cli::evaluate_cli(&argv).unwrap();
    assert_eq!(
        cli,
        shawl::cli::Cli {
            sub: shawl::cli::Subcommand::Run {
                common: opts,
                cwd: Some(s("C:/w d")),
                name: s("svc"),
            },
        },
    );
}

#[test]
fn sc_create_args_without_dependencies() {
    assert_eq!(
        construct_sc_create_args(&s("svc"), &vec![], &s("C:/w/shawl.exe run --name svc -- foo")),
        vec![s("create"), s("svc"), s("binPath="), s("C:/w/shawl.exe run --name svc -- foo")],
    );
}

#[test]
fn sc_create_args_with_dependencies() {
    assert_eq!(
        construct_sc_create_args(&s("svc"), &vec![s("a"), s("b")], &s("bin")),
        vec![s("create"), s("svc"), s("depend="), s("a/b"), s("binPath="), s("bin")],
    );
}

#[test]
fn tokenize_splits_on_spaces_and_respects_quotes() {
    assert_eq!(tokenize("a \"b c\" d"), vec![s("a"), s("b c"), s("d")]);
}

#[test]
fn join_with_spaces_joins_tokens() {
    assert_eq!(join_with_spaces(&vec![s("a"), s("b"), s("c")]), "a b c");
}
