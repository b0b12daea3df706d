use shawl::cli::{CommonOpts, Priority};
use shawl::service::{
    check_process, compose_child_args, compose_path_env, exit_code_for, priority_creation_flags,
    should_restart_exited_command, should_restart_terminated_command, HostAction, HostMachine,
    HostState, ProcessStatus, ServiceExitCode, ServiceState,
};

fn s(text: &str) -> String {
    text.to_string()
}

#[test]
fn restart_exited_handles_restart() {
    assert!(should_restart_exited_command(5, true, false, &vec![], &vec![]));
}

#[test]
fn restart_exited_handles_no_restart() {
    assert!(!should_restart_exited_command(0, false, true, &vec![], &vec![]));
}

#[test]
fn restart_exited_handles_restart_if() {
    assert!(should_restart_exited_command(0, false, false, &vec![0], &vec![]));
    assert!(!should_restart_exited_command(1, false, false, &vec![0], &vec![]));
}

#[test]
fn restart_exited_handles_restart_if_not() {
    assert!(!should_restart_exited_command(0, false, false, &vec![], &vec![0]));
    assert!(should_restart_exited_command(1, false, false, &vec![], &vec![0]));
}

#[test]
fn restart_exited_restarts_nonzero_by_default() {
    assert!(!should_restart_exited_command(0, false, false, &vec![], &vec![]));
    assert!(should_restart_exited_command(1, false, false, &vec![], &vec![]));
}

#[test]
fn restart_terminated_only_restarts_with_restart() {
    assert!(!should_restart_terminated_command(false, false));
    assert!(should_restart_terminated_command(true, false));
    assert!(!should_restart_terminated_command(false, true));
}

#[test]
fn exit_code_passes_pass_codes() {
    assert_eq!(exit_code_for(0, &vec![0]), ServiceExitCode::NoError);
    assert_eq!(exit_code_for(1, &vec![0, 1]), ServiceExitCode::NoError);
}

#[test]
fn exit_code_reports_other_codes_as_service_specific() {
    assert_eq!(exit_code_for(7, &vec![0]), ServiceExitCode::ServiceSpecific(7));
}

#[test]
fn exit_code_wraps_negative_codes() {
    assert_eq!(exit_code_for(-1, &vec![0]), ServiceExitCode::ServiceSpecific(0xffff_ffff));
}

#[test]
fn check_process_classifies_polls() {
    assert_eq!(check_process(None), ProcessStatus::Running);
    assert_eq!(check_process(Some(Some(7))), ProcessStatus::Exited(7));
    assert_eq!(check_process(Some(None)), ProcessStatus::Terminated);
}

fn machine(opts: &CommonOpts) -> HostMachine {
    let mut m = HostMachine::new(opts);
    let report = m.start_report();
    assert_eq!(report.state, ServiceState::Running);
    assert!(report.accept_stop);
    m
}

#[test]
fn host_reports_stopped_no_error_for_clean_exit() {
    // Start, let the child run, stop, and see it exit inside the window.
    let opts = CommonOpts { command: vec![s("child")], ..Default::default() };
    let mut m = machine(&opts);
    m.on_spawn();
    assert_eq!(m.on_poll(ProcessStatus::Running), HostAction::Continue);
    let report = m.on_stop(1_000);
    assert_eq!(report.state, ServiceState::StopPending);
    assert!(!report.accept_stop);
    assert_eq!(report.wait_hint_ms, 4_000);
    assert_eq!(m.on_drain_poll(ProcessStatus::Exited(0), 1_500), HostAction::Finish);
    let last = m.stopped_report();
    assert_eq!(last.state, ServiceState::Stopped);
    assert_eq!(last.exit_code, ServiceExitCode::NoError);
}

#[test]
fn host_masks_pass_codes() {
    // A pass code is success even though the child failed by number.
    let opts = CommonOpts {
        pass: Some(vec![1]),
        command: vec![s("child"), s("--exit"), s("1")],
        ..Default::default()
    };
    let mut m = machine(&opts);
    m.on_spawn();
    assert_eq!(m.on_poll(ProcessStatus::Exited(1)), HostAction::Relaunch);
    assert_eq!(m.exit_code, ServiceExitCode::NoError);
    m.on_spawn();
    m.on_stop(10_000);
    assert_eq!(m.on_drain_poll(ProcessStatus::Exited(1), 10_100), HostAction::Finish);
    let last = m.stopped_report();
    assert_eq!(last.exit_code, ServiceExitCode::NoError);
}

#[test]
fn host_reports_service_specific_failure() {
    let opts = CommonOpts { command: vec![s("child"), s("--exit"), s("7")], ..Default::default() };
    let mut m = machine(&opts);
    m.on_spawn();
    assert_eq!(m.on_poll(ProcessStatus::Exited(7)), HostAction::Relaunch);
    assert_eq!(m.exit_code, ServiceExitCode::ServiceSpecific(7));
    m.on_spawn();
    m.on_stop(20_000);
    assert_eq!(m.on_drain_poll(ProcessStatus::Exited(7), 20_050), HostAction::Finish);
    let last = m.stopped_report();
    assert_eq!(last.exit_code, ServiceExitCode::ServiceSpecific(7));
}

#[test]
fn host_kills_after_stop_timeout_and_reports_no_error() {
    let opts = CommonOpts { command: vec![s("child"), s("--infinite")], ..Default::default() };
    let mut m = machine(&opts);
    m.on_spawn();
    let report = m.on_stop(0);
    assert_eq!(report.wait_hint_ms, 4_000);
    assert_eq!(m.state, HostState::Draining { deadline_ms: 3_000 });
    assert_eq!(m.on_drain_poll(ProcessStatus::Running, 1_000), HostAction::Continue);
    assert_eq!(m.on_drain_poll(ProcessStatus::Running, 3_000), HostAction::Kill);
    let last = m.stopped_report();
    assert_eq!(last.state, ServiceState::Stopped);
    assert_eq!(last.exit_code, ServiceExitCode::NoError);
}

#[test]
fn host_stops_cleanly_before_a_delayed_relaunch() {
    let opts = CommonOpts {
        restart: true,
        restart_delay: Some(500),
        command: vec![s("child")],
        ..Default::default()
    };
    let mut m = machine(&opts);
    m.on_spawn();
    assert_eq!(m.on_poll(ProcessStatus::Exited(0)), HostAction::Relaunch);
    assert_eq!(m.restart_delay, Some(500));
    m.on_stop_before_spawn();
    let last = m.stopped_report();
    assert_eq!(last.exit_code, ServiceExitCode::NoError);
}

#[test]
fn host_reports_spawn_failure_as_win32() {
    let opts = CommonOpts { command: vec![s("missing")], ..Default::default() };
    let mut m = machine(&opts);
    m.on_spawn_failure(Some(2));
    let last = m.stopped_report();
    assert_eq!(last.exit_code, ServiceExitCode::Win32(2));
}

#[test]
fn host_reports_aborted_spawn_without_os_code() {
    let opts = CommonOpts { command: vec![s("missing")], ..Default::default() };
    let mut m = machine(&opts);
    m.on_spawn_failure(None);
    let last = m.stopped_report();
    assert_eq!(last.exit_code, ServiceExitCode::Win32(1067));
}

#[test]
fn host_treats_termination_as_aborted() {
    let opts = CommonOpts { command: vec![s("child")], ..Default::default() };
    let mut m = machine(&opts);
    m.on_spawn();
    assert_eq!(m.on_poll(ProcessStatus::Terminated), HostAction::Finish);
    let last = m.stopped_report();
    assert_eq!(last.exit_code, ServiceExitCode::Win32(1067));
}

#[test]
fn host_restarts_terminated_child_only_with_restart() {
    let opts = CommonOpts { restart: true, command: vec![s("child")], ..Default::default() };
    let mut m = machine(&opts);
    m.on_spawn();
    assert_eq!(m.on_poll(ProcessStatus::Terminated), HostAction::Relaunch);
    assert_eq!(m.exit_code, ServiceExitCode::Win32(1067));
}

#[test]
fn host_relaunches_once_after_a_poll_error() {
    let opts = CommonOpts { command: vec![s("child")], ..Default::default() };
    let mut m = machine(&opts);
    m.on_spawn();
    assert_eq!(m.on_poll_error(), HostAction::Relaunch);
    assert_eq!(m.exit_code, ServiceExitCode::Win32(1067));
    assert_eq!(m.state, HostState::Initializing);
}

#[test]
fn host_uses_defaults_for_pass_and_stop_timeout() {
    let opts = CommonOpts { command: vec![s("child")], ..Default::default() };
    let m = HostMachine::new(&opts);
    assert_eq!(m.pass, vec![0]);
    assert_eq!(m.stop_timeout, 3_000);
    assert_eq!(m.reported, ServiceState::StartPending);
    assert_eq!(m.state, HostState::Initializing);
}

#[test]
fn priority_maps_to_the_creation_flags() {
    assert_eq!(priority_creation_flags(Some(Priority::Realtime)), 0x100);
    assert_eq!(priority_creation_flags(Some(Priority::High)), 0x80);
    assert_eq!(priority_creation_flags(Some(Priority::AboveNormal)), 0x8000);
    assert_eq!(priority_creation_flags(Some(Priority::Normal)), 0x20);
    assert_eq!(priority_creation_flags(Some(Priority::BelowNormal)), 0x4000);
    assert_eq!(priority_creation_flags(Some(Priority::Idle)), 0x40);
    assert_eq!(priority_creation_flags(None), 0x20000);
}

#[test]
fn compose_child_args_appends_start_args_when_asked() {
    assert_eq!(
        compose_child_args(&vec![s("app"), s("--flag")], &vec![s("extra")], true),
        vec![s("app"), s("--flag"), s("extra")],
    );
    assert_eq!(
        compose_child_args(&vec![s("app"), s("--flag")], &vec![s("extra")], false),
        vec![s("app"), s("--flag")],
    );
}

#[test]
fn compose_path_orders_prepend_inherited_append_cwd() {
    assert_eq!(
        compose_path_env(
            &Some(s("C:/inh")),
            &vec![s("C:/pre")],
            &vec![s("C:/app")],
            &Some(s("C:/cwd")),
        ),
        Some(s("C:/pre;C:/inh;C:/app;C:/cwd")),
    );
}

#[test]
fn compose_path_without_inherited_value() {
    assert_eq!(
        compose_path_env(&None, &vec![], &vec![s("C:/app")], &None),
        Some(s("C:/app")),
    );
}

#[test]
fn compose_path_empty_when_nothing_is_given() {
    assert_eq!(compose_path_env(&None, &vec![], &vec![], &None), None);
}
