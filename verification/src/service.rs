//! The service host: the mapping from child exit codes to SCM exit codes,
//! the restart policy, and the state machine that drives one service run —
//! spawn, supervise, graceful stop, forced kill, restart — while keeping
//! the reported service state moving only forward.

use vstd::prelude::*;

use crate::cli::{CommonOpts, Priority};
use crate::text::join_char;

verus! {

/// The Win32 error reported when the child ends without an exit code or
/// cannot be observed.
pub const ERROR_PROCESS_ABORTED: u32 = 1067;

/// What a non-blocking poll of the child process found.
#[derive(Clone, Copy, Debug, PartialEq, Eq, Structural)]
pub enum ProcessStatus {
    /// Still running.
    Running,
    /// Exited with a code.
    Exited(i32),
    /// Gone without an exit code (killed or aborted).
    Terminated,
}

/// Classify the result of a child poll: the outer option is whether the
/// process has ended, the inner one whether it left an exit code.
pub fn check_process(poll: Option<Option<i32>>) -> (s: ProcessStatus)
    ensures
        s == match poll {
            None => ProcessStatus::Running,
            Some(Some(code)) => ProcessStatus::Exited(code),
            Some(None) => ProcessStatus::Terminated,
        },
{
    match poll {
        None => ProcessStatus::Running,
        Some(Some(code)) => ProcessStatus::Exited(code),
        Some(None) => ProcessStatus::Terminated,
    }
}

/// The exit code carried in the final report to SCM.
#[derive(Clone, Copy, Debug, PartialEq, Eq, Structural)]
pub enum ServiceExitCode {
    /// Success.
    NoError,
    /// A service-specific exit code (the child's own).
    ServiceSpecific(u32),
    /// A Win32 error code.
    Win32(u32),
}

/// The service state as reported to SCM.
#[derive(Clone, Copy, Debug, PartialEq, Eq, Structural)]
pub enum ServiceState {
    StartPending,
    Running,
    StopPending,
    Stopped,
}

/// The position of a reported state in the one-way life cycle
/// `StartPending`, `Running`, `StopPending`, `Stopped`.
pub open spec fn state_rank(s: ServiceState) -> int {
    match s {
        ServiceState::StartPending => 0,
        ServiceState::Running => 1,
        ServiceState::StopPending => 2,
        ServiceState::Stopped => 3,
    }
}

/// A report sequence that never moves backward: every report ranks at
/// least as high as each one before it.
pub open spec fn reports_monotone(reports: Seq<ServiceState>) -> bool {
    forall|i: int, j: int|
        #![trigger reports[i], reports[j]]
        0 <= i <= j < reports.len() ==> state_rank(reports[i]) <= state_rank(reports[j])
}

/// Status monotonicity: in every reachable machine, the states reported to
/// SCM so far form a prefix of the one-way life cycle `StartPending`,
/// `Running`, `StopPending`, `Stopped`.  `HostMachine` carries its full
/// report history in `reports`; `new` establishes `wf` and every method
/// preserves it, so no report ever ranks below an earlier one, and once
/// `Stopped` is reported every later report is `Stopped`.
pub proof fn lemma_status_monotonic(m: &HostMachine)
    requires
        m.wf(),
    ensures
        reports_monotone(m.reports@),
        forall|i: int, j: int|
            #![trigger m.reports@[i], m.reports@[j]]
            0 <= i <= j < m.reports@.len() && m.reports@[i] == ServiceState::Stopped
                ==> m.reports@[j] == ServiceState::Stopped,
{
    let reports = m.reports@;
    assert forall|i: int, j: int|
        #![trigger reports[i], reports[j]]
        0 <= i <= j < reports.len() && reports[i] == ServiceState::Stopped implies reports[j]
        == ServiceState::Stopped by {
        assert(state_rank(reports[j]) == 3);
    }
}

/// Appending a report that ranks at least as high as the last keeps the
/// sequence monotone.
proof fn lemma_reports_push(reports: Seq<ServiceState>, s: ServiceState)
    requires
        reports_monotone(reports),
        reports.len() > 0 ==> state_rank(reports.last()) <= state_rank(s),
    ensures
        reports_monotone(reports.push(s)),
{
    let pushed = reports.push(s);
    assert forall|i: int, j: int|
        #![trigger pushed[i], pushed[j]]
        0 <= i <= j < pushed.len() implies state_rank(pushed[i]) <= state_rank(pushed[j]) by {
        if j < reports.len() {
            assert(pushed[i] == reports[i] && pushed[j] == reports[j]);
        } else if i < reports.len() {
            assert(pushed[i] == reports[i] && pushed[j] == s);
            assert(state_rank(reports[i]) <= state_rank(reports[reports.len() - 1]));
        }
    }
}

/// The Windows process-creation flag for a priority class: the priority
/// class values of the process-creation API, or the inherit-caller flag
/// when no priority is configured.
pub fn priority_creation_flags(priority: Option<Priority>) -> (r: u32)
    ensures
        r == match priority {
            Some(Priority::Realtime) => 0x100u32,
            Some(Priority::High) => 0x80u32,
            Some(Priority::AboveNormal) => 0x8000u32,
            Some(Priority::Normal) => 0x20u32,
            Some(Priority::BelowNormal) => 0x4000u32,
            Some(Priority::Idle) => 0x40u32,
            None => 0x20000u32,
        },
{
    match priority {
        Some(Priority::Realtime) => 0x100,
        Some(Priority::High) => 0x80,
        Some(Priority::AboveNormal) => 0x8000,
        Some(Priority::Normal) => 0x20,
        Some(Priority::BelowNormal) => 0x4000,
        Some(Priority::Idle) => 0x40,
        None => 0x20000,
    }
}

/// The child's exit code as a `u32`, with two's-complement wrapping for
/// negative codes.
pub open spec fn u32_of_code(code: i32) -> u32 {
    (if code >= 0 {
        code as int
    } else {
        code + 0x1_0000_0000
    }) as u32
}

/// The SCM exit code for a child that exited with `code`: success exactly
/// when the code is a pass code, else the code itself as service-specific.
pub open spec fn spec_exit_code_for(code: i32, pass: Seq<i32>) -> ServiceExitCode {
    if pass.contains(code) {
        ServiceExitCode::NoError
    } else {
        ServiceExitCode::ServiceSpecific(u32_of_code(code))
    }
}

/// The SCM exit code equals `NoError` exactly when the exit code is a pass
/// code; otherwise it is the code itself, reported as service-specific.
pub proof fn lemma_pass_code_mapping(code: i32, pass: Seq<i32>)
    ensures
        (spec_exit_code_for(code, pass) == ServiceExitCode::NoError) <==> pass.contains(code),
        !pass.contains(code) ==> spec_exit_code_for(code, pass) == ServiceExitCode::ServiceSpecific(
            u32_of_code(code),
        ),
{
}

/// Map a child exit code to the SCM exit code, given the pass codes.
pub fn exit_code_for(code: i32, pass: &Vec<i32>) -> (r: ServiceExitCode)
    ensures
        r == spec_exit_code_for(code, pass@),
{
    if contains_code(pass, code) {
        ServiceExitCode::NoError
    } else {
        let wide: i64 = code as i64;
        let unsigned: u32 = if wide >= 0 {
            code as u32
        } else {
            (wide + 0x1_0000_0000) as u32
        };
        ServiceExitCode::ServiceSpecific(unsigned)
    }
}

/// Whether `code` occurs in `codes`.
pub fn contains_code(codes: &Vec<i32>, code: i32) -> (r: bool)
    ensures
        r == codes@.contains(code),
{
    let mut i: usize = 0;
    while i < codes.len()
        invariant
            i <= codes.len(),
            forall|j: int| 0 <= j < i ==> codes@[j] != code,
        decreases codes.len() - i,
    {
        if codes[i] == code {
            assert(codes@.contains(code));
            return true;
        }
        i = i + 1;
    }
    false
}

/// What `should_restart_exited_command` returns, as a mathematical function.
pub open spec fn spec_should_restart_exited(
    code: i32,
    restart: bool,
    no_restart: bool,
    restart_if: Seq<i32>,
    restart_if_not: Seq<i32>,
) -> bool {
    if restart_if.len() > 0 {
        restart_if.contains(code)
    } else if restart_if_not.len() > 0 {
        !restart_if_not.contains(code)
    } else {
        restart || !no_restart && code != 0
    }
}

/// Decide whether a child process that exited with `code` should be
/// relaunched, given the restart policy flags.
///
/// Precedence: a nonempty `restart_if` set wins, then a nonempty
/// `restart_if_not` set, then the explicit `restart` / `no_restart` flags,
/// and by default only a nonzero exit code restarts.
pub fn should_restart_exited_command(
    code: i32,
    restart: bool,
    no_restart: bool,
    restart_if: &Vec<i32>,
    restart_if_not: &Vec<i32>,
) -> (r: bool)
    ensures
        r == spec_should_restart_exited(code, restart, no_restart, restart_if@, restart_if_not@),
{
    if restart_if.len() > 0 {
        contains_code(restart_if, code)
    } else if restart_if_not.len() > 0 {
        !contains_code(restart_if_not, code)
    } else {
        restart || !no_restart && code != 0
    }
}

/// Decide whether a child that ended without an exit code should be
/// relaunched: only an explicit `restart` does it.
pub fn should_restart_terminated_command(restart: bool, no_restart: bool) -> (r: bool)
    ensures
        r == restart,
{
    restart
}

/// The restart decision is total and deterministic, and follows the policy
/// table: a nonempty `restart_if` restarts exactly the codes it lists; a
/// nonempty `restart_if_not` restarts exactly the codes it omits; otherwise
/// `restart` forces a relaunch, `no_restart` forbids one, and by default
/// exactly the nonzero codes restart.  A child that ended without a code
/// restarts exactly under an explicit `restart`.
pub proof fn lemma_restart_policy_table(
    code: i32,
    restart: bool,
    no_restart: bool,
    restart_if: Seq<i32>,
    restart_if_not: Seq<i32>,
)
    ensures
        restart_if.len() > 0 ==> spec_should_restart_exited(
            code,
            restart,
            no_restart,
            restart_if,
            restart_if_not,
        ) == restart_if.contains(code),
        restart_if.len() == 0 && restart_if_not.len() > 0 ==> spec_should_restart_exited(
            code,
            restart,
            no_restart,
            restart_if,
            restart_if_not,
        ) == !restart_if_not.contains(code),
        restart_if.len() == 0 && restart_if_not.len() == 0 && restart
            ==> spec_should_restart_exited(code, restart, no_restart, restart_if, restart_if_not),
        restart_if.len() == 0 && restart_if_not.len() == 0 && !restart && no_restart
            ==> !spec_should_restart_exited(code, restart, no_restart, restart_if, restart_if_not),
        restart_if.len() == 0 && restart_if_not.len() == 0 && !restart && !no_restart
            ==> spec_should_restart_exited(code, restart, no_restart, restart_if, restart_if_not)
            == (code != 0),
{
}

/// The effective pass codes: the configured set, or `{0}` when none was
/// given.
pub open spec fn spec_effective_pass(opts: crate::cli::CommonOptsV) -> Seq<i32> {
    match opts.pass {
        Some(codes) => codes,
        None => seq![0i32],
    }
}

/// The effective graceful-stop timeout in milliseconds: the configured
/// value, or 3000 when none was given.
pub open spec fn spec_effective_stop_timeout(opts: crate::cli::CommonOptsV) -> u64 {
    match opts.stop_timeout {
        Some(ms) => ms,
        None => 3000u64,
    }
}

/// The phase of the host control loop.
#[derive(Clone, Copy, Debug, PartialEq, Eq, Structural)]
pub enum HostState {
    /// Before a spawn: entering the loop, or between runs.
    Initializing,
    /// A child is running and being polled.
    Supervising,
    /// A stop was requested; waiting for the child until the deadline.
    Draining { deadline_ms: u64 },
    /// The run is over; only the final report remains.
    Terminal,
}

/// What the host loop must do next, as decided by the state machine.
#[derive(Clone, Copy, Debug, PartialEq, Eq, Structural)]
pub enum HostAction {
    /// Keep polling.
    Continue,
    /// Join the log pumps, wait out any restart delay, and spawn again.
    Relaunch,
    /// Kill the child: drop the job object when `kill_process_tree` is set,
    /// else kill the process directly.
    Kill,
    /// Leave the loop and report the final state.
    Finish,
}

/// One status report for SCM: the state, whether stop and shutdown controls
/// are accepted in it, the exit code, and the wait hint.
#[derive(Clone, Copy, Debug, PartialEq, Eq, Structural)]
pub struct StatusReport {
    pub state: ServiceState,
    pub accept_stop: bool,
    pub exit_code: ServiceExitCode,
    pub wait_hint_ms: u64,
}

/// The state machine of one service run.  The host loop feeds it what it
/// observed — spawn results, poll results, stop requests, the clock — and
/// performs the actions it returns; the machine alone decides the reported
/// states and the final exit code.
pub struct HostMachine {
    /// Exit codes reported as success.
    pub pass: Vec<i32>,
    /// Always restart.
    pub restart: bool,
    /// Never restart.
    pub no_restart: bool,
    /// Restart exactly on these codes.
    pub restart_if: Vec<i32>,
    /// Restart exactly on other codes than these.
    pub restart_if_not: Vec<i32>,
    /// Milliseconds between ctrl-C and the forced kill.
    pub stop_timeout: u64,
    /// Milliseconds to wait before a relaunch.
    pub restart_delay: Option<u64>,
    /// Kill the whole descendant tree instead of only the child.
    pub kill_process_tree: bool,
    /// The phase of the run.
    pub state: HostState,
    /// The last state reported to SCM.
    pub reported: ServiceState,
    /// The exit code the final report will carry.
    pub exit_code: ServiceExitCode,
    /// Every state reported to SCM so far, in order.
    pub reports: Ghost<Seq<ServiceState>>,
}

impl HostMachine {
    /// The machine never moves `reported` backward, never drains without
    /// having reported `StopPending`, and reports `Stopped` only once the
    /// run is over; the report history never moves backward and ends at the
    /// last reported state.
    pub open spec fn wf(&self) -> bool {
        &&& (self.state is Draining ==> self.reported == ServiceState::StopPending)
        &&& (self.reported == ServiceState::Stopped ==> self.state is Terminal)
        &&& (self.state is Initializing || self.state is Supervising ==> state_rank(self.reported)
            <= 1)
        &&& reports_monotone(self.reports@)
        &&& (self.reports@.len() > 0 ==> self.reports@.last() == self.reported)
        &&& (self.reports@.len() == 0 ==> self.reported == ServiceState::StartPending)
    }

    /// Freeze the supervision policy and start a run: nothing spawned,
    /// nothing reported, success so far.
    pub fn new(opts: &CommonOpts) -> (m: HostMachine)
        ensures
            m.wf(),
            m.pass@ == spec_effective_pass(opts@),
            m.restart == opts.restart,
            m.no_restart == opts.no_restart,
            m.restart_if@ == opts@.restart_if,
            m.restart_if_not@ == opts@.restart_if_not,
            m.stop_timeout == spec_effective_stop_timeout(opts@),
            m.restart_delay == opts.restart_delay,
            m.kill_process_tree == opts.kill_process_tree,
            m.state == HostState::Initializing,
            m.reported == ServiceState::StartPending,
            m.exit_code == ServiceExitCode::NoError,
            m.reports@ == Seq::<ServiceState>::empty(),
    {
        let pass: Vec<i32> = match &opts.pass {
            Some(codes) => codes.clone(),
            None => {
                let mut v: Vec<i32> = Vec::new();
                v.push(0);
                proof {
                    assert(v@ =~= seq![0i32]);
                }
                v
            },
        };
        let stop_timeout: u64 = match opts.stop_timeout {
            Some(ms) => ms,
            None => 3000,
        };
        HostMachine {
            pass,
            restart: opts.restart,
            no_restart: opts.no_restart,
            restart_if: opts.restart_if.clone(),
            restart_if_not: opts.restart_if_not.clone(),
            stop_timeout,
            restart_delay: opts.restart_delay,
            kill_process_tree: opts.kill_process_tree,
            state: HostState::Initializing,
            reported: ServiceState::StartPending,
            exit_code: ServiceExitCode::NoError,
            reports: Ghost(Seq::empty()),
        }
    }

    /// The `Running` report, made once the control handler is registered:
    /// stop and shutdown are accepted from here on.
    pub fn start_report(&mut self) -> (r: StatusReport)
        requires
            old(self).wf(),
            old(self).state == HostState::Initializing,
            old(self).reported == ServiceState::StartPending,
        ensures
            final(self).wf(),
            *final(self) == (HostMachine {
                reported: ServiceState::Running,
                reports: final(self).reports,
                ..*old(self)
            }),
            final(self).reports@ == old(self).reports@.push(ServiceState::Running),
            state_rank(final(self).reported) >= state_rank(old(self).reported),
            r == (StatusReport {
                state: ServiceState::Running,
                accept_stop: true,
                exit_code: ServiceExitCode::NoError,
                wait_hint_ms: 0u64,
            }),
            r.state == final(self).reported,
    {
        proof {
            lemma_reports_push(self.reports@, ServiceState::Running);
        }
        self.reports = Ghost(self.reports@.push(ServiceState::Running));
        self.reported = ServiceState::Running;
        StatusReport {
            state: ServiceState::Running,
            accept_stop: true,
            exit_code: ServiceExitCode::NoError,
            wait_hint_ms: 0,
        }
    }

    /// A stop or shutdown received before the next spawn: the run ends
    /// without spawning, keeping the exit code of the last outcome.
    pub fn on_stop_before_spawn(&mut self)
        requires
            old(self).wf(),
            old(self).state == HostState::Initializing,
        ensures
            final(self).wf(),
            *final(self) == (HostMachine { state: HostState::Terminal, ..*old(self) }),
            state_rank(final(self).reported) >= state_rank(old(self).reported),
    {
        self.state = HostState::Terminal;
    }

    /// The child was spawned: supervise it.
    pub fn on_spawn(&mut self)
        requires
            old(self).wf(),
            old(self).state == HostState::Initializing,
        ensures
            final(self).wf(),
            *final(self) == (HostMachine { state: HostState::Supervising, ..*old(self) }),
            state_rank(final(self).reported) >= state_rank(old(self).reported),
    {
        self.state = HostState::Supervising;
    }

    /// The spawn failed: the run ends with the OS error as the Win32 exit
    /// code, or `ERROR_PROCESS_ABORTED` when the OS gave none.
    pub fn on_spawn_failure(&mut self, os_error: Option<u32>)
        requires
            old(self).wf(),
            old(self).state == HostState::Initializing,
        ensures
            final(self).wf(),
            *final(self) == (HostMachine {
                state: HostState::Terminal,
                exit_code: ServiceExitCode::Win32(
                    match os_error {
                        Some(code) => code,
                        None => ERROR_PROCESS_ABORTED,
                    },
                ),
                ..*old(self)
            }),
            state_rank(final(self).reported) >= state_rank(old(self).reported),
    {
        self.state = HostState::Terminal;
        self.exit_code = ServiceExitCode::Win32(
            match os_error {
                Some(code) => code,
                None => ERROR_PROCESS_ABORTED,
            },
        );
    }

    /// A poll result while supervising.  An exit records its code under the
    /// pass codes and relaunches exactly when the restart policy says so; a
    /// termination without code records `ERROR_PROCESS_ABORTED` and
    /// relaunches only under an explicit `restart`.
    pub fn on_poll(&mut self, status: ProcessStatus) -> (a: HostAction)
        requires
            old(self).wf(),
            old(self).state == HostState::Supervising,
        ensures
            final(self).wf(),
            state_rank(final(self).reported) >= state_rank(old(self).reported),
            match status {
                ProcessStatus::Running => a == HostAction::Continue && *final(self) == *old(self),
                ProcessStatus::Exited(code) => {
                    let restarting = spec_should_restart_exited(
                        code,
                        old(self).restart,
                        old(self).no_restart,
                        old(self).restart_if@,
                        old(self).restart_if_not@,
                    );
                    &&& *final(self) == (HostMachine {
                        state: if restarting {
                            HostState::Initializing
                        } else {
                            HostState::Terminal
                        },
                        exit_code: spec_exit_code_for(code, old(self).pass@),
                        ..*old(self)
                    })
                    &&& a == (if restarting {
                        HostAction::Relaunch
                    } else {
                        HostAction::Finish
                    })
                },
                ProcessStatus::Terminated => {
                    &&& *final(self) == (HostMachine {
                        state: if old(self).restart {
                            HostState::Initializing
                        } else {
                            HostState::Terminal
                        },
                        exit_code: ServiceExitCode::Win32(ERROR_PROCESS_ABORTED),
                        ..*old(self)
                    })
                    &&& a == (if old(self).restart {
                        HostAction::Relaunch
                    } else {
                        HostAction::Finish
                    })
                },
            },
    {
        match status {
            ProcessStatus::Running => HostAction::Continue,
            ProcessStatus::Exited(code) => {
                self.exit_code = exit_code_for(code, &self.pass);
                if should_restart_exited_command(
                    code,
                    self.restart,
                    self.no_restart,
                    &self.restart_if,
                    &self.restart_if_not,
                ) {
                    self.state = HostState::Initializing;
                    HostAction::Relaunch
                } else {
                    self.state = HostState::Terminal;
                    HostAction::Finish
                }
            },
            ProcessStatus::Terminated => {
                self.exit_code = ServiceExitCode::Win32(ERROR_PROCESS_ABORTED);
                if should_restart_terminated_command(self.restart, self.no_restart) {
                    self.state = HostState::Initializing;
                    HostAction::Relaunch
                } else {
                    self.state = HostState::Terminal;
                    HostAction::Finish
                }
            },
        }
    }

    /// The poll itself failed while supervising: treated like a termination
    /// for the exit code, but the loop always tries one relaunch.
    pub fn on_poll_error(&mut self) -> (a: HostAction)
        requires
            old(self).wf(),
            old(self).state == HostState::Supervising,
        ensures
            final(self).wf(),
            state_rank(final(self).reported) >= state_rank(old(self).reported),
            *final(self) == (HostMachine {
                state: HostState::Initializing,
                exit_code: ServiceExitCode::Win32(ERROR_PROCESS_ABORTED),
                ..*old(self)
            }),
            a == HostAction::Relaunch,
    {
        self.exit_code = ServiceExitCode::Win32(ERROR_PROCESS_ABORTED);
        self.state = HostState::Initializing;
        HostAction::Relaunch
    }

    /// A stop or shutdown while supervising: report `StopPending` with a
    /// wait hint one second past the stop timeout, and start draining; the
    /// caller sends ctrl-C to the console group right after this report.
    pub fn on_stop(&mut self, now_ms: u64) -> (r: StatusReport)
        requires
            old(self).wf(),
            old(self).state == HostState::Supervising,
            now_ms + old(self).stop_timeout + 1000 <= u64::MAX,
        ensures
            final(self).wf(),
            state_rank(final(self).reported) >= state_rank(old(self).reported),
            *final(self) == (HostMachine {
                state: HostState::Draining { deadline_ms: (now_ms + old(self).stop_timeout) as u64 },
                reported: ServiceState::StopPending,
                reports: final(self).reports,
                ..*old(self)
            }),
            final(self).reports@ == old(self).reports@.push(ServiceState::StopPending),
            r == (StatusReport {
                state: ServiceState::StopPending,
                accept_stop: false,
                exit_code: ServiceExitCode::NoError,
                wait_hint_ms: (old(self).stop_timeout + 1000) as u64,
            }),
            r.state == final(self).reported,
    {
        proof {
            lemma_reports_push(self.reports@, ServiceState::StopPending);
        }
        self.reports = Ghost(self.reports@.push(ServiceState::StopPending));
        self.state = HostState::Draining { deadline_ms: now_ms + self.stop_timeout };
        self.reported = ServiceState::StopPending;
        StatusReport {
            state: ServiceState::StopPending,
            accept_stop: false,
            exit_code: ServiceExitCode::NoError,
            wait_hint_ms: self.stop_timeout + 1000,
        }
    }

    /// A poll result while draining.  A child still running is given until
    /// the deadline, then killed with success reported; an exit inside the
    /// window is reported under the pass codes; a termination inside the
    /// window keeps the exit code already recorded.
    pub fn on_drain_poll(&mut self, status: ProcessStatus, now_ms: u64) -> (a: HostAction)
        requires
            old(self).wf(),
            old(self).state is Draining,
        ensures
            final(self).wf(),
            state_rank(final(self).reported) >= state_rank(old(self).reported),
            match status {
                ProcessStatus::Running => {
                    if now_ms < old(self).state->Draining_deadline_ms {
                        a == HostAction::Continue && *final(self) == *old(self)
                    } else {
                        &&& *final(self) == (HostMachine {
                            state: HostState::Terminal,
                            exit_code: ServiceExitCode::NoError,
                            ..*old(self)
                        })
                        &&& a == HostAction::Kill
                    }
                },
                ProcessStatus::Exited(code) => {
                    &&& *final(self) == (HostMachine {
                        state: HostState::Terminal,
                        exit_code: spec_exit_code_for(code, old(self).pass@),
                        ..*old(self)
                    })
                    &&& a == HostAction::Finish
                },
                ProcessStatus::Terminated => {
                    &&& *final(self) == (HostMachine { state: HostState::Terminal, ..*old(self) })
                    &&& a == HostAction::Finish
                },
            },
    {
        match status {
            ProcessStatus::Running => {
                let deadline = match self.state {
                    HostState::Draining { deadline_ms } => deadline_ms,
                    _ => 0,
                };
                if now_ms < deadline {
                    HostAction::Continue
                } else {
                    self.state = HostState::Terminal;
                    self.exit_code = ServiceExitCode::NoError;
                    HostAction::Kill
                }
            },
            ProcessStatus::Exited(code) => {
                self.exit_code = exit_code_for(code, &self.pass);
                self.state = HostState::Terminal;
                HostAction::Finish
            },
            ProcessStatus::Terminated => {
                self.state = HostState::Terminal;
                HostAction::Finish
            },
        }
    }

    /// The poll itself failed while draining: the run ends with the exit
    /// code already recorded.
    pub fn on_drain_error(&mut self)
        requires
            old(self).wf(),
            old(self).state is Draining,
        ensures
            final(self).wf(),
            state_rank(final(self).reported) >= state_rank(old(self).reported),
            *final(self) == (HostMachine { state: HostState::Terminal, ..*old(self) }),
    {
        self.state = HostState::Terminal;
    }

    /// The final `Stopped` report, carrying the exit code of the run.
    pub fn stopped_report(&mut self) -> (r: StatusReport)
        requires
            old(self).wf(),
            old(self).state == HostState::Terminal,
        ensures
            final(self).wf(),
            state_rank(final(self).reported) >= state_rank(old(self).reported),
            *final(self) == (HostMachine {
                reported: ServiceState::Stopped,
                reports: final(self).reports,
                ..*old(self)
            }),
            final(self).reports@ == old(self).reports@.push(ServiceState::Stopped),
            r == (StatusReport {
                state: ServiceState::Stopped,
                accept_stop: false,
                exit_code: old(self).exit_code,
                wait_hint_ms: 0u64,
            }),
            r.state == final(self).reported,
    {
        proof {
            lemma_reports_push(self.reports@, ServiceState::Stopped);
        }
        self.reports = Ghost(self.reports@.push(ServiceState::Stopped));
        self.reported = ServiceState::Stopped;
        StatusReport {
            state: ServiceState::Stopped,
            accept_stop: false,
            exit_code: self.exit_code,
            wait_hint_ms: 0,
        }
    }
}

/// The child's full argument vector: the configured command, with the
/// service start arguments appended when `pass_start_args` is set.
pub fn compose_child_args(command: &Vec<String>, start_args: &Vec<String>, pass_start_args: bool) -> (r:
    Vec<String>)
    ensures
        r.deep_view() == command.deep_view() + (if pass_start_args {
            start_args.deep_view()
        } else {
            Seq::<Seq<char>>::empty()
        }),
{
    let mut r: Vec<String> = Vec::new();
    let mut i: usize = 0;
    while i < command.len()
        invariant
            i <= command@.len(),
            r.deep_view() =~= command.deep_view().subrange(0, i as int),
        decreases command@.len() - i,
    {
        let ghost before = r.deep_view();
        r.push(command[i].clone());
        proof {
            assert(r.deep_view() =~= before + seq![command.deep_view()[i as int]]);
            assert(command.deep_view().subrange(0, i as int + 1) =~= command.deep_view().subrange(
                0,
                i as int,
            ) + seq![command.deep_view()[i as int]]);
        }
        i = i + 1;
    }
    proof {
        assert(command.deep_view().subrange(0, command.deep_view().len() as int)
            =~= command.deep_view());
    }
    if pass_start_args {
        let mut j: usize = 0;
        while j < start_args.len()
            invariant
                j <= start_args@.len(),
                r.deep_view() =~= command.deep_view() + start_args.deep_view().subrange(
                    0,
                    j as int,
                ),
            decreases start_args@.len() - j,
        {
            let ghost before = r.deep_view();
            r.push(start_args[j].clone());
            proof {
                assert(r.deep_view() =~= before + seq![start_args.deep_view()[j as int]]);
                assert(start_args.deep_view().subrange(0, j as int + 1)
                    =~= start_args.deep_view().subrange(0, j as int) + seq![
                    start_args.deep_view()[j as int],
                ]);
            }
            j = j + 1;
        }
        proof {
            assert(start_args.deep_view().subrange(0, start_args.deep_view().len() as int)
                =~= start_args.deep_view());
        }
    } else {
        proof {
            assert(command.deep_view() + Seq::<Seq<char>>::empty() =~= command.deep_view());
        }
    }
    r
}

/// An optional string as a sequence of zero or one parts.
pub open spec fn opt_part(s: Option<Seq<char>>) -> Seq<Seq<char>> {
    match s {
        Some(part) => seq![part],
        None => Seq::empty(),
    }
}

/// The child's effective `PATH`: prepended directories first, then the
/// inherited value, then appended directories, then the working directory,
/// joined with semicolons; absent when there is nothing to put in it.
pub open spec fn spec_compose_path(
    inherited: Option<Seq<char>>,
    prepend: Seq<Seq<char>>,
    append: Seq<Seq<char>>,
    cwd: Option<Seq<char>>,
) -> Option<Seq<char>> {
    let parts = prepend + opt_part(inherited) + append + opt_part(cwd);
    if parts.len() == 0 {
        None
    } else {
        Some(join_char(parts, ';'))
    }
}

/// Compose the child's `PATH` from the inherited value and the policy.
pub fn compose_path_env(
    inherited: &Option<String>,
    prepend: &Vec<String>,
    append: &Vec<String>,
    cwd: &Option<String>,
) -> (r: Option<String>)
    ensures
        r.deep_view() == spec_compose_path(
            inherited.deep_view(),
            prepend.deep_view(),
            append.deep_view(),
            cwd.deep_view(),
        ),
{
    let mut parts: Vec<String> = Vec::new();
    let mut i: usize = 0;
    while i < prepend.len()
        invariant
            i <= prepend@.len(),
            parts.deep_view() =~= prepend.deep_view().subrange(0, i as int),
        decreases prepend@.len() - i,
    {
        let ghost before = parts.deep_view();
        parts.push(prepend[i].clone());
        proof {
            assert(parts.deep_view() =~= before + seq![prepend.deep_view()[i as int]]);
            assert(prepend.deep_view().subrange(0, i as int + 1) =~= prepend.deep_view().subrange(
                0,
                i as int,
            ) + seq![prepend.deep_view()[i as int]]);
        }
        i = i + 1;
    }
    proof {
        assert(prepend.deep_view().subrange(0, prepend.deep_view().len() as int)
            =~= prepend.deep_view());
    }
    match inherited {
        Some(path) => {
            let ghost before = parts.deep_view();
            parts.push(path.clone());
            proof {
                assert(parts.deep_view() =~= before + opt_part(inherited.deep_view()));
            }
        },
        None => {
            proof {
                assert(parts.deep_view() =~= prepend.deep_view() + opt_part(
                    inherited.deep_view(),
                ));
            }
        },
    }
    let mut j: usize = 0;
    while j < append.len()
        invariant
            j <= append@.len(),
            parts.deep_view() =~= prepend.deep_view() + opt_part(inherited.deep_view())
                + append.deep_view().subrange(0, j as int),
        decreases append@.len() - j,
    {
        let ghost before = parts.deep_view();
        parts.push(append[j].clone());
        proof {
            assert(parts.deep_view() =~= before + seq![append.deep_view()[j as int]]);
            assert(append.deep_view().subrange(0, j as int + 1) =~= append.deep_view().subrange(
                0,
                j as int,
            ) + seq![append.deep_view()[j as int]]);
        }
        j = j + 1;
    }
    proof {
        assert(append.deep_view().subrange(0, append.deep_view().len() as int)
            =~= append.deep_view());
    }
    match cwd {
        Some(dir) => {
            let ghost before = parts.deep_view();
            parts.push(dir.clone());
            proof {
                assert(parts.deep_view() =~= before + opt_part(cwd.deep_view()));
            }
        },
        None => {
            proof {
                assert(parts.deep_view() =~= prepend.deep_view() + opt_part(inherited.deep_view())
                    + append.deep_view() + opt_part(cwd.deep_view()));
            }
        },
    }
    if parts.len() == 0 {
        None
    } else {
        Some(crate::text::join_char_strings(&parts, ';'))
    }
}

} // verus!
