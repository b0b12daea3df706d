//! The command-line surface: the option types shared by the `add` and `run`
//! subcommands, the value parsers for each option, and the full argument
//! parser `evaluate_cli`.

use vstd::prelude::*;

use crate::numbers::{
    dec_of, parse_csv_codes, parse_csv_codes_spec, parse_u64, parse_u64_spec,
};
use crate::text::{find_char, str_eq, str_find_char};

verus! {

broadcast use vstd::string::group_string_axioms;

/// An error in the configuration given on the command line.
#[derive(Debug)]
pub enum CliError {
    /// An `--env` value without a `KEY=value` shape.
    InvalidEnvVar { specification: String },
    /// No subcommand, or one that is neither `add` nor `run`.
    UnknownSubcommand { name: String },
    /// An argument that no option matches.
    UnknownArgument { argument: String },
    /// A required argument is absent.
    MissingRequiredArgument { argument: String },
    /// An option that needs a value stands last.
    MissingValue { option: String },
    /// An option value that does not parse.
    InvalidValue { option: String, value: String },
    /// More than one of the mutually exclusive restart options.
    ArgumentConflict,
}

/// The view of a `CliError`.
#[verifier::ext_equal]
pub ghost enum CliErrorV {
    InvalidEnvVar { specification: Seq<char> },
    UnknownSubcommand { name: Seq<char> },
    UnknownArgument { argument: Seq<char> },
    MissingRequiredArgument { argument: Seq<char> },
    MissingValue { option: Seq<char> },
    InvalidValue { option: Seq<char>, value: Seq<char> },
    ArgumentConflict,
}

impl View for CliError {
    type V = CliErrorV;

    open spec fn view(&self) -> CliErrorV {
        match self {
            CliError::InvalidEnvVar { specification } => CliErrorV::InvalidEnvVar {
                specification: specification@,
            },
            CliError::UnknownSubcommand { name } => CliErrorV::UnknownSubcommand { name: name@ },
            CliError::UnknownArgument { argument } => CliErrorV::UnknownArgument {
                argument: argument@,
            },
            CliError::MissingRequiredArgument { argument } => CliErrorV::MissingRequiredArgument {
                argument: argument@,
            },
            CliError::MissingValue { option } => CliErrorV::MissingValue { option: option@ },
            CliError::InvalidValue { option, value } => CliErrorV::InvalidValue {
                option: option@,
                value: value@,
            },
            CliError::ArgumentConflict => CliErrorV::ArgumentConflict,
        }
    }
}

impl CliError {
    /// A one-line description of the error.
    pub fn message(&self) -> (s: String)
        ensures
            self is InvalidEnvVar ==> s@ == "Invalid KEY=value formatting in '"@
                + self->InvalidEnvVar_specification@ + "'"@,
            self is UnknownSubcommand ==> s@ == "Unknown subcommand '"@
                + self->UnknownSubcommand_name@ + "'"@,
            self is UnknownArgument ==> s@ == "Unknown argument '"@ + self->UnknownArgument_argument@
                + "'"@,
            self is MissingRequiredArgument ==> s@ == "Missing required argument '"@
                + self->MissingRequiredArgument_argument@ + "'"@,
            self is MissingValue ==> s@ == "Missing value for option '"@ + self->MissingValue_option@
                + "'"@,
            self is InvalidValue ==> s@ == "Invalid value for option '"@ + self->InvalidValue_option@
                + "': '"@ + self->InvalidValue_value@ + "'"@,
            self is ArgumentConflict ==> s@ == "Conflicting restart options"@,
    {
        match self {
            CliError::InvalidEnvVar { specification } => {
                String::from_str("Invalid KEY=value formatting in '").concat(
                    specification.as_str(),
                ).concat("'")
            },
            CliError::UnknownSubcommand { name } => {
                String::from_str("Unknown subcommand '").concat(name.as_str()).concat("'")
            },
            CliError::UnknownArgument { argument } => {
                String::from_str("Unknown argument '").concat(argument.as_str()).concat("'")
            },
            CliError::MissingRequiredArgument { argument } => {
                String::from_str("Missing required argument '").concat(argument.as_str()).concat(
                    "'",
                )
            },
            CliError::MissingValue { option } => {
                String::from_str("Missing value for option '").concat(option.as_str()).concat("'")
            },
            CliError::InvalidValue { option, value } => {
                String::from_str("Invalid value for option '").concat(option.as_str()).concat(
                    "': '",
                ).concat(value.as_str()).concat("'")
            },
            CliError::ArgumentConflict => {
                String::from_str("Conflicting restart options")
            },
        }
    }
}

/// Process priority class for the wrapped command.
#[derive(Clone, Copy, Debug, PartialEq, Eq, Structural)]
pub enum Priority {
    Realtime,
    High,
    AboveNormal,
    Normal,
    BelowNormal,
    Idle,
}

/// The command-line rendering of a priority class.
pub open spec fn priority_cli(p: Priority) -> Seq<char> {
    match p {
        Priority::Realtime => "realtime"@,
        Priority::High => "high"@,
        Priority::AboveNormal => "above-normal"@,
        Priority::Normal => "normal"@,
        Priority::BelowNormal => "below-normal"@,
        Priority::Idle => "idle"@,
    }
}

/// What parsing a priority class from the command line yields.
pub open spec fn priority_from_cli_spec(s: Seq<char>) -> Option<Priority> {
    if s == "realtime"@ {
        Some(Priority::Realtime)
    } else if s == "high"@ {
        Some(Priority::High)
    } else if s == "above-normal"@ {
        Some(Priority::AboveNormal)
    } else if s == "normal"@ {
        Some(Priority::Normal)
    } else if s == "below-normal"@ {
        Some(Priority::BelowNormal)
    } else if s == "idle"@ {
        Some(Priority::Idle)
    } else {
        None
    }
}

impl Priority {
    /// Render this priority class as its command-line value.
    pub fn to_cli(self) -> (s: String)
        ensures
            s@ == priority_cli(self),
    {
        match self {
            Priority::Realtime => String::from_str("realtime"),
            Priority::High => String::from_str("high"),
            Priority::AboveNormal => String::from_str("above-normal"),
            Priority::Normal => String::from_str("normal"),
            Priority::BelowNormal => String::from_str("below-normal"),
            Priority::Idle => String::from_str("idle"),
        }
    }

    /// Parse a command-line value as a priority class.
    pub fn from_cli(s: &str) -> (r: Option<Priority>)
        ensures
            r == priority_from_cli_spec(s@),
    {
        if str_eq(s, "realtime") {
            Some(Priority::Realtime)
        } else if str_eq(s, "high") {
            Some(Priority::High)
        } else if str_eq(s, "above-normal") {
            Some(Priority::AboveNormal)
        } else if str_eq(s, "normal") {
            Some(Priority::Normal)
        } else if str_eq(s, "below-normal") {
            Some(Priority::BelowNormal)
        } else if str_eq(s, "idle") {
            Some(Priority::Idle)
        } else {
            None
        }
    }
}

impl Default for Priority {
    /// The priority used when none is given.
    fn default() -> (p: Priority)
        ensures
            p == Priority::Normal,
    {
        Priority::Normal
    }
}

/// Parsing a rendered priority class returns the class.
pub proof fn lemma_priority_round_trip(p: Priority)
    ensures
        priority_from_cli_spec(priority_cli(p)) == Some(p),
{
    reveal_strlit("realtime");
    reveal_strlit("high");
    reveal_strlit("above-normal");
    reveal_strlit("normal");
    reveal_strlit("below-normal");
    reveal_strlit("idle");
    assert("realtime"@.len() == 8);
    assert("high"@.len() == 4);
    assert("above-normal"@.len() == 12);
    assert("normal"@.len() == 6);
    assert("below-normal"@.len() == 12);
    assert("idle"@.len() == 4);
    assert("above-normal"@[0] == 'a');
    assert("below-normal"@[0] == 'b');
    assert("high"@[0] == 'h');
    assert("idle"@[0] == 'i');
}

/// When to rotate the wrapper's log file.
#[derive(Clone, Copy, Debug, PartialEq, Eq, Structural)]
pub enum LogRotation {
    /// Rotate every time the file exceeds this many bytes.
    Bytes(u64),
    Daily,
    Hourly,
}

/// The command-line rendering of a rotation threshold.
pub open spec fn log_rotation_cli(r: LogRotation) -> Seq<char> {
    match r {
        LogRotation::Bytes(bytes) => "bytes="@ + dec_of(bytes as nat),
        LogRotation::Daily => "daily"@,
        LogRotation::Hourly => "hourly"@,
    }
}

/// What parsing a rotation threshold from the command line yields.
pub open spec fn log_rotation_from_cli_spec(s: Seq<char>) -> Option<LogRotation> {
    if s == "daily"@ {
        Some(LogRotation::Daily)
    } else if s == "hourly"@ {
        Some(LogRotation::Hourly)
    } else if s.len() >= 6 && s.subrange(0, 6) == "bytes="@ {
        match parse_u64_spec(s.skip(6)) {
            Some(bytes) => Some(LogRotation::Bytes(bytes)),
            None => None,
        }
    } else {
        None
    }
}

impl LogRotation {
    /// Render this rotation threshold as its command-line value.
    pub fn to_cli(self) -> (s: String)
        ensures
            s@ == log_rotation_cli(self),
    {
        match self {
            LogRotation::Bytes(bytes) => {
                let r = String::from_str("bytes=").concat(
                    crate::numbers::u64_to_string(bytes).as_str(),
                );
                proof {
                    assert(r@ =~= log_rotation_cli(self));
                }
                r
            },
            LogRotation::Daily => String::from_str("daily"),
            LogRotation::Hourly => String::from_str("hourly"),
        }
    }

    /// Parse a command-line value as a rotation threshold.
    pub fn from_cli(s: &str) -> (r: Option<LogRotation>)
        ensures
            r == log_rotation_from_cli_spec(s@),
    {
        if str_eq(s, "daily") {
            Some(LogRotation::Daily)
        } else if str_eq(s, "hourly") {
            Some(LogRotation::Hourly)
        } else {
            let n = s.unicode_len();
            if n >= 6 {
                let head = s.substring_char(0, 6);
                if str_eq(head, "bytes=") {
                    let tail = s.substring_char(6, n);
                    proof {
                        assert(tail@ =~= s@.skip(6));
                    }
                    match parse_u64(tail) {
                        Some(bytes) => Some(LogRotation::Bytes(bytes)),
                        None => None,
                    }
                } else {
                    None
                }
            } else {
                None
            }
        }
    }
}

impl Default for LogRotation {
    /// The rotation threshold used when none is given: every 2 MiB.
    fn default() -> (r: LogRotation)
        ensures
            r == LogRotation::Bytes(2097152u64),
    {
        LogRotation::Bytes(2097152)
    }
}

/// Parsing a rendered rotation threshold returns the threshold.
pub proof fn lemma_log_rotation_round_trip(r: LogRotation)
    ensures
        log_rotation_from_cli_spec(log_rotation_cli(r)) == Some(r),
{
    reveal_strlit("daily");
    reveal_strlit("hourly");
    reveal_strlit("bytes=");
    match r {
        LogRotation::Bytes(bytes) => {
            crate::numbers::lemma_dec_of_val(bytes as nat);
            let s = log_rotation_cli(r);
            assert(s.len() >= 7);
            assert(s.subrange(0, 6) =~= "bytes="@);
            assert(s.skip(6) =~= dec_of(bytes as nat));
            crate::numbers::lemma_u64_round_trip(bytes);
        },
        LogRotation::Daily => {},
        LogRotation::Hourly => {},
    }
}

/// What splitting an `--env` value at its first `=` yields.
pub open spec fn parse_env_var_spec(s: Seq<char>) -> Option<(Seq<char>, Seq<char>)> {
    let k = find_char(s, '=');
    if k < s.len() {
        Some((s.subrange(0, k), s.subrange(k + 1, s.len() as int)))
    } else {
        None
    }
}

/// Split an `--env` value of the shape `KEY=value` at its first `=`.
pub fn parse_env_var(value: &str) -> (r: Result<(String, String), CliError>)
    ensures
        match r {
            Ok(pair) => parse_env_var_spec(value@) == Some((pair.0@, pair.1@)),
            Err(e) => parse_env_var_spec(value@) is None && e@ == (CliErrorV::InvalidEnvVar {
                specification: value@,
            }),
        },
{
    let n = value.unicode_len();
    let k = str_find_char(value, '=');
    proof {
        crate::text::lemma_find_char(value@, '=');
    }
    if k < n {
        let key = value.substring_char(0, k);
        let val = value.substring_char(k + 1, n);
        Ok((String::from_str(key), String::from_str(val)))
    } else {
        Err(CliError::InvalidEnvVar { specification: String::from_str(value) })
    }
}

/// The supervision options shared by `add` and `run`.
#[derive(Clone, Debug, PartialEq, Eq)]
pub struct CommonOpts {
    /// Exit codes reported to SCM as success (`0` when absent).
    pub pass: Option<Vec<i32>>,
    /// Always restart the command, whatever its exit.
    pub restart: bool,
    /// Never restart the command.
    pub no_restart: bool,
    /// Restart the command exactly when its exit code is one of these.
    pub restart_if: Vec<i32>,
    /// Restart the command exactly when its exit code is none of these.
    pub restart_if_not: Vec<i32>,
    /// Milliseconds between ctrl-C and a forced kill (3000 when absent).
    pub stop_timeout: Option<u64>,
    /// Milliseconds to wait before a relaunch.
    pub restart_delay: Option<u64>,
    /// Disable all of the wrapper's logging.
    pub no_log: bool,
    /// Disable capture of the command's stdout and stderr.
    pub no_log_cmd: bool,
    /// Directory for the log files.
    pub log_dir: Option<String>,
    /// Base name for the wrapper's own log file.
    pub log_as: Option<String>,
    /// Base name of a separate log file for the command's output.
    pub log_cmd_as: Option<String>,
    /// When to rotate log files (2 MiB when absent).
    pub log_rotate: Option<LogRotation>,
    /// How many rotated log files to keep (2 when absent).
    pub log_retain: Option<usize>,
    /// Append the service start arguments to the command.
    pub pass_start_args: bool,
    /// Additional environment variables for the command.
    pub env: Vec<(String, String)>,
    /// Directories appended to the command's `PATH`.
    pub path: Vec<String>,
    /// Directories prepended to the command's `PATH`.
    pub path_prepend: Vec<String>,
    /// Process priority class for the command.
    pub priority: Option<Priority>,
    /// Terminate the whole descendant tree on a forced kill.
    pub kill_process_tree: bool,
    /// The command to run as a service.
    pub command: Vec<String>,
}

/// The view of `CommonOpts`.
#[verifier::ext_equal]
pub ghost struct CommonOptsV {
    pub pass: Option<Seq<i32>>,
    pub restart: bool,
    pub no_restart: bool,
    pub restart_if: Seq<i32>,
    pub restart_if_not: Seq<i32>,
    pub stop_timeout: Option<u64>,
    pub restart_delay: Option<u64>,
    pub no_log: bool,
    pub no_log_cmd: bool,
    pub log_dir: Option<Seq<char>>,
    pub log_as: Option<Seq<char>>,
    pub log_cmd_as: Option<Seq<char>>,
    pub log_rotate: Option<LogRotation>,
    pub log_retain: Option<usize>,
    pub pass_start_args: bool,
    pub env: Seq<(Seq<char>, Seq<char>)>,
    pub path: Seq<Seq<char>>,
    pub path_prepend: Seq<Seq<char>>,
    pub priority: Option<Priority>,
    pub kill_process_tree: bool,
    pub command: Seq<Seq<char>>,
}

impl View for CommonOpts {
    type V = CommonOptsV;

    open spec fn view(&self) -> CommonOptsV {
        CommonOptsV {
            pass: match self.pass {
                Some(v) => Some(v@),
                None => None,
            },
            restart: self.restart,
            no_restart: self.no_restart,
            restart_if: self.restart_if@,
            restart_if_not: self.restart_if_not@,
            stop_timeout: self.stop_timeout,
            restart_delay: self.restart_delay,
            no_log: self.no_log,
            no_log_cmd: self.no_log_cmd,
            log_dir: self.log_dir.deep_view(),
            log_as: self.log_as.deep_view(),
            log_cmd_as: self.log_cmd_as.deep_view(),
            log_rotate: self.log_rotate,
            log_retain: self.log_retain,
            pass_start_args: self.pass_start_args,
            env: self.env@.map_values(|p: (String, String)| (p.0@, p.1@)),
            path: self.path.deep_view(),
            path_prepend: self.path_prepend.deep_view(),
            priority: self.priority,
            kill_process_tree: self.kill_process_tree,
            command: self.command.deep_view(),
        }
    }
}

/// The view of `CommonOpts` with every option absent and an empty command.
pub open spec fn common_opts_default() -> CommonOptsV {
    CommonOptsV {
        pass: None,
        restart: false,
        no_restart: false,
        restart_if: Seq::empty(),
        restart_if_not: Seq::empty(),
        stop_timeout: None,
        restart_delay: None,
        no_log: false,
        no_log_cmd: false,
        log_dir: None,
        log_as: None,
        log_cmd_as: None,
        log_rotate: None,
        log_retain: None,
        pass_start_args: false,
        env: Seq::empty(),
        path: Seq::empty(),
        path_prepend: Seq::empty(),
        priority: None,
        kill_process_tree: false,
        command: Seq::empty(),
    }
}

impl Default for CommonOpts {
    /// Every option absent and an empty command.
    fn default() -> (opts: CommonOpts)
        ensures
            opts@ == common_opts_default(),
    {
        let opts = CommonOpts {
            pass: None,
            restart: false,
            no_restart: false,
            restart_if: Vec::new(),
            restart_if_not: Vec::new(),
            stop_timeout: None,
            restart_delay: None,
            no_log: false,
            no_log_cmd: false,
            log_dir: None,
            log_as: None,
            log_cmd_as: None,
            log_rotate: None,
            log_retain: None,
            pass_start_args: false,
            env: Vec::new(),
            path: Vec::new(),
            path_prepend: Vec::new(),
            priority: None,
            kill_process_tree: false,
            command: Vec::new(),
        };
        proof {
            assert(opts@.env =~= common_opts_default().env);
            assert(opts@.path =~= common_opts_default().path);
            assert(opts@.path_prepend =~= common_opts_default().path_prepend);
            assert(opts@.command =~= common_opts_default().command);
            assert(opts@.restart_if =~= common_opts_default().restart_if);
            assert(opts@.restart_if_not =~= common_opts_default().restart_if_not);
        }
        opts
    }
}

/// The chosen subcommand with its arguments.
#[derive(Clone, Debug, PartialEq, Eq)]
pub enum Subcommand {
    /// Register a new service with SCM.
    Add {
        common: CommonOpts,
        /// Working directory for the command; made absolute before use.
        cwd: Option<String>,
        /// Services that must be started first.
        dependencies: Vec<String>,
        /// Name of the service to create.
        name: String,
    },
    /// Host a command as a service; launched by SCM.
    Run {
        common: CommonOpts,
        /// Working directory for the command; must already be absolute.
        cwd: Option<String>,
        /// Name of the service, used for logging.
        name: String,
    },
}

/// The view of `Subcommand`.
#[verifier::ext_equal]
pub ghost enum SubcommandV {
    Add {
        common: CommonOptsV,
        cwd: Option<Seq<char>>,
        dependencies: Seq<Seq<char>>,
        name: Seq<char>,
    },
    Run { common: CommonOptsV, cwd: Option<Seq<char>>, name: Seq<char> },
}

impl View for Subcommand {
    type V = SubcommandV;

    open spec fn view(&self) -> SubcommandV {
        match self {
            Subcommand::Add { common, cwd, dependencies, name } => SubcommandV::Add {
                common: common@,
                cwd: cwd.deep_view(),
                dependencies: dependencies.deep_view(),
                name: name@,
            },
            Subcommand::Run { common, cwd, name } => SubcommandV::Run {
                common: common@,
                cwd: cwd.deep_view(),
                name: name@,
            },
        }
    }
}

/// A parsed command line.
#[derive(Clone, Debug, PartialEq, Eq)]
pub struct Cli {
    pub sub: Subcommand,
}

/// The view of `Cli`.
#[verifier::ext_equal]
pub ghost struct CliV {
    pub sub: SubcommandV,
}

impl View for Cli {
    type V = CliV;

    open spec fn view(&self) -> CliV {
        CliV { sub: self.sub@ }
    }
}

/// The state of the option parser: which subcommand it serves, the
/// subcommand-level arguments seen so far, and the options seen so far.
#[verifier::ext_equal]
pub ghost struct ParseAccV {
    pub is_add: bool,
    pub name: Option<Seq<char>>,
    pub cwd: Option<Seq<char>>,
    pub dependencies: Seq<Seq<char>>,
    pub opts: CommonOptsV,
}

/// The parser state before any token is consumed.
pub open spec fn init_acc(is_add: bool) -> ParseAccV {
    ParseAccV {
        is_add,
        name: None,
        cwd: None,
        dependencies: Seq::empty(),
        opts: common_opts_default(),
    }
}

/// One option (with its value, if it takes one) consumed from the front of
/// `toks`; `--` ends the options and takes the rest as the command.
pub open spec fn parse_opts_spec(toks: Seq<Seq<char>>, acc: ParseAccV) -> Result<
    ParseAccV,
    CliErrorV,
>
    decreases toks.len(),
{
    if toks.len() == 0 {
        Ok(acc)
    } else {
        let t = toks[0];
        if t == "--"@ {
            Ok(ParseAccV { opts: CommonOptsV { command: toks.skip(1), ..acc.opts }, ..acc })
        } else if t == "--restart"@ {
            parse_opts_spec(
                toks.skip(1),
                ParseAccV { opts: CommonOptsV { restart: true, ..acc.opts }, ..acc },
            )
        } else if t == "--no-restart"@ {
            parse_opts_spec(
                toks.skip(1),
                ParseAccV { opts: CommonOptsV { no_restart: true, ..acc.opts }, ..acc },
            )
        } else if t == "--no-log"@ {
            parse_opts_spec(
                toks.skip(1),
                ParseAccV { opts: CommonOptsV { no_log: true, ..acc.opts }, ..acc },
            )
        } else if t == "--no-log-cmd"@ {
            parse_opts_spec(
                toks.skip(1),
                ParseAccV { opts: CommonOptsV { no_log_cmd: true, ..acc.opts }, ..acc },
            )
        } else if t == "--pass-start-args"@ {
            parse_opts_spec(
                toks.skip(1),
                ParseAccV { opts: CommonOptsV { pass_start_args: true, ..acc.opts }, ..acc },
            )
        } else if t == "--kill-process-tree"@ {
            parse_opts_spec(
                toks.skip(1),
                ParseAccV { opts: CommonOptsV { kill_process_tree: true, ..acc.opts }, ..acc },
            )
        } else if is_valued_option(t, acc.is_add) {
            if toks.len() < 2 {
                Err(CliErrorV::MissingValue { option: t })
            } else {
                match parse_valued_option(t, toks[1], acc) {
                    Ok(acc2) => parse_opts_spec(toks.skip(2), acc2),
                    Err(e) => Err(e),
                }
            }
        } else {
            // A valued option may also carry its value in one token, as
            // `--option=value`.
            let k = crate::text::find_char(t, '=');
            if t.len() >= 2 && t[0] == '-' && t[1] == '-' && 0 <= k < t.len() && is_valued_option(
                t.subrange(0, k),
                acc.is_add,
            ) {
                match parse_valued_option(t.subrange(0, k), t.subrange(k + 1, t.len() as int), acc) {
                    Ok(acc2) => parse_opts_spec(toks.skip(1), acc2),
                    Err(e) => Err(e),
                }
            } else {
                Err(CliErrorV::UnknownArgument { argument: t })
            }
        }
    }
}

/// Whether `t` is an option that consumes the following token as its value.
pub open spec fn is_valued_option(t: Seq<char>, is_add: bool) -> bool {
    ||| t == "--name"@
    ||| t == "--cwd"@
    ||| t == "--pass"@
    ||| t == "--restart-if"@
    ||| t == "--restart-if-not"@
    ||| t == "--stop-timeout"@
    ||| t == "--restart-delay"@
    ||| t == "--log-dir"@
    ||| t == "--log-as"@
    ||| t == "--log-cmd-as"@
    ||| t == "--log-rotate"@
    ||| t == "--log-retain"@
    ||| t == "--env"@
    ||| t == "--path"@
    ||| t == "--path-prepend"@
    ||| t == "--priority"@
    ||| (is_add && t == "--dependencies"@)
}

/// The effect of one valued option `t` with value `v` on the parser state.
pub open spec fn parse_valued_option(t: Seq<char>, v: Seq<char>, acc: ParseAccV) -> Result<
    ParseAccV,
    CliErrorV,
> {
    if t == "--name"@ {
        Ok(ParseAccV { name: Some(v), ..acc })
    } else if t == "--cwd"@ {
        Ok(ParseAccV { cwd: Some(v), ..acc })
    } else if t == "--pass"@ {
        match parse_csv_codes_spec(v) {
            Some(codes) => Ok(
                ParseAccV {
                    opts: CommonOptsV {
                        pass: Some(
                            match acc.opts.pass {
                                Some(prev) => prev + codes,
                                None => codes,
                            },
                        ),
                        ..acc.opts
                    },
                    ..acc
                },
            ),
            None => Err(CliErrorV::InvalidValue { option: t, value: v }),
        }
    } else if t == "--restart-if"@ {
        match parse_csv_codes_spec(v) {
            Some(codes) => Ok(
                ParseAccV {
                    opts: CommonOptsV { restart_if: acc.opts.restart_if + codes, ..acc.opts },
                    ..acc
                },
            ),
            None => Err(CliErrorV::InvalidValue { option: t, value: v }),
        }
    } else if t == "--restart-if-not"@ {
        match parse_csv_codes_spec(v) {
            Some(codes) => Ok(
                ParseAccV {
                    opts: CommonOptsV {
                        restart_if_not: acc.opts.restart_if_not + codes,
                        ..acc.opts
                    },
                    ..acc
                },
            ),
            None => Err(CliErrorV::InvalidValue { option: t, value: v }),
        }
    } else if t == "--stop-timeout"@ {
        match parse_u64_spec(v) {
            Some(ms) => Ok(
                ParseAccV { opts: CommonOptsV { stop_timeout: Some(ms), ..acc.opts }, ..acc },
            ),
            None => Err(CliErrorV::InvalidValue { option: t, value: v }),
        }
    } else if t == "--restart-delay"@ {
        match parse_u64_spec(v) {
            Some(ms) => Ok(
                ParseAccV { opts: CommonOptsV { restart_delay: Some(ms), ..acc.opts }, ..acc },
            ),
            None => Err(CliErrorV::InvalidValue { option: t, value: v }),
        }
    } else if t == "--log-dir"@ {
        Ok(ParseAccV { opts: CommonOptsV { log_dir: Some(v), ..acc.opts }, ..acc })
    } else if t == "--log-as"@ {
        Ok(ParseAccV { opts: CommonOptsV { log_as: Some(v), ..acc.opts }, ..acc })
    } else if t == "--log-cmd-as"@ {
        Ok(ParseAccV { opts: CommonOptsV { log_cmd_as: Some(v), ..acc.opts }, ..acc })
    } else if t == "--log-rotate"@ {
        match log_rotation_from_cli_spec(v) {
            Some(rot) => Ok(
                ParseAccV { opts: CommonOptsV { log_rotate: Some(rot), ..acc.opts }, ..acc },
            ),
            None => Err(CliErrorV::InvalidValue { option: t, value: v }),
        }
    } else if t == "--log-retain"@ {
        match parse_u64_spec(v) {
            Some(count) => if count <= usize::MAX as u64 {
                Ok(
                    ParseAccV {
                        opts: CommonOptsV { log_retain: Some(count as usize), ..acc.opts },
                        ..acc
                    },
                )
            } else {
                Err(CliErrorV::InvalidValue { option: t, value: v })
            },
            None => Err(CliErrorV::InvalidValue { option: t, value: v }),
        }
    } else if t == "--env"@ {
        match parse_env_var_spec(v) {
            Some(pair) => Ok(
                ParseAccV { opts: CommonOptsV { env: acc.opts.env + seq![pair], ..acc.opts }, ..acc },
            ),
            None => Err(CliErrorV::InvalidEnvVar { specification: v }),
        }
    } else if t == "--path"@ {
        Ok(ParseAccV { opts: CommonOptsV { path: acc.opts.path + seq![v], ..acc.opts }, ..acc })
    } else if t == "--path-prepend"@ {
        Ok(
            ParseAccV {
                opts: CommonOptsV { path_prepend: acc.opts.path_prepend + seq![v], ..acc.opts },
                ..acc
            },
        )
    } else if t == "--priority"@ {
        match priority_from_cli_spec(v) {
            Some(p) => Ok(ParseAccV { opts: CommonOptsV { priority: Some(p), ..acc.opts }, ..acc }),
            None => Err(CliErrorV::InvalidValue { option: t, value: v }),
        }
    } else {
        Ok(ParseAccV { dependencies: acc.dependencies + crate::text::split_char_spec(v, ','), ..acc })
    }
}

/// Whether more than one of the mutually exclusive restart options is
/// active.
pub open spec fn restart_conflict(o: CommonOptsV) -> bool {
    (if o.restart {
        1 as int
    } else {
        0
    }) + (if o.no_restart {
        1 as int
    } else {
        0
    }) + (if o.restart_if.len() > 0 {
        1 as int
    } else {
        0
    }) + (if o.restart_if_not.len() > 0 {
        1 as int
    } else {
        0
    }) > 1
}

/// Validation of the fully parsed state, and assembly of the result: the
/// command must be nonempty, the restart options must not conflict, and
/// `add` must have a name (`run` defaults to `Shawl`).
pub open spec fn finish_cli_spec(acc: ParseAccV) -> Result<CliV, CliErrorV> {
    if acc.opts.command.len() == 0 {
        Err(CliErrorV::MissingRequiredArgument { argument: "command"@ })
    } else if restart_conflict(acc.opts) {
        Err(CliErrorV::ArgumentConflict)
    } else if acc.is_add {
        match acc.name {
            Some(n) => Ok(
                CliV {
                    sub: SubcommandV::Add {
                        common: acc.opts,
                        cwd: acc.cwd,
                        dependencies: acc.dependencies,
                        name: n,
                    },
                },
            ),
            None => Err(CliErrorV::MissingRequiredArgument { argument: "--name"@ }),
        }
    } else {
        Ok(
            CliV {
                sub: SubcommandV::Run {
                    common: acc.opts,
                    cwd: acc.cwd,
                    name: match acc.name {
                        Some(n) => n,
                        None => "Shawl"@,
                    },
                },
            },
        )
    }
}

/// The parser state assembled from the exec parser's locals: the `pass`
/// codes are tracked beside the other options until the end, because the
/// option is `None` until its first occurrence.
pub open spec fn accv(
    o: CommonOptsV,
    pass_seen: bool,
    pass_acc: Seq<i32>,
    name: Option<Seq<char>>,
    cwd: Option<Seq<char>>,
    deps: Seq<Seq<char>>,
    is_add: bool,
) -> ParseAccV {
    ParseAccV {
        is_add,
        name,
        cwd,
        dependencies: deps,
        opts: CommonOptsV {
            pass: if pass_seen {
                Some(pass_acc)
            } else {
                None
            },
            ..o
        },
    }
}

/// What the command line yields once the subcommand is known.
pub open spec fn parse_after_sub(args: Seq<Seq<char>>, is_add: bool) -> Result<CliV, CliErrorV> {
    match parse_opts_spec(args.skip(2), init_acc(is_add)) {
        Ok(acc) => finish_cli_spec(acc),
        Err(e) => Err(e),
    }
}

/// What parsing a full argument vector (program name first) yields.
pub open spec fn parse_cli_spec(args: Seq<Seq<char>>) -> Result<CliV, CliErrorV> {
    if args.len() < 2 {
        Err(CliErrorV::UnknownSubcommand { name: Seq::empty() })
    } else if args[1] == "add"@ {
        parse_after_sub(args, true)
    } else if args[1] == "run"@ {
        parse_after_sub(args, false)
    } else {
        Err(CliErrorV::UnknownSubcommand { name: args[1] })
    }
}

/// Parse a full argument vector, program name first, as the wrapper's
/// command line.
#[verifier::rlimit(100)]
pub fn evaluate_cli(args: &Vec<String>) -> (r: Result<Cli, CliError>)
    ensures
        match r {
            Ok(cli) => parse_cli_spec(args.deep_view()) == Ok::<CliV, CliErrorV>(cli@),
            Err(e) => parse_cli_spec(args.deep_view()) == Err::<CliV, CliErrorV>(e@),
        },
{
    let ghost dv = args.deep_view();
    let n = args.len();
    proof {
        assert(dv.len() == n);
    }
    if n < 2 {
        return Err(CliError::UnknownSubcommand { name: String::new() });
    }
    let is_add: bool;
    if str_eq(args[1].as_str(), "add") {
        is_add = true;
    } else if str_eq(args[1].as_str(), "run") {
        is_add = false;
    } else {
        proof {
            assert(dv[1] == args@[1]@);
        }
        return Err(CliError::UnknownSubcommand { name: args[1].clone() });
    }
    proof {
        assert(dv[1] == args@[1]@);
        assert(parse_cli_spec(dv) == parse_after_sub(dv, is_add));
    }
    let ghost target = parse_opts_spec(dv.skip(2), init_acc(is_add));

    let mut opts = CommonOpts::default();
    let mut pass_seen = false;
    let mut pass_acc: Vec<i32> = Vec::new();
    let mut name: Option<String> = None;
    let mut cwd: Option<String> = None;
    let mut deps: Vec<String> = Vec::new();
    let mut i: usize = 2;
    proof {
        assert(accv(opts@, false, pass_acc@, None, None, deps.deep_view(), is_add) =~= init_acc(
            is_add,
        ));
        assert(name.deep_view() == None::<Seq<char>>);
        assert(cwd.deep_view() == None::<Seq<char>>);
    }
    while i < n
        invariant
            2 <= i <= n,
            n == args@.len(),
            dv == args.deep_view(),
            dv.len() == n,
            opts@.pass is None,
            !pass_seen ==> pass_acc@ == Seq::<i32>::empty(),
            target == parse_opts_spec(dv.skip(2), init_acc(is_add)),
            parse_cli_spec(dv) == parse_after_sub(dv, is_add),
            parse_opts_spec(
                dv.skip(i as int),
                accv(
                    opts@,
                    pass_seen,
                    pass_acc@,
                    name.deep_view(),
                    cwd.deep_view(),
                    deps.deep_view(),
                    is_add,
                ),
            ) == target,
        decreases n - i,
    {
        let ghost rem = dv.skip(i as int);
        let ghost acc0 = accv(
            opts@,
            pass_seen,
            pass_acc@,
            name.deep_view(),
            cwd.deep_view(),
            deps.deep_view(),
            is_add,
        );
        proof {
            assert(rem.len() == n - i);
            assert(rem[0] == dv[i as int]);
            assert(dv[i as int] == args@[i as int]@);
            assert(rem.skip(1) =~= dv.skip(i as int + 1));
            if i + 2 <= n {
                assert(rem.skip(2) =~= dv.skip(i as int + 2));
            }
        }
        let tok = &args[i];
        if str_eq(tok.as_str(), "--") {
            let mut cmd: Vec<String> = Vec::new();
            let mut j = i + 1;
            while j < n
                invariant
                    i + 1 <= j <= n,
                    n == args@.len(),
                    dv == args.deep_view(),
                    dv.len() == n,
                    cmd.deep_view() =~= dv.subrange(i as int + 1, j as int),
                decreases n - j,
            {
                let ghost before = cmd.deep_view();
                cmd.push(args[j].clone());
                proof {
                    assert(cmd.deep_view() =~= before + seq![args@[j as int]@]);
                    assert(dv.subrange(i as int + 1, j as int + 1) =~= dv.subrange(
                        i as int + 1,
                        j as int,
                    ) + seq![dv[j as int]]);
                }
                j = j + 1;
            }
            opts.command = cmd;
            proof {
                assert(opts@.command =~= rem.skip(1));
                assert(parse_opts_spec(rem, acc0) == Ok::<ParseAccV, CliErrorV>(
                    ParseAccV { opts: CommonOptsV { command: rem.skip(1), ..acc0.opts }, ..acc0 },
                ));
                assert(accv(
                    opts@,
                    pass_seen,
                    pass_acc@,
                    name.deep_view(),
                    cwd.deep_view(),
                    deps.deep_view(),
                    is_add,
                ) =~= (ParseAccV {
                    opts: CommonOptsV { command: rem.skip(1), ..acc0.opts },
                    ..acc0
                }));
                assert(dv.skip(n as int) =~= Seq::<Seq<char>>::empty());
            }
            i = n;
        } else if str_eq(tok.as_str(), "--restart") {
            opts.restart = true;
            proof {
                lemma_acc_step(
                    ParseAccV { opts: CommonOptsV { restart: true, ..acc0.opts }, ..acc0 },
                    accv(
                        opts@,
                        pass_seen,
                        pass_acc@,
                        name.deep_view(),
                        cwd.deep_view(),
                        deps.deep_view(),
                        is_add,
                    ),
                );
            }
            i = i + 1;
        } else if str_eq(tok.as_str(), "--no-restart") {
            opts.no_restart = true;
            proof {
                lemma_acc_step(
                    ParseAccV { opts: CommonOptsV { no_restart: true, ..acc0.opts }, ..acc0 },
                    accv(
                        opts@,
                        pass_seen,
                        pass_acc@,
                        name.deep_view(),
                        cwd.deep_view(),
                        deps.deep_view(),
                        is_add,
                    ),
                );
            }
            i = i + 1;
        } else if str_eq(tok.as_str(), "--no-log") {
            opts.no_log = true;
            proof {
                lemma_acc_step(
                    ParseAccV { opts: CommonOptsV { no_log: true, ..acc0.opts }, ..acc0 },
                    accv(
                        opts@,
                        pass_seen,
                        pass_acc@,
                        name.deep_view(),
                        cwd.deep_view(),
                        deps.deep_view(),
                        is_add,
                    ),
                );
            }
            i = i + 1;
        } else if str_eq(tok.as_str(), "--no-log-cmd") {
            opts.no_log_cmd = true;
            proof {
                lemma_acc_step(
                    ParseAccV { opts: CommonOptsV { no_log_cmd: true, ..acc0.opts }, ..acc0 },
                    accv(
                        opts@,
                        pass_seen,
                        pass_acc@,
                        name.deep_view(),
                        cwd.deep_view(),
                        deps.deep_view(),
                        is_add,
                    ),
                );
            }
            i = i + 1;
        } else if str_eq(tok.as_str(), "--pass-start-args") {
            opts.pass_start_args = true;
            proof {
                lemma_acc_step(
                    ParseAccV { opts: CommonOptsV { pass_start_args: true, ..acc0.opts }, ..acc0 },
                    accv(
                        opts@,
                        pass_seen,
                        pass_acc@,
                        name.deep_view(),
                        cwd.deep_view(),
                        deps.deep_view(),
                        is_add,
                    ),
                );
            }
            i = i + 1;
        } else if str_eq(tok.as_str(), "--kill-process-tree") {
            opts.kill_process_tree = true;
            proof {
                lemma_acc_step(
                    ParseAccV {
                        opts: CommonOptsV { kill_process_tree: true, ..acc0.opts },
                        ..acc0
                    },
                    accv(
                        opts@,
                        pass_seen,
                        pass_acc@,
                        name.deep_view(),
                        cwd.deep_view(),
                        deps.deep_view(),
                        is_add,
                    ),
                );
            }
            i = i + 1;
        } else {
            // Valued options: each consumes the following token, or carries
            // its value in one token as `--option=value`.
            let valued = is_valued_option_exec(tok.as_str(), is_add);
            if !valued {
                let tok_len = tok.as_str().unicode_len();
                let k = str_find_char(tok.as_str(), '=');
                if tok_len >= 2 && tok.as_str().get_char(0) == '-' && tok.as_str().get_char(1)
                    == '-' && k < tok_len {
                    let opt = tok.as_str().substring_char(0, k);
                    proof {
                        assert(opt@ =~= rem[0].subrange(0, k as int));
                    }
                    if is_valued_option_exec(opt, is_add) {
                        let opt_string = String::from_str(opt);
                        let val_string = String::from_str(
                            tok.as_str().substring_char(k + 1, tok_len),
                        );
                        proof {
                            assert(val_string@ =~= rem[0].subrange(
                                k as int + 1,
                                rem[0].len() as int,
                            ));
                        }
                        match apply_valued_option(
                            &opt_string,
                            &val_string,
                            &mut opts,
                            &mut pass_seen,
                            &mut pass_acc,
                            &mut name,
                            &mut cwd,
                            &mut deps,
                            is_add,
                        ) {
                            Ok(_) => {
                                proof {
                                    assert(parse_opts_spec(rem, acc0) == parse_opts_spec(
                                        rem.skip(1),
                                        accv(
                                            opts@,
                                            pass_seen,
                                            pass_acc@,
                                            name.deep_view(),
                                            cwd.deep_view(),
                                            deps.deep_view(),
                                            is_add,
                                        ),
                                    ));
                                }
                                i = i + 1;
                                continue;
                            },
                            Err(e) => {
                                proof {
                                    assert(parse_opts_spec(rem, acc0) == Err::<
                                        ParseAccV,
                                        CliErrorV,
                                    >(e@));
                                }
                                return Err(e);
                            },
                        }
                    }
                }
                proof {
                    assert(parse_opts_spec(rem, acc0) == Err::<ParseAccV, CliErrorV>(
                        CliErrorV::UnknownArgument { argument: rem[0] },
                    ));
                }
                return Err(CliError::UnknownArgument { argument: tok.clone() });
            }
            if i + 1 >= n {
                proof {
                    assert(rem.len() < 2);
                    assert(parse_opts_spec(rem, acc0) == Err::<ParseAccV, CliErrorV>(
                        CliErrorV::MissingValue { option: rem[0] },
                    ));
                }
                return Err(CliError::MissingValue { option: tok.clone() });
            }
            proof {
                assert(rem[1] == dv[i as int + 1]);
                assert(dv[i as int + 1] == args@[i as int + 1]@);
            }
            let val = &args[i + 1];
            match apply_valued_option(
                tok,
                val,
                &mut opts,
                &mut pass_seen,
                &mut pass_acc,
                &mut name,
                &mut cwd,
                &mut deps,
                is_add,
            ) {
                Ok(_) => {
                    proof {
                        assert(parse_opts_spec(rem, acc0) == parse_opts_spec(
                            rem.skip(2),
                            accv(
                                opts@,
                                pass_seen,
                                pass_acc@,
                                name.deep_view(),
                                cwd.deep_view(),
                                deps.deep_view(),
                                is_add,
                            ),
                        ));
                    }
                    i = i + 2;
                },
                Err(e) => {
                    proof {
                        assert(parse_opts_spec(rem, acc0) == Err::<ParseAccV, CliErrorV>(e@));
                    }
                    return Err(e);
                },
            }
        }
    }
    proof {
        assert(dv.skip(n as int) =~= Seq::<Seq<char>>::empty());
    }
    let ghost final_acc = accv(
        opts@,
        pass_seen,
        pass_acc@,
        name.deep_view(),
        cwd.deep_view(),
        deps.deep_view(),
        is_add,
    );
    opts.pass = if pass_seen {
        Some(pass_acc)
    } else {
        None
    };
    proof {
        assert(target == Ok::<ParseAccV, CliErrorV>(final_acc));
        assert(final_acc.opts =~= opts@);
        assert(parse_cli_spec(dv) == finish_cli_spec(final_acc));
    }
    if opts.command.len() == 0 {
        return Err(
            CliError::MissingRequiredArgument { argument: String::from_str("command") },
        );
    }
    let mut active: u32 = 0;
    if opts.restart {
        active = active + 1;
    }
    if opts.no_restart {
        active = active + 1;
    }
    if opts.restart_if.len() > 0 {
        active = active + 1;
    }
    if opts.restart_if_not.len() > 0 {
        active = active + 1;
    }
    if active > 1 {
        proof {
            assert(restart_conflict(final_acc.opts));
        }
        return Err(CliError::ArgumentConflict);
    }
    proof {
        assert(!restart_conflict(final_acc.opts));
    }
    if is_add {
        match name {
            Some(service_name) => {
                let cli = Cli {
                    sub: Subcommand::Add { common: opts, cwd, dependencies: deps, name: service_name },
                };
                proof {
                    assert(parse_cli_spec(dv) == Ok::<CliV, CliErrorV>(cli@)) by {
                        assert(finish_cli_spec(final_acc) == Ok::<CliV, CliErrorV>(cli@)) by {
                            assert(cli@ =~~= finish_cli_spec(final_acc)->Ok_0);
                        }
                    }
                }
                Ok(cli)
            },
            None => Err(CliError::MissingRequiredArgument { argument: String::from_str("--name") }),
        }
    } else {
        let service_name = match name {
            Some(service_name) => service_name,
            None => String::from_str("Shawl"),
        };
        let cli = Cli { sub: Subcommand::Run { common: opts, cwd, name: service_name } };
        proof {
            assert(parse_cli_spec(dv) == Ok::<CliV, CliErrorV>(cli@)) by {
                assert(finish_cli_spec(final_acc) == Ok::<CliV, CliErrorV>(cli@)) by {
                    assert(cli@ =~~= finish_cli_spec(final_acc)->Ok_0);
                }
            }
        }
        Ok(cli)
    }
}


/// Whether `t` is an option that consumes a value.
fn is_valued_option_exec(t: &str, is_add: bool) -> (r: bool)
    ensures
        r == is_valued_option(t@, is_add),
{
    str_eq(t, "--name") || str_eq(t, "--cwd") || str_eq(t, "--pass") || str_eq(t, "--restart-if")
        || str_eq(t, "--restart-if-not") || str_eq(t, "--stop-timeout") || str_eq(
        t,
        "--restart-delay",
    ) || str_eq(t, "--log-dir") || str_eq(t, "--log-as") || str_eq(t, "--log-cmd-as") || str_eq(
        t,
        "--log-rotate",
    ) || str_eq(t, "--log-retain") || str_eq(t, "--env") || str_eq(t, "--path") || str_eq(
        t,
        "--path-prepend",
    ) || str_eq(t, "--priority") || (is_add && str_eq(t, "--dependencies"))
}

/// Apply one valued option `tok` with value `val` to the parser state.
#[verifier::rlimit(100)]
fn apply_valued_option(
    tok: &String,
    val: &String,
    opts: &mut CommonOpts,
    pass_seen: &mut bool,
    pass_acc: &mut Vec<i32>,
    name: &mut Option<String>,
    cwd: &mut Option<String>,
    deps: &mut Vec<String>,
    is_add: bool,
) -> (r: Result<(), CliError>)
    requires
        is_valued_option(tok@, is_add),
        old(opts)@.pass is None,
        !*old(pass_seen) ==> old(pass_acc)@ == Seq::<i32>::empty(),
    ensures
        final(opts)@.pass is None,
        !*final(pass_seen) ==> final(pass_acc)@ == Seq::<i32>::empty(),
        match r {
            Ok(_) => parse_valued_option(
                tok@,
                val@,
                accv(
                    old(opts)@,
                    *old(pass_seen),
                    old(pass_acc)@,
                    old(name).deep_view(),
                    old(cwd).deep_view(),
                    old(deps).deep_view(),
                    is_add,
                ),
            ) == Ok::<ParseAccV, CliErrorV>(
                accv(
                    final(opts)@,
                    *final(pass_seen),
                    final(pass_acc)@,
                    final(name).deep_view(),
                    final(cwd).deep_view(),
                    final(deps).deep_view(),
                    is_add,
                ),
            ),
            Err(e) => parse_valued_option(
                tok@,
                val@,
                accv(
                    old(opts)@,
                    *old(pass_seen),
                    old(pass_acc)@,
                    old(name).deep_view(),
                    old(cwd).deep_view(),
                    old(deps).deep_view(),
                    is_add,
                ),
            ) == Err::<ParseAccV, CliErrorV>(e@),
        },
{
    let ghost A0 = accv(
        opts@,
        *pass_seen,
        pass_acc@,
        name.deep_view(),
        cwd.deep_view(),
        deps.deep_view(),
        is_add,
    );
    if str_eq(tok.as_str(), "--name") {
        *name = Some(val.clone());
        proof {
            lemma_acc_step(ParseAccV { name: Some(val@), ..A0 }, accv(
                opts@,
                *pass_seen,
                pass_acc@,
                name.deep_view(),
                cwd.deep_view(),
                deps.deep_view(),
                is_add,
            ));
        }
    } else if str_eq(tok.as_str(), "--cwd") {
        *cwd = Some(val.clone());
        proof {
            lemma_acc_step(ParseAccV { cwd: Some(val@), ..A0 }, accv(
                opts@,
                *pass_seen,
                pass_acc@,
                name.deep_view(),
                cwd.deep_view(),
                deps.deep_view(),
                is_add,
            ));
        }
    } else if str_eq(tok.as_str(), "--pass") {
        match parse_csv_codes(val.as_str()) {
            Some(mut codes) => {
                let ghost before = pass_acc@;
                let ghost codes_view = codes@;
                pass_acc.append(&mut codes);
                *pass_seen = true;
                proof {
                    assert(pass_acc@ =~= before + codes_view);
                    if A0.opts.pass is None {
                        assert(pass_acc@ =~= codes_view);
                    }
                    lemma_acc_step(ParseAccV {
                            opts: CommonOptsV {
                                pass: Some(
                                    match A0.opts.pass {
                                        Some(prev) => prev + codes_view,
                                        None => codes_view,
                                    },
                                ),
                                ..A0.opts
                            },
                            ..A0
                        },
                        accv(
                            opts@,
                            *pass_seen,
                            pass_acc@,
                            name.deep_view(),
                            cwd.deep_view(),
                            deps.deep_view(),
                            is_add,
                        ),
                    );
                }
            },
            None => {
                return Err(
                    CliError::InvalidValue { option: tok.clone(), value: val.clone() },
                );
            },
        }
    } else if str_eq(tok.as_str(), "--restart-if") {
        match parse_csv_codes(val.as_str()) {
            Some(mut codes) => {
                let ghost codes_view = codes@;
                opts.restart_if.append(&mut codes);
                proof {
                    lemma_acc_step(ParseAccV {
                            opts: CommonOptsV {
                                restart_if: A0.opts.restart_if + codes_view,
                                ..A0.opts
                            },
                            ..A0
                        },
                        accv(
                            opts@,
                            *pass_seen,
                            pass_acc@,
                            name.deep_view(),
                            cwd.deep_view(),
                            deps.deep_view(),
                            is_add,
                        ),
                    );
                }
            },
            None => {
                return Err(
                    CliError::InvalidValue { option: tok.clone(), value: val.clone() },
                );
            },
        }
    } else if str_eq(tok.as_str(), "--restart-if-not") {
        match parse_csv_codes(val.as_str()) {
            Some(mut codes) => {
                let ghost codes_view = codes@;
                opts.restart_if_not.append(&mut codes);
                proof {
                    lemma_acc_step(ParseAccV {
                            opts: CommonOptsV {
                                restart_if_not: A0.opts.restart_if_not + codes_view,
                                ..A0.opts
                            },
                            ..A0
                        },
                        accv(
                            opts@,
                            *pass_seen,
                            pass_acc@,
                            name.deep_view(),
                            cwd.deep_view(),
                            deps.deep_view(),
                            is_add,
                        ),
                    );
                }
            },
            None => {
                return Err(
                    CliError::InvalidValue { option: tok.clone(), value: val.clone() },
                );
            },
        }
    } else if str_eq(tok.as_str(), "--stop-timeout") {
        match parse_u64(val.as_str()) {
            Some(ms) => {
                opts.stop_timeout = Some(ms);
                proof {
                    lemma_acc_step(ParseAccV {
                            opts: CommonOptsV { stop_timeout: Some(ms), ..A0.opts },
                            ..A0
                        },
                        accv(
                            opts@,
                            *pass_seen,
                            pass_acc@,
                            name.deep_view(),
                            cwd.deep_view(),
                            deps.deep_view(),
                            is_add,
                        ),
                    );
                }
            },
            None => {
                return Err(
                    CliError::InvalidValue { option: tok.clone(), value: val.clone() },
                );
            },
        }
    } else if str_eq(tok.as_str(), "--restart-delay") {
        match parse_u64(val.as_str()) {
            Some(ms) => {
                opts.restart_delay = Some(ms);
                proof {
                    lemma_acc_step(ParseAccV {
                            opts: CommonOptsV { restart_delay: Some(ms), ..A0.opts },
                            ..A0
                        },
                        accv(
                            opts@,
                            *pass_seen,
                            pass_acc@,
                            name.deep_view(),
                            cwd.deep_view(),
                            deps.deep_view(),
                            is_add,
                        ),
                    );
                }
            },
            None => {
                return Err(
                    CliError::InvalidValue { option: tok.clone(), value: val.clone() },
                );
            },
        }
    } else if str_eq(tok.as_str(), "--log-dir") {
        opts.log_dir = Some(val.clone());
        proof {
            lemma_acc_step(ParseAccV {
                    opts: CommonOptsV { log_dir: Some(val@), ..A0.opts },
                    ..A0
                },
                accv(
                    opts@,
                    *pass_seen,
                    pass_acc@,
                    name.deep_view(),
                    cwd.deep_view(),
                    deps.deep_view(),
                    is_add,
                ),
            );
        }
    } else if str_eq(tok.as_str(), "--log-as") {
        opts.log_as = Some(val.clone());
        proof {
            lemma_acc_step(ParseAccV {
                    opts: CommonOptsV { log_as: Some(val@), ..A0.opts },
                    ..A0
                },
                accv(
                    opts@,
                    *pass_seen,
                    pass_acc@,
                    name.deep_view(),
                    cwd.deep_view(),
                    deps.deep_view(),
                    is_add,
                ),
            );
        }
    } else if str_eq(tok.as_str(), "--log-cmd-as") {
        opts.log_cmd_as = Some(val.clone());
        proof {
            lemma_acc_step(ParseAccV {
                    opts: CommonOptsV { log_cmd_as: Some(val@), ..A0.opts },
                    ..A0
                },
                accv(
                    opts@,
                    *pass_seen,
                    pass_acc@,
                    name.deep_view(),
                    cwd.deep_view(),
                    deps.deep_view(),
                    is_add,
                ),
            );
        }
    } else if str_eq(tok.as_str(), "--log-rotate") {
        match LogRotation::from_cli(val.as_str()) {
            Some(rot) => {
                opts.log_rotate = Some(rot);
                proof {
                    lemma_acc_step(ParseAccV {
                            opts: CommonOptsV { log_rotate: Some(rot), ..A0.opts },
                            ..A0
                        },
                        accv(
                            opts@,
                            *pass_seen,
                            pass_acc@,
                            name.deep_view(),
                            cwd.deep_view(),
                            deps.deep_view(),
                            is_add,
                        ),
                    );
                }
            },
            None => {
                return Err(
                    CliError::InvalidValue { option: tok.clone(), value: val.clone() },
                );
            },
        }
    } else if str_eq(tok.as_str(), "--log-retain") {
        match parse_u64(val.as_str()) {
            Some(count) => {
                if count <= usize::MAX as u64 {
                    opts.log_retain = Some(count as usize);
                    proof {
                        lemma_acc_step(ParseAccV {
                                opts: CommonOptsV {
                                    log_retain: Some(count as usize),
                                    ..A0.opts
                                },
                                ..A0
                            },
                            accv(
                                opts@,
                                *pass_seen,
                                pass_acc@,
                                name.deep_view(),
                                cwd.deep_view(),
                                deps.deep_view(),
                                is_add,
                            ),
                        );
                    }
                } else {
                    return Err(
                        CliError::InvalidValue { option: tok.clone(), value: val.clone() },
                    );
                }
            },
            None => {
                return Err(
                    CliError::InvalidValue { option: tok.clone(), value: val.clone() },
                );
            },
        }
    } else if str_eq(tok.as_str(), "--env") {
        match parse_env_var(val.as_str()) {
            Ok(pair) => {
                let ghost pair_view = (pair.0@, pair.1@);
                opts.env.push(pair);
                proof {
                    assert(opts@.env =~= A0.opts.env + seq![pair_view]);
                    lemma_acc_step(ParseAccV {
                            opts: CommonOptsV {
                                env: A0.opts.env + seq![pair_view],
                                ..A0.opts
                            },
                            ..A0
                        },
                        accv(
                            opts@,
                            *pass_seen,
                            pass_acc@,
                            name.deep_view(),
                            cwd.deep_view(),
                            deps.deep_view(),
                            is_add,
                        ),
                    );
                }
            },
            Err(e) => {
                return Err(e);
            },
        }
    } else if str_eq(tok.as_str(), "--path") {
        opts.path.push(val.clone());
        proof {
            assert(opts@.path =~= A0.opts.path + seq![val@]);
            lemma_acc_step(ParseAccV {
                    opts: CommonOptsV { path: A0.opts.path + seq![val@], ..A0.opts },
                    ..A0
                },
                accv(
                    opts@,
                    *pass_seen,
                    pass_acc@,
                    name.deep_view(),
                    cwd.deep_view(),
                    deps.deep_view(),
                    is_add,
                ),
            );
        }
    } else if str_eq(tok.as_str(), "--path-prepend") {
        opts.path_prepend.push(val.clone());
        proof {
            assert(opts@.path_prepend =~= A0.opts.path_prepend + seq![val@]);
            lemma_acc_step(ParseAccV {
                    opts: CommonOptsV {
                        path_prepend: A0.opts.path_prepend + seq![val@],
                        ..A0.opts
                    },
                    ..A0
                },
                accv(
                    opts@,
                    *pass_seen,
                    pass_acc@,
                    name.deep_view(),
                    cwd.deep_view(),
                    deps.deep_view(),
                    is_add,
                ),
            );
        }
    } else if str_eq(tok.as_str(), "--priority") {
        match Priority::from_cli(val.as_str()) {
            Some(p) => {
                opts.priority = Some(p);
                proof {
                    lemma_acc_step(ParseAccV {
                            opts: CommonOptsV { priority: Some(p), ..A0.opts },
                            ..A0
                        },
                        accv(
                            opts@,
                            *pass_seen,
                            pass_acc@,
                            name.deep_view(),
                            cwd.deep_view(),
                            deps.deep_view(),
                            is_add,
                        ),
                    );
                }
            },
            None => {
                return Err(
                    CliError::InvalidValue { option: tok.clone(), value: val.clone() },
                );
            },
        }
    } else {
        let mut pieces = crate::text::split_char(val.as_str(), ',');
        let ghost pieces_view = pieces.deep_view();
        deps.append(&mut pieces);
        proof {
            assert(deps.deep_view() =~= A0.dependencies + pieces_view);
            lemma_acc_step(ParseAccV { dependencies: A0.dependencies + pieces_view, ..A0 },
                accv(
                    opts@,
                    *pass_seen,
                    pass_acc@,
                    name.deep_view(),
                    cwd.deep_view(),
                    deps.deep_view(),
                    is_add,
                ),
            );
        }
    }
    Ok(())
}

/// The parser state the locals now stand at is exactly the state `b` that
/// one step of `parse_opts_spec` prescribes: field-wise equality of the
/// accumulators gives equality of the states.
proof fn lemma_acc_step(b: ParseAccV, now: ParseAccV)
    requires
        now =~= b,
    ensures
        now == b,
{
}

} // verus!
