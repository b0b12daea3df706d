//! Construction of the `sc create` invocation that registers a service:
//! the `run` arguments mirrored into the registered `binPath`, the quoted
//! command, and the full argument vector handed to `sc`.

use vstd::prelude::*;

use crate::cli::{priority_cli, CommonOpts, CommonOptsV};
use crate::numbers::{codes_to_csv, csv_of_codes, dec_of, u64_to_string};
use crate::quoting::{join_spaces, join_with_spaces, quote, quote_spec};
use crate::text::join_char;

verus! {

broadcast use vstd::string::group_string_axioms;

/// The `--stop-timeout` mirror.
pub open spec fn seg_stop_timeout(o: CommonOptsV) -> Seq<Seq<char>> {
    match o.stop_timeout {
        Some(st) => seq!["--stop-timeout"@, dec_of(st as nat)],
        None => Seq::empty(),
    }
}

/// The `--restart` mirror.
pub open spec fn seg_restart(o: CommonOptsV) -> Seq<Seq<char>> {
    if o.restart {
        seq!["--restart"@]
    } else {
        Seq::empty()
    }
}

/// The `--no-restart` mirror.
pub open spec fn seg_no_restart(o: CommonOptsV) -> Seq<Seq<char>> {
    if o.no_restart {
        seq!["--no-restart"@]
    } else {
        Seq::empty()
    }
}

/// The `--restart-if` mirror.
pub open spec fn seg_restart_if(o: CommonOptsV) -> Seq<Seq<char>> {
    if o.restart_if.len() > 0 {
        seq!["--restart-if"@, csv_of_codes(o.restart_if)]
    } else {
        Seq::empty()
    }
}

/// The `--restart-if-not` mirror.
pub open spec fn seg_restart_if_not(o: CommonOptsV) -> Seq<Seq<char>> {
    if o.restart_if_not.len() > 0 {
        seq!["--restart-if-not"@, csv_of_codes(o.restart_if_not)]
    } else {
        Seq::empty()
    }
}

/// The `--pass` mirror.
pub open spec fn seg_pass(o: CommonOptsV) -> Seq<Seq<char>> {
    match o.pass {
        Some(codes) => seq!["--pass"@, csv_of_codes(codes)],
        None => Seq::empty(),
    }
}

/// The `--cwd` mirror.
pub open spec fn seg_cwd(cwd: Option<Seq<char>>) -> Seq<Seq<char>> {
    match cwd {
        Some(dir) => seq!["--cwd"@, quote_spec(dir)],
        None => Seq::empty(),
    }
}

/// The `--no-log` mirror.
pub open spec fn seg_no_log(o: CommonOptsV) -> Seq<Seq<char>> {
    if o.no_log {
        seq!["--no-log"@]
    } else {
        Seq::empty()
    }
}

/// The `--no-log-cmd` mirror.
pub open spec fn seg_no_log_cmd(o: CommonOptsV) -> Seq<Seq<char>> {
    if o.no_log_cmd {
        seq!["--no-log-cmd"@]
    } else {
        Seq::empty()
    }
}

/// The `--log-dir` mirror.
pub open spec fn seg_log_dir(o: CommonOptsV) -> Seq<Seq<char>> {
    match o.log_dir {
        Some(dir) => seq!["--log-dir"@, quote_spec(dir)],
        None => Seq::empty(),
    }
}

/// The `--pass-start-args` mirror.
pub open spec fn seg_pass_start_args(o: CommonOptsV) -> Seq<Seq<char>> {
    if o.pass_start_args {
        seq!["--pass-start-args"@]
    } else {
        Seq::empty()
    }
}

/// The `--restart-delay` mirror.
pub open spec fn seg_restart_delay(o: CommonOptsV) -> Seq<Seq<char>> {
    match o.restart_delay {
        Some(ms) => seq!["--restart-delay"@, dec_of(ms as nat)],
        None => Seq::empty(),
    }
}

/// The `--kill-process-tree` mirror.
pub open spec fn seg_kill_process_tree(o: CommonOptsV) -> Seq<Seq<char>> {
    if o.kill_process_tree {
        seq!["--kill-process-tree"@]
    } else {
        Seq::empty()
    }
}

/// The `--log-as` mirror.
pub open spec fn seg_log_as(o: CommonOptsV) -> Seq<Seq<char>> {
    match o.log_as {
        Some(base) => seq!["--log-as"@, quote_spec(base)],
        None => Seq::empty(),
    }
}

/// The `--log-cmd-as` mirror.
pub open spec fn seg_log_cmd_as(o: CommonOptsV) -> Seq<Seq<char>> {
    match o.log_cmd_as {
        Some(base) => seq!["--log-cmd-as"@, quote_spec(base)],
        None => Seq::empty(),
    }
}

/// The `--log-rotate` mirror.
pub open spec fn seg_log_rotate(o: CommonOptsV) -> Seq<Seq<char>> {
    match o.log_rotate {
        Some(rotation) => seq!["--log-rotate"@, crate::cli::log_rotation_cli(rotation)],
        None => Seq::empty(),
    }
}

/// The `--log-retain` mirror.
pub open spec fn seg_log_retain(o: CommonOptsV) -> Seq<Seq<char>> {
    match o.log_retain {
        Some(count) => seq!["--log-retain"@, dec_of(count as nat)],
        None => Seq::empty(),
    }
}

/// The `--env` mirrors: one pair of tokens per variable, the value quoted
/// as `KEY=value`.
pub open spec fn env_args(env: Seq<(Seq<char>, Seq<char>)>) -> Seq<Seq<char>>
    decreases env.len(),
{
    if env.len() == 0 {
        Seq::empty()
    } else {
        seq!["--env"@, quote_spec(env[0].0 + seq!['='] + env[0].1)] + env_args(env.drop_first())
    }
}

/// The `--path` mirrors: one pair of tokens per directory.
pub open spec fn path_args(paths: Seq<Seq<char>>) -> Seq<Seq<char>>
    decreases paths.len(),
{
    if paths.len() == 0 {
        Seq::empty()
    } else {
        seq!["--path"@, quote_spec(paths[0])] + path_args(paths.drop_first())
    }
}

/// The `--path-prepend` mirrors: one pair of tokens per directory.
pub open spec fn path_prepend_args(paths: Seq<Seq<char>>) -> Seq<Seq<char>>
    decreases paths.len(),
{
    if paths.len() == 0 {
        Seq::empty()
    } else {
        seq!["--path-prepend"@, quote_spec(paths[0])] + path_prepend_args(paths.drop_first())
    }
}

/// The `--priority` mirror.
pub open spec fn seg_priority(o: CommonOptsV) -> Seq<Seq<char>> {
    match o.priority {
        Some(p) => seq!["--priority"@, priority_cli(p)],
        None => Seq::empty(),
    }
}

/// The restart- and exit-code-policy mirrors, in order.
pub open spec fn policy_args(o: CommonOptsV) -> Seq<Seq<char>> {
    seg_stop_timeout(o) + seg_restart(o) + seg_no_restart(o) + seg_restart_if(o)
        + seg_restart_if_not(o) + seg_pass(o) + seg_restart_delay(o)
}

/// The working-directory and logging mirrors, in order.
pub open spec fn context_args(cwd: Option<Seq<char>>, o: CommonOptsV) -> Seq<Seq<char>> {
    seg_cwd(cwd) + seg_no_log(o) + seg_no_log_cmd(o) + seg_log_dir(o) + seg_log_as(o)
        + seg_log_cmd_as(o) + seg_log_rotate(o) + seg_log_retain(o)
}

/// The start-argument, tree-kill, environment, `PATH` and priority mirrors,
/// in order.
pub open spec fn tail_args(o: CommonOptsV) -> Seq<Seq<char>> {
    seg_pass_start_args(o) + seg_kill_process_tree(o) + env_args(o.env) + path_args(o.path)
        + path_prepend_args(o.path_prepend) + seg_priority(o)
}

/// The `run` arguments registered in the service's `binPath`: every option
/// the service host reads, mirrored from the `add` invocation, with values
/// quoted where they may hold spaces.
pub open spec fn construct_run_args_spec(
    name: Seq<char>,
    cwd: Option<Seq<char>>,
    o: CommonOptsV,
) -> Seq<Seq<char>> {
    seq!["run"@, "--name"@, quote_spec(name)] + policy_args(o) + context_args(cwd, o) + tail_args(o)
}

/// Appending one more variable appends its two tokens.
proof fn lemma_env_args_snoc(env: Seq<(Seq<char>, Seq<char>)>, p: (Seq<char>, Seq<char>))
    ensures
        env_args(env + seq![p]) == env_args(env) + seq![
            "--env"@,
            quote_spec(p.0 + seq!['='] + p.1),
        ],
    decreases env.len(),
{
    let whole = env + seq![p];
    if env.len() == 0 {
        assert(whole.drop_first() =~= Seq::<(Seq<char>, Seq<char>)>::empty());
        assert(whole[0] == p);
        assert(env_args(whole) == seq![
            "--env"@,
            quote_spec(whole[0].0 + seq!['='] + whole[0].1),
        ] + env_args(whole.drop_first()));
        assert(env_args(whole.drop_first()) =~= Seq::<Seq<char>>::empty());
        assert(env_args(env) =~= Seq::<Seq<char>>::empty());
        assert(env_args(whole) =~= seq!["--env"@, quote_spec(p.0 + seq!['='] + p.1)]);
        assert(env_args(whole) =~= env_args(env) + seq![
            "--env"@,
            quote_spec(p.0 + seq!['='] + p.1),
        ]);
    } else {
        lemma_env_args_snoc(env.drop_first(), p);
        assert(whole.drop_first() =~= env.drop_first() + seq![p]);
        assert(whole[0] == env[0]);
        assert(env_args(whole) =~~= env_args(env) + seq![
            "--env"@,
            quote_spec(p.0 + seq!['='] + p.1),
        ]);
    }
}

/// Appending one more directory appends its two tokens.
proof fn lemma_path_args_snoc(paths: Seq<Seq<char>>, p: Seq<char>)
    ensures
        path_args(paths + seq![p]) == path_args(paths) + seq!["--path"@, quote_spec(p)],
    decreases paths.len(),
{
    let whole = paths + seq![p];
    if paths.len() == 0 {
        assert(whole.drop_first() =~= Seq::<Seq<char>>::empty());
        assert(whole[0] == p);
        assert(path_args(whole) == seq!["--path"@, quote_spec(whole[0])] + path_args(
            whole.drop_first(),
        ));
        assert(path_args(whole.drop_first()) =~= Seq::<Seq<char>>::empty());
        assert(path_args(paths) =~= Seq::<Seq<char>>::empty());
        assert(path_args(whole) =~= seq!["--path"@, quote_spec(p)]);
        assert(path_args(whole) =~= path_args(paths) + seq!["--path"@, quote_spec(p)]);
    } else {
        lemma_path_args_snoc(paths.drop_first(), p);
        assert(whole.drop_first() =~= paths.drop_first() + seq![p]);
        assert(whole[0] == paths[0]);
        assert(path_args(whole) =~~= path_args(paths) + seq!["--path"@, quote_spec(p)]);
    }
}

/// Appending one more prepended directory appends its two tokens.
proof fn lemma_path_prepend_args_snoc(paths: Seq<Seq<char>>, p: Seq<char>)
    ensures
        path_prepend_args(paths + seq![p]) == path_prepend_args(paths) + seq![
            "--path-prepend"@,
            quote_spec(p),
        ],
    decreases paths.len(),
{
    let whole = paths + seq![p];
    if paths.len() == 0 {
        assert(whole.drop_first() =~= Seq::<Seq<char>>::empty());
        assert(whole[0] == p);
        assert(path_prepend_args(whole) == seq!["--path-prepend"@, quote_spec(whole[0])]
            + path_prepend_args(whole.drop_first()));
        assert(path_prepend_args(whole.drop_first()) =~= Seq::<Seq<char>>::empty());
        assert(path_prepend_args(paths) =~= Seq::<Seq<char>>::empty());
        assert(path_prepend_args(whole) =~= seq!["--path-prepend"@, quote_spec(p)]);
        assert(path_prepend_args(whole) =~= path_prepend_args(paths) + seq![
            "--path-prepend"@,
            quote_spec(p),
        ]);
    } else {
        lemma_path_prepend_args_snoc(paths.drop_first(), p);
        assert(whole.drop_first() =~= paths.drop_first() + seq![p]);
        assert(whole[0] == paths[0]);
        assert(path_prepend_args(whole) =~~= path_prepend_args(paths) + seq![
            "--path-prepend"@,
            quote_spec(p),
        ]);
    }
}

/// Push the stop-timeout and restart-flag mirrors.
#[verifier::rlimit(100)]
fn push_restart_args(r: &mut Vec<String>, opts: &CommonOpts)
    ensures
        final(r).deep_view() == old(r).deep_view() + seg_stop_timeout(opts@) + seg_restart(opts@)
            + seg_no_restart(opts@) + seg_restart_if(opts@),
{
    let ghost o = opts@;
    let ghost base = r.deep_view();
    match opts.stop_timeout {
        Some(st) => {
            r.push(String::from_str("--stop-timeout"));
            r.push(u64_to_string(st));
        },
        None => {},
    }
    let ghost a1 = base + seg_stop_timeout(o);
    proof {
        assert(r.deep_view() =~= a1);
    }
    if opts.restart {
        r.push(String::from_str("--restart"));
    }
    let ghost a2 = a1 + seg_restart(o);
    proof {
        assert(r.deep_view() =~= a2);
    }
    if opts.no_restart {
        r.push(String::from_str("--no-restart"));
    }
    let ghost a3 = a2 + seg_no_restart(o);
    proof {
        assert(r.deep_view() =~= a3);
    }
    if opts.restart_if.len() > 0 {
        r.push(String::from_str("--restart-if"));
        r.push(codes_to_csv(&opts.restart_if));
    }
    proof {
        assert(r.deep_view() =~= a3 + seg_restart_if(o));
    }
}

/// Push the exit-code and restart-delay mirrors.
#[verifier::rlimit(100)]
fn push_code_args(r: &mut Vec<String>, opts: &CommonOpts)
    requires
        opts@.pass is Some ==> opts@.pass->Some_0.len() > 0,
    ensures
        final(r).deep_view() == old(r).deep_view() + seg_restart_if_not(opts@) + seg_pass(opts@)
            + seg_restart_delay(opts@),
{
    let ghost o = opts@;
    let ghost base = r.deep_view();
    if opts.restart_if_not.len() > 0 {
        r.push(String::from_str("--restart-if-not"));
        r.push(codes_to_csv(&opts.restart_if_not));
    }
    let ghost a1 = base + seg_restart_if_not(o);
    proof {
        assert(r.deep_view() =~= a1);
    }
    match &opts.pass {
        Some(codes) => {
            r.push(String::from_str("--pass"));
            r.push(codes_to_csv(codes));
        },
        None => {},
    }
    let ghost a2 = a1 + seg_pass(o);
    proof {
        assert(r.deep_view() =~= a2);
    }
    match opts.restart_delay {
        Some(ms) => {
            r.push(String::from_str("--restart-delay"));
            r.push(u64_to_string(ms));
        },
        None => {},
    }
    proof {
        assert(r.deep_view() =~= a2 + seg_restart_delay(o));
    }
}

/// Push the restart- and exit-code-policy mirrors.
#[verifier::rlimit(100)]
fn push_policy_args(r: &mut Vec<String>, opts: &CommonOpts)
    requires
        opts@.pass is Some ==> opts@.pass->Some_0.len() > 0,
    ensures
        final(r).deep_view() == old(r).deep_view() + policy_args(opts@),
{
    let ghost o = opts@;
    let ghost base = r.deep_view();
    push_restart_args(r, opts);
    push_code_args(r, opts);
    proof {
        assert(r.deep_view() =~= base + policy_args(o));
    }
}

/// Push the working-directory and log-destination mirrors.
#[verifier::rlimit(100)]
fn push_dir_args(r: &mut Vec<String>, cwd: &Option<String>, opts: &CommonOpts)
    ensures
        final(r).deep_view() == old(r).deep_view() + seg_cwd(cwd.deep_view()) + seg_no_log(opts@)
            + seg_no_log_cmd(opts@) + seg_log_dir(opts@),
{
    let ghost o = opts@;
    let ghost base = r.deep_view();
    match cwd {
        Some(dir) => {
            r.push(String::from_str("--cwd"));
            r.push(quote(dir.as_str()));
        },
        None => {},
    }
    let ghost a1 = base + seg_cwd(cwd.deep_view());
    proof {
        assert(r.deep_view() =~= a1);
    }
    if opts.no_log {
        r.push(String::from_str("--no-log"));
    }
    let ghost a2 = a1 + seg_no_log(o);
    proof {
        assert(r.deep_view() =~= a2);
    }
    if opts.no_log_cmd {
        r.push(String::from_str("--no-log-cmd"));
    }
    let ghost a3 = a2 + seg_no_log_cmd(o);
    proof {
        assert(r.deep_view() =~= a3);
    }
    match &opts.log_dir {
        Some(dir) => {
            r.push(String::from_str("--log-dir"));
            r.push(quote(dir.as_str()));
        },
        None => {},
    }
    proof {
        assert(r.deep_view() =~= a3 + seg_log_dir(o));
    }
}

/// Push the log-file naming and rotation mirrors.
#[verifier::rlimit(100)]
fn push_logfile_args(r: &mut Vec<String>, opts: &CommonOpts)
    ensures
        final(r).deep_view() == old(r).deep_view() + seg_log_as(opts@) + seg_log_cmd_as(opts@)
            + seg_log_rotate(opts@) + seg_log_retain(opts@),
{
    let ghost o = opts@;
    let ghost base = r.deep_view();
    match &opts.log_as {
        Some(name) => {
            r.push(String::from_str("--log-as"));
            r.push(quote(name.as_str()));
        },
        None => {},
    }
    let ghost a1 = base + seg_log_as(o);
    proof {
        assert(r.deep_view() =~= a1);
    }
    match &opts.log_cmd_as {
        Some(name) => {
            r.push(String::from_str("--log-cmd-as"));
            r.push(quote(name.as_str()));
        },
        None => {},
    }
    let ghost a2 = a1 + seg_log_cmd_as(o);
    proof {
        assert(r.deep_view() =~= a2);
    }
    match opts.log_rotate {
        Some(rotation) => {
            r.push(String::from_str("--log-rotate"));
            r.push(rotation.to_cli());
        },
        None => {},
    }
    let ghost a3 = a2 + seg_log_rotate(o);
    proof {
        assert(r.deep_view() =~= a3);
    }
    match opts.log_retain {
        Some(count) => {
            r.push(String::from_str("--log-retain"));
            r.push(u64_to_string(count as u64));
        },
        None => {},
    }
    proof {
        assert(r.deep_view() =~= a3 + seg_log_retain(o));
    }
}

/// Push the working-directory and logging mirrors.
#[verifier::rlimit(100)]
fn push_context_args(r: &mut Vec<String>, cwd: &Option<String>, opts: &CommonOpts)
    ensures
        final(r).deep_view() == old(r).deep_view() + context_args(cwd.deep_view(), opts@),
{
    let ghost o = opts@;
    let ghost base = r.deep_view();
    push_dir_args(r, cwd, opts);
    push_logfile_args(r, opts);
    proof {
        assert(r.deep_view() =~= base + context_args(cwd.deep_view(), o));
    }
}

/// Push the start-argument, tree-kill, environment, `PATH` and priority
/// mirrors.
#[verifier::rlimit(100)]
fn push_tail_args(r: &mut Vec<String>, opts: &CommonOpts)
    ensures
        final(r).deep_view() == old(r).deep_view() + tail_args(opts@),
{
    let ghost o = opts@;
    let ghost base = r.deep_view();
    if opts.pass_start_args {
        r.push(String::from_str("--pass-start-args"));
    }
    let ghost a1 = base + seg_pass_start_args(o);
    proof {
        assert(r.deep_view() =~= a1);
    }
    if opts.kill_process_tree {
        r.push(String::from_str("--kill-process-tree"));
    }
    let ghost a2 = a1 + seg_kill_process_tree(o);
    proof {
        assert(r.deep_view() =~= a2);
    }
    let mut i: usize = 0;
    while i < opts.env.len()
        invariant
            i <= opts.env@.len(),
            o == opts@,
            a2 == base + seg_pass_start_args(o) + seg_kill_process_tree(o),
            r.deep_view() =~= a2 + env_args(o.env.subrange(0, i as int)),
        decreases opts.env@.len() - i,
    {
        let ghost before = r.deep_view();
        r.push(String::from_str("--env"));
        let pair = &opts.env[i];
        let kv = pair.0.clone().concat("=").concat(pair.1.as_str());
        proof {
            reveal_strlit("=");
            assert(kv@ =~= o.env[i as int].0 + seq!['='] + o.env[i as int].1);
        }
        r.push(quote(kv.as_str()));
        proof {
            lemma_env_args_snoc(o.env.subrange(0, i as int), o.env[i as int]);
            assert(o.env.subrange(0, i as int + 1) =~= o.env.subrange(0, i as int) + seq![
                o.env[i as int],
            ]);
            assert(r.deep_view() =~= before + seq!["--env"@, quote_spec(kv@)]);
        }
        i = i + 1;
    }
    let ghost a3 = a2 + env_args(o.env);
    proof {
        assert(o.env.subrange(0, o.env.len() as int) =~= o.env);
        assert(r.deep_view() =~= a3);
    }
    let mut j: usize = 0;
    while j < opts.path.len()
        invariant
            j <= opts.path@.len(),
            o == opts@,
            r.deep_view() =~= a3 + path_args(o.path.subrange(0, j as int)),
        decreases opts.path@.len() - j,
    {
        let ghost before = r.deep_view();
        r.push(String::from_str("--path"));
        r.push(quote(opts.path[j].as_str()));
        proof {
            lemma_path_args_snoc(o.path.subrange(0, j as int), o.path[j as int]);
            assert(o.path.subrange(0, j as int + 1) =~= o.path.subrange(0, j as int) + seq![
                o.path[j as int],
            ]);
            assert(r.deep_view() =~= before + seq!["--path"@, quote_spec(o.path[j as int])]);
        }
        j = j + 1;
    }
    let ghost a4 = a3 + path_args(o.path);
    proof {
        assert(o.path.subrange(0, o.path.len() as int) =~= o.path);
        assert(r.deep_view() =~= a4);
    }
    let mut k: usize = 0;
    while k < opts.path_prepend.len()
        invariant
            k <= opts.path_prepend@.len(),
            o == opts@,
            r.deep_view() =~= a4 + path_prepend_args(o.path_prepend.subrange(0, k as int)),
        decreases opts.path_prepend@.len() - k,
    {
        let ghost before = r.deep_view();
        r.push(String::from_str("--path-prepend"));
        r.push(quote(opts.path_prepend[k].as_str()));
        proof {
            lemma_path_prepend_args_snoc(
                o.path_prepend.subrange(0, k as int),
                o.path_prepend[k as int],
            );
            assert(o.path_prepend.subrange(0, k as int + 1) =~= o.path_prepend.subrange(
                0,
                k as int,
            ) + seq![o.path_prepend[k as int]]);
            assert(r.deep_view() =~= before + seq![
                "--path-prepend"@,
                quote_spec(o.path_prepend[k as int]),
            ]);
        }
        k = k + 1;
    }
    let ghost a5 = a4 + path_prepend_args(o.path_prepend);
    proof {
        assert(o.path_prepend.subrange(0, o.path_prepend.len() as int) =~= o.path_prepend);
        assert(r.deep_view() =~= a5);
    }
    match opts.priority {
        Some(p) => {
            r.push(String::from_str("--priority"));
            r.push(p.to_cli());
        },
        None => {},
    }
    proof {
        assert(r.deep_view() =~= a5 + seg_priority(o));
        assert(r.deep_view() =~= base + tail_args(o));
    }
}

/// Build the `run` arguments to register in the service's `binPath`.
#[verifier::rlimit(100)]
pub fn construct_shawl_run_args(name: &String, cwd: &Option<String>, opts: &CommonOpts) -> (r: Vec<
    String,
>)
    requires
        opts@.pass is Some ==> opts@.pass->Some_0.len() > 0,
    ensures
        r.deep_view() == construct_run_args_spec(name@, cwd.deep_view(), opts@),
        r.deep_view().len() >= 3,
{
    let ghost o = opts@;
    let mut r: Vec<String> = Vec::new();
    r.push(String::from_str("run"));
    r.push(String::from_str("--name"));
    r.push(quote(name.as_str()));
    let ghost head = seq!["run"@, "--name"@, quote_spec(name@)];
    proof {
        assert(r.deep_view() =~= head);
    }
    push_policy_args(&mut r, opts);
    push_context_args(&mut r, cwd, opts);
    push_tail_args(&mut r, opts);
    proof {
        assert(r.deep_view() =~= construct_run_args_spec(name@, cwd.deep_view(), o));
    }
    r
}

/// Quote each part of the command for the registered `binPath`.
pub fn prepare_command(command: &Vec<String>) -> (r: Vec<String>)
    ensures
        r.deep_view() == command.deep_view().map_values(|t: Seq<char>| quote_spec(t)),
{
    let mut r: Vec<String> = Vec::new();
    let mut i: usize = 0;
    while i < command.len()
        invariant
            i <= command@.len(),
            r.deep_view() =~= command.deep_view().subrange(0, i as int).map_values(
                |t: Seq<char>| quote_spec(t),
            ),
        decreases command@.len() - i,
    {
        let ghost before = r.deep_view();
        r.push(quote(command[i].as_str()));
        proof {
            assert(r.deep_view() =~= before + seq![quote_spec(command.deep_view()[i as int])]);
            assert(command.deep_view().subrange(0, i as int + 1).map_values(
                |t: Seq<char>| quote_spec(t),
            ) =~= command.deep_view().subrange(0, i as int).map_values(|t: Seq<char>| quote_spec(t))
                + seq![quote_spec(command.deep_view()[i as int])]);
        }
        i = i + 1;
    }
    proof {
        assert(command.deep_view().subrange(0, command.deep_view().len() as int)
            =~= command.deep_view());
    }
    r
}

/// The full `binPath` string registered with SCM: the wrapper's own path,
/// the mirrored `run` arguments, and the quoted command, space-separated
/// with `--` before the command.
pub open spec fn bin_path_spec(
    shawl_path: Seq<char>,
    name: Seq<char>,
    cwd: Option<Seq<char>>,
    o: CommonOptsV,
) -> Seq<char> {
    quote_spec(shawl_path) + seq![' '] + join_spaces(construct_run_args_spec(name, cwd, o)) + " -- "@
        + join_spaces(o.command.map_values(|t: Seq<char>| quote_spec(t)))
}

/// Build the `binPath` string for the service registration.
pub fn construct_bin_path(
    shawl_path: &String,
    name: &String,
    cwd: &Option<String>,
    opts: &CommonOpts,
) -> (r: String)
    requires
        opts@.command.len() > 0,
        opts@.pass is Some ==> opts@.pass->Some_0.len() > 0,
    ensures
        r@ == bin_path_spec(shawl_path@, name@, cwd.deep_view(), opts@),
{
    let args = construct_shawl_run_args(name, cwd, opts);
    let cmd = prepare_command(&opts.command);
    proof {
        assert(args@.len() >= 1) by {
            assert(args.deep_view().len() >= 3);
        }
        assert(cmd@.len() >= 1) by {
            assert(cmd.deep_view().len() == opts@.command.len());
        }
    }
    let r = quote(shawl_path.as_str()).concat(" ").concat(join_with_spaces(&args).as_str()).concat(
        " -- ",
    ).concat(join_with_spaces(&cmd).as_str());
    proof {
        reveal_strlit(" ");
        assert(r@ =~= bin_path_spec(shawl_path@, name@, cwd.deep_view(), opts@));
    }
    r
}

/// The argument vector for `sc` that registers the service: `create`, the
/// name, the dependency list when there is one, and the `binPath`.
pub open spec fn sc_create_args_spec(
    name: Seq<char>,
    dependencies: Seq<Seq<char>>,
    bin_path: Seq<char>,
) -> Seq<Seq<char>> {
    seq!["create"@, name] + (if dependencies.len() > 0 {
        seq!["depend="@, quote_spec(join_char(dependencies, '/'))]
    } else {
        Seq::<Seq<char>>::empty()
    }) + seq!["binPath="@, bin_path]
}

/// Build the argument vector for the `sc create` invocation.
pub fn construct_sc_create_args(
    name: &String,
    dependencies: &Vec<String>,
    bin_path: &String,
) -> (r: Vec<String>)
    ensures
        r.deep_view() == sc_create_args_spec(name@, dependencies.deep_view(), bin_path@),
{
    let mut r: Vec<String> = Vec::new();
    r.push(String::from_str("create"));
    r.push(name.clone());
    if dependencies.len() > 0 {
        r.push(String::from_str("depend="));
        let joined = crate::text::join_char_strings(dependencies, '/');
        r.push(quote(joined.as_str()));
    }
    r.push(String::from_str("binPath="));
    r.push(bin_path.clone());
    proof {
        assert(r.deep_view() =~= sc_create_args_spec(name@, dependencies.deep_view(), bin_path@));
    }
    r
}

} // verus!
