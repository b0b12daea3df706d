//! The registration round trip: the `binPath` string built for `sc create`
//! tokenizes back into the tokens it was built from, and parsing those
//! tokens as a `run` command line recovers the service name, the working
//! directory, the command, and every option.

use vstd::prelude::*;

use crate::cli::{
    init_acc, parse_cli_spec, parse_opts_spec, restart_conflict, CliV, CommonOptsV, ParseAccV,
    SubcommandV,
};
use crate::control::{
    bin_path_spec, construct_run_args_spec, context_args, env_args, path_args, path_prepend_args,
    policy_args, seg_cwd, seg_kill_process_tree, seg_log_as, seg_log_cmd_as, seg_log_dir,
    seg_log_retain, seg_log_rotate, seg_no_log, seg_no_log_cmd, seg_no_restart, seg_pass,
    seg_pass_start_args, seg_priority, seg_restart, seg_restart_delay, seg_restart_if,
    seg_restart_if_not, seg_stop_timeout, tail_args,
};
use crate::numbers::{
    csv_of_codes, dec_of, is_digit, lemma_csv_plain, lemma_dec_of_plain,
};
use crate::quoting::{
    join_spaces, lemma_tokenize_join, quote_spec, token_ok, tokenize_spec,
};
use crate::text::has_char;

verus! {

broadcast use vstd::string::group_string_axioms;

/// The `--cwd` tokens before quoting.
pub open spec fn cwd_toks(cwd: Option<Seq<char>>) -> Seq<Seq<char>> {
    match cwd {
        Some(dir) => seq!["--cwd"@, dir],
        None => Seq::empty(),
    }
}

/// The `--log-dir` tokens before quoting.
pub open spec fn log_dir_toks(o: CommonOptsV) -> Seq<Seq<char>> {
    match o.log_dir {
        Some(dir) => seq!["--log-dir"@, dir],
        None => Seq::empty(),
    }
}

/// The `--log-as` tokens before quoting.
pub open spec fn log_as_toks(o: CommonOptsV) -> Seq<Seq<char>> {
    match o.log_as {
        Some(base) => seq!["--log-as"@, base],
        None => Seq::empty(),
    }
}

/// The `--log-cmd-as` tokens before quoting.
pub open spec fn log_cmd_as_toks(o: CommonOptsV) -> Seq<Seq<char>> {
    match o.log_cmd_as {
        Some(base) => seq!["--log-cmd-as"@, base],
        None => Seq::empty(),
    }
}

/// The `--env` tokens before quoting.
pub open spec fn env_toks(env: Seq<(Seq<char>, Seq<char>)>) -> Seq<Seq<char>>
    decreases env.len(),
{
    if env.len() == 0 {
        Seq::empty()
    } else {
        seq!["--env"@, env[0].0 + seq!['='] + env[0].1] + env_toks(env.drop_first())
    }
}

/// The `--path` tokens before quoting.
pub open spec fn path_toks(paths: Seq<Seq<char>>) -> Seq<Seq<char>>
    decreases paths.len(),
{
    if paths.len() == 0 {
        Seq::empty()
    } else {
        seq!["--path"@, paths[0]] + path_toks(paths.drop_first())
    }
}

/// The `--path-prepend` tokens before quoting.
pub open spec fn path_prepend_toks(paths: Seq<Seq<char>>) -> Seq<Seq<char>>
    decreases paths.len(),
{
    if paths.len() == 0 {
        Seq::empty()
    } else {
        seq!["--path-prepend"@, paths[0]] + path_prepend_toks(paths.drop_first())
    }
}

/// The working-directory and logging mirrors before quoting.
pub open spec fn context_toks(cwd: Option<Seq<char>>, o: CommonOptsV) -> Seq<Seq<char>> {
    cwd_toks(cwd) + seg_no_log(o) + seg_no_log_cmd(o) + log_dir_toks(o) + log_as_toks(o)
        + log_cmd_as_toks(o) + seg_log_rotate(o) + seg_log_retain(o)
}

/// The start-argument, tree-kill, environment, `PATH` and priority mirrors
/// before quoting.
pub open spec fn tail_toks(o: CommonOptsV) -> Seq<Seq<char>> {
    seg_pass_start_args(o) + seg_kill_process_tree(o) + env_toks(o.env) + path_toks(o.path)
        + path_prepend_toks(o.path_prepend) + seg_priority(o)
}

/// The registered `run` arguments before quoting: what the service host
/// receives as its argument vector, after the subcommand.  The policy
/// mirrors hold no quotable values, so their registered form is their own.
pub open spec fn run_tokens(name: Seq<char>, cwd: Option<Seq<char>>, o: CommonOptsV) -> Seq<
    Seq<char>,
> {
    seq!["run"@, "--name"@, name] + policy_args(o) + context_toks(cwd, o) + tail_toks(o)
}

/// The full argument vector of the registered invocation, before quoting:
/// the wrapper's path, the `run` tokens, `--`, and the command.
pub open spec fn invocation_tokens(
    shawl_path: Seq<char>,
    name: Seq<char>,
    cwd: Option<Seq<char>>,
    o: CommonOptsV,
) -> Seq<Seq<char>> {
    seq![shawl_path] + run_tokens(name, cwd, o) + seq!["--"@] + o.command
}

/// An `add` invocation whose values survive the quote-then-tokenize round
/// trip: the strings that reach the `binPath` are nonempty and free of
/// double quotes, environment keys hold no `=`, the command is nonempty,
/// and the restart options do not conflict.
pub open spec fn mirrorable(name: Seq<char>, cwd: Option<Seq<char>>, o: CommonOptsV) -> bool {
    &&& token_ok(name)
    &&& (cwd is Some ==> token_ok(cwd->Some_0))
    &&& (o.log_dir is Some ==> token_ok(o.log_dir->Some_0))
    &&& (o.log_as is Some ==> token_ok(o.log_as->Some_0))
    &&& (o.log_cmd_as is Some ==> token_ok(o.log_cmd_as->Some_0))
    &&& (forall|i: int|
        0 <= i < o.env.len() ==> !has_char(#[trigger] o.env[i].0, '"') && !has_char(o.env[i].1, '"')
            && !has_char(o.env[i].0, '='))
    &&& (forall|i: int| 0 <= i < o.path.len() ==> token_ok(#[trigger] o.path[i]))
    &&& (forall|i: int| 0 <= i < o.path_prepend.len() ==> token_ok(#[trigger] o.path_prepend[i]))
    &&& (forall|i: int| 0 <= i < o.command.len() ==> token_ok(#[trigger] o.command[i]))
    &&& o.command.len() > 0
    &&& (o.pass is Some ==> o.pass->Some_0.len() > 0)
    &&& !restart_conflict(o)
}

/// The lengths and distinguishing characters of the option words, enough to
/// tell any two of them apart.
pub proof fn lemma_option_literals()
    ensures
        token_ok("--"@) && !has_char("--"@, ' ') && "--"@.len() == 2,
        token_ok("run"@) && !has_char("run"@, ' ') && "run"@.len() == 3 && "run"@[0] == 'r',
        token_ok("add"@) && !has_char("add"@, ' ') && "add"@.len() == 3 && "add"@[0] == 'a',
        token_ok("--restart"@) && !has_char("--restart"@, ' ') && "--restart"@.len() == 9
            && "--restart"@[2] == 'r',
        token_ok("--no-restart"@) && !has_char("--no-restart"@, ' ') && "--no-restart"@.len() == 12
            && "--no-restart"@[2] == 'n' && "--no-restart"@[5] == 'r',
        token_ok("--no-log"@) && !has_char("--no-log"@, ' ') && "--no-log"@.len() == 8
            && "--no-log"@[2] == 'n',
        token_ok("--no-log-cmd"@) && !has_char("--no-log-cmd"@, ' ') && "--no-log-cmd"@.len() == 12
            && "--no-log-cmd"@[2] == 'n' && "--no-log-cmd"@[5] == 'l',
        token_ok("--pass-start-args"@) && !has_char("--pass-start-args"@, ' ')
            && "--pass-start-args"@.len() == 17,
        token_ok("--kill-process-tree"@) && !has_char("--kill-process-tree"@, ' ')
            && "--kill-process-tree"@.len() == 19,
        token_ok("--name"@) && !has_char("--name"@, ' ') && "--name"@.len() == 6 && "--name"@[2]
            == 'n',
        token_ok("--cwd"@) && !has_char("--cwd"@, ' ') && "--cwd"@.len() == 5 && "--cwd"@[2] == 'c',
        token_ok("--pass"@) && !has_char("--pass"@, ' ') && "--pass"@.len() == 6 && "--pass"@[2]
            == 'p' && "--pass"@[4] == 's',
        token_ok("--restart-if"@) && !has_char("--restart-if"@, ' ') && "--restart-if"@.len() == 12
            && "--restart-if"@[2] == 'r',
        token_ok("--restart-if-not"@) && !has_char("--restart-if-not"@, ' ')
            && "--restart-if-not"@.len() == 16,
        token_ok("--stop-timeout"@) && !has_char("--stop-timeout"@, ' ') && "--stop-timeout"@.len()
            == 14 && "--stop-timeout"@[2] == 's',
        token_ok("--restart-delay"@) && !has_char("--restart-delay"@, ' ')
            && "--restart-delay"@.len() == 15,
        token_ok("--log-dir"@) && !has_char("--log-dir"@, ' ') && "--log-dir"@.len() == 9
            && "--log-dir"@[2] == 'l',
        token_ok("--log-as"@) && !has_char("--log-as"@, ' ') && "--log-as"@.len() == 8
            && "--log-as"@[2] == 'l',
        token_ok("--log-cmd-as"@) && !has_char("--log-cmd-as"@, ' ') && "--log-cmd-as"@.len() == 12
            && "--log-cmd-as"@[2] == 'l' && "--log-cmd-as"@[6] == 'c',
        token_ok("--log-rotate"@) && !has_char("--log-rotate"@, ' ') && "--log-rotate"@.len() == 12
            && "--log-rotate"@[2] == 'l' && "--log-rotate"@[6] == 'r' && "--log-rotate"@[7] == 'o',
        token_ok("--log-retain"@) && !has_char("--log-retain"@, ' ') && "--log-retain"@.len() == 12
            && "--log-retain"@[2] == 'l' && "--log-retain"@[6] == 'r' && "--log-retain"@[7] == 'e',
        token_ok("--env"@) && !has_char("--env"@, ' ') && "--env"@.len() == 5 && "--env"@[2] == 'e',
        token_ok("--path"@) && !has_char("--path"@, ' ') && "--path"@.len() == 6 && "--path"@[2]
            == 'p' && "--path"@[4] == 't',
        token_ok("--path-prepend"@) && !has_char("--path-prepend"@, ' ')
            && "--path-prepend"@.len() == 14 && "--path-prepend"@[2] == 'p',
        token_ok("--priority"@) && !has_char("--priority"@, ' ') && "--priority"@.len() == 10,
        token_ok("--dependencies"@) && !has_char("--dependencies"@, ' ')
            && "--dependencies"@.len() == 14 && "--dependencies"@[2] == 'd',
{
    reveal_strlit("--");
    reveal_strlit("run");
    reveal_strlit("add");
    reveal_strlit("--restart");
    reveal_strlit("--no-restart");
    reveal_strlit("--no-log");
    reveal_strlit("--no-log-cmd");
    reveal_strlit("--pass-start-args");
    reveal_strlit("--kill-process-tree");
    reveal_strlit("--name");
    reveal_strlit("--cwd");
    reveal_strlit("--pass");
    reveal_strlit("--restart-if");
    reveal_strlit("--restart-if-not");
    reveal_strlit("--stop-timeout");
    reveal_strlit("--restart-delay");
    reveal_strlit("--log-dir");
    reveal_strlit("--log-as");
    reveal_strlit("--log-cmd-as");
    reveal_strlit("--log-rotate");
    reveal_strlit("--log-retain");
    reveal_strlit("--env");
    reveal_strlit("--path");
    reveal_strlit("--path-prepend");
    reveal_strlit("--priority");
    reveal_strlit("--dependencies");
}

/// Every character of a rendered natural number is a digit, so the
/// rendering is a usable token without spaces.
pub proof fn lemma_dec_of_token(n: nat)
    ensures
        token_ok(dec_of(n)),
        !has_char(dec_of(n), ' '),
{
    lemma_dec_of_plain(n);
    assert(!has_char(dec_of(n), '"')) by {
        if has_char(dec_of(n), '"') {
            assert(is_digit('"'));
        }
    }
    assert(!has_char(dec_of(n), ' ')) by {
        if has_char(dec_of(n), ' ') {
            assert(is_digit(' '));
        }
    }
}

/// A rendered code list is a usable token: nonempty, no quote, no space.
pub proof fn lemma_csv_token(codes: Seq<i32>)
    requires
        codes.len() > 0,
    ensures
        token_ok(csv_of_codes(codes)),
        !has_char(csv_of_codes(codes), ' '),
{
    lemma_csv_plain(codes);
    let s = csv_of_codes(codes);
    assert(!has_char(s, '"')) by {
        if has_char(s, '"') {
            assert(is_digit('"') || '"' == '-' || '"' == ',');
        }
    }
    assert(!has_char(s, ' ')) by {
        if has_char(s, ' ') {
            assert(is_digit(' ') || ' ' == '-' || ' ' == ',');
        }
    }
}

/// A rendered priority class is a usable token: nonempty, no quote, no
/// space.
pub proof fn lemma_priority_cli_token(p: crate::cli::Priority)
    ensures
        token_ok(crate::cli::priority_cli(p)),
        !has_char(crate::cli::priority_cli(p), ' '),
{
    reveal_strlit("realtime");
    reveal_strlit("high");
    reveal_strlit("above-normal");
    reveal_strlit("normal");
    reveal_strlit("below-normal");
    reveal_strlit("idle");
    match p {
        crate::cli::Priority::Realtime => {
            assert(crate::cli::priority_cli(p).len() == 8);
        },
        crate::cli::Priority::High => {
            assert(crate::cli::priority_cli(p).len() == 4);
        },
        crate::cli::Priority::AboveNormal => {
            assert(crate::cli::priority_cli(p).len() == 12);
        },
        crate::cli::Priority::Normal => {
            assert(crate::cli::priority_cli(p).len() == 6);
        },
        crate::cli::Priority::BelowNormal => {
            assert(crate::cli::priority_cli(p).len() == 12);
        },
        crate::cli::Priority::Idle => {
            assert(crate::cli::priority_cli(p).len() == 4);
        },
    }
}

/// A rendered rotation threshold is a usable token: nonempty, no quote, no
/// space.
pub proof fn lemma_log_rotation_cli_token(r: crate::cli::LogRotation)
    ensures
        token_ok(crate::cli::log_rotation_cli(r)),
        !has_char(crate::cli::log_rotation_cli(r), ' '),
{
    reveal_strlit("daily");
    reveal_strlit("hourly");
    reveal_strlit("bytes=");
    match r {
        crate::cli::LogRotation::Bytes(bytes) => {
            lemma_dec_of_token(bytes as nat);
            let s = crate::cli::log_rotation_cli(r);
            assert(s.len() >= 7);
            assert forall|c: char| has_char(s, c) implies has_char("bytes="@, c) || has_char(
                dec_of(bytes as nat),
                c,
            ) by {
                let i = choose|i: int| 0 <= i < s.len() && s[i] == c;
                if i < 6 {
                    assert("bytes="@[i] == c);
                } else {
                    assert(dec_of(bytes as nat)[i - 6] == c);
                }
            }
            assert(!has_char("bytes="@, '"') && !has_char("bytes="@, ' ')) by {
                assert("bytes="@.len() == 6);
            }
        },
        crate::cli::LogRotation::Daily => {
            assert(crate::cli::log_rotation_cli(r).len() == 5);
        },
        crate::cli::LogRotation::Hourly => {
            assert(crate::cli::log_rotation_cli(r).len() == 6);
        },
    }
}

/// Mapping a function over joined sequences maps it over each.
pub proof fn lemma_map_concat(a: Seq<Seq<char>>, b: Seq<Seq<char>>, f: spec_fn(Seq<char>) -> Seq<
    char,
>)
    ensures
        (a + b).map_values(f) == a.map_values(f) + b.map_values(f),
{
    assert((a + b).map_values(f) =~= a.map_values(f) + b.map_values(f));
}

/// Whether every entry of `parts` is a usable token.
pub open spec fn all_tokens_ok(parts: Seq<Seq<char>>) -> bool {
    forall|i: int| 0 <= i < parts.len() ==> token_ok(#[trigger] parts[i])
}

/// Tokens stay usable across joins.
pub proof fn lemma_all_ok_concat(a: Seq<Seq<char>>, b: Seq<Seq<char>>)
    requires
        all_tokens_ok(a),
        all_tokens_ok(b),
    ensures
        all_tokens_ok(a + b),
{
    assert forall|i: int| 0 <= i < (a + b).len() implies token_ok(#[trigger] (a + b)[i]) by {
        if i < a.len() {
            assert((a + b)[i] == a[i]);
        } else {
            assert((a + b)[i] == b[i - a.len()]);
        }
    }
}

/// Sequence concatenation associates.
proof fn lemma_assoc(a: Seq<Seq<char>>, b: Seq<Seq<char>>, c: Seq<Seq<char>>)
    ensures
        (a + b) + c == a + (b + c),
{
    assert((a + b) + c =~= a + (b + c));
}

/// Skipping within the first part of a join skips only there.
proof fn lemma_skip_concat_low(a: Seq<Seq<char>>, b: Seq<Seq<char>>, n: int)
    requires
        0 <= n <= a.len(),
    ensures
        (a + b).skip(n) == a.skip(n) + b,
{
    assert((a + b).skip(n) =~= a.skip(n) + b);
}

/// Skipping past the first part of a join skips into the second.
proof fn lemma_skip_concat_high(a: Seq<Seq<char>>, b: Seq<Seq<char>>, n: int)
    requires
        a.len() <= n <= a.len() + b.len(),
    ensures
        (a + b).skip(n) == b.skip(n - a.len()),
{
    assert((a + b).skip(n) =~= b.skip(n - a.len()));
}

/// Consuming `--name` and its value records the name.
proof fn lemma_parse_name(n: Seq<char>, rest: Seq<Seq<char>>, acc: ParseAccV)
    ensures
        parse_opts_spec(seq!["--name"@, n] + rest, acc) == parse_opts_spec(
            rest,
            ParseAccV { name: Some(n), ..acc },
        ),
{
    lemma_option_literals();
    let toks = seq!["--name"@, n] + rest;
    assert(toks[0] == "--name"@);
    assert(toks[1] == n);
    assert(toks.skip(2) =~= rest);
}

/// Consuming the `--stop-timeout` mirror records the configured timeout.
proof fn lemma_parse_seg_stop_timeout(o: CommonOptsV, rest: Seq<Seq<char>>, acc: ParseAccV)
    requires
        acc.opts.stop_timeout is None,
    ensures
        parse_opts_spec(seg_stop_timeout(o) + rest, acc) == parse_opts_spec(
            rest,
            ParseAccV { opts: CommonOptsV { stop_timeout: o.stop_timeout, ..acc.opts }, ..acc },
        ),
{
    lemma_option_literals();
    match o.stop_timeout {
        Some(st) => {
            let toks = seg_stop_timeout(o) + rest;
            assert(toks[0] == "--stop-timeout"@);
            assert(toks[1] == dec_of(st as nat));
            assert(toks.skip(2) =~= rest);
            crate::numbers::lemma_u64_round_trip(st);
        },
        None => {
            assert(seg_stop_timeout(o) + rest =~= rest);
            assert(ParseAccV {
                opts: CommonOptsV { stop_timeout: o.stop_timeout, ..acc.opts },
                ..acc
            } =~= acc);
        },
    }
}

/// Consuming the `--restart` mirror records the flag.
proof fn lemma_parse_seg_restart(o: CommonOptsV, rest: Seq<Seq<char>>, acc: ParseAccV)
    requires
        !acc.opts.restart,
    ensures
        parse_opts_spec(seg_restart(o) + rest, acc) == parse_opts_spec(
            rest,
            ParseAccV { opts: CommonOptsV { restart: o.restart, ..acc.opts }, ..acc },
        ),
{
    lemma_option_literals();
    if o.restart {
        let toks = seg_restart(o) + rest;
        assert(toks[0] == "--restart"@);
        assert(toks.skip(1) =~= rest);
    } else {
        assert(seg_restart(o) + rest =~= rest);
        assert(ParseAccV { opts: CommonOptsV { restart: o.restart, ..acc.opts }, ..acc } =~= acc);
    }
}

/// Consuming the `--no-restart` mirror records the flag.
proof fn lemma_parse_seg_no_restart(o: CommonOptsV, rest: Seq<Seq<char>>, acc: ParseAccV)
    requires
        !acc.opts.no_restart,
    ensures
        parse_opts_spec(seg_no_restart(o) + rest, acc) == parse_opts_spec(
            rest,
            ParseAccV { opts: CommonOptsV { no_restart: o.no_restart, ..acc.opts }, ..acc },
        ),
{
    lemma_option_literals();
    if o.no_restart {
        let toks = seg_no_restart(o) + rest;
        assert(toks[0] == "--no-restart"@);
        assert(toks.skip(1) =~= rest);
    } else {
        assert(seg_no_restart(o) + rest =~= rest);
        assert(ParseAccV {
            opts: CommonOptsV { no_restart: o.no_restart, ..acc.opts },
            ..acc
        } =~= acc);
    }
}

/// Consuming the `--restart-if` mirror records the code set.
proof fn lemma_parse_seg_restart_if(o: CommonOptsV, rest: Seq<Seq<char>>, acc: ParseAccV)
    requires
        acc.opts.restart_if.len() == 0,
    ensures
        parse_opts_spec(seg_restart_if(o) + rest, acc) == parse_opts_spec(
            rest,
            ParseAccV { opts: CommonOptsV { restart_if: o.restart_if, ..acc.opts }, ..acc },
        ),
{
    lemma_option_literals();
    if o.restart_if.len() > 0 {
        let toks = seg_restart_if(o) + rest;
        assert(toks[0] == "--restart-if"@);
        assert(toks[1] == csv_of_codes(o.restart_if));
        assert(toks.skip(2) =~= rest);
        crate::numbers::lemma_csv_round_trip(o.restart_if);
        assert(acc.opts.restart_if + o.restart_if =~= o.restart_if);
    } else {
        assert(seg_restart_if(o) + rest =~= rest);
        assert(ParseAccV {
            opts: CommonOptsV { restart_if: o.restart_if, ..acc.opts },
            ..acc
        } =~= acc);
    }
}

/// Consuming the `--restart-if-not` mirror records the code set.
proof fn lemma_parse_seg_restart_if_not(o: CommonOptsV, rest: Seq<Seq<char>>, acc: ParseAccV)
    requires
        acc.opts.restart_if_not.len() == 0,
    ensures
        parse_opts_spec(seg_restart_if_not(o) + rest, acc) == parse_opts_spec(
            rest,
            ParseAccV { opts: CommonOptsV { restart_if_not: o.restart_if_not, ..acc.opts }, ..acc },
        ),
{
    lemma_option_literals();
    if o.restart_if_not.len() > 0 {
        let toks = seg_restart_if_not(o) + rest;
        assert(toks[0] == "--restart-if-not"@);
        assert(toks[1] == csv_of_codes(o.restart_if_not));
        assert(toks.skip(2) =~= rest);
        crate::numbers::lemma_csv_round_trip(o.restart_if_not);
        assert(acc.opts.restart_if_not + o.restart_if_not =~= o.restart_if_not);
    } else {
        assert(seg_restart_if_not(o) + rest =~= rest);
        assert(ParseAccV {
            opts: CommonOptsV { restart_if_not: o.restart_if_not, ..acc.opts },
            ..acc
        } =~= acc);
    }
}

/// Consuming the `--pass` mirror records the pass codes.
proof fn lemma_parse_seg_pass(o: CommonOptsV, rest: Seq<Seq<char>>, acc: ParseAccV)
    requires
        acc.opts.pass is None,
        o.pass is Some ==> o.pass->Some_0.len() > 0,
    ensures
        parse_opts_spec(seg_pass(o) + rest, acc) == parse_opts_spec(
            rest,
            ParseAccV { opts: CommonOptsV { pass: o.pass, ..acc.opts }, ..acc },
        ),
{
    lemma_option_literals();
    match o.pass {
        Some(codes) => {
            let toks = seg_pass(o) + rest;
            assert(toks[0] == "--pass"@);
            assert(toks[1] == csv_of_codes(codes));
            assert(toks.skip(2) =~= rest);
            crate::numbers::lemma_csv_round_trip(codes);
        },
        None => {
            assert(seg_pass(o) + rest =~= rest);
            assert(ParseAccV { opts: CommonOptsV { pass: o.pass, ..acc.opts }, ..acc } =~= acc);
        },
    }
}

/// Consuming the `--restart-delay` mirror records the configured delay.
proof fn lemma_parse_seg_restart_delay(o: CommonOptsV, rest: Seq<Seq<char>>, acc: ParseAccV)
    requires
        acc.opts.restart_delay is None,
    ensures
        parse_opts_spec(seg_restart_delay(o) + rest, acc) == parse_opts_spec(
            rest,
            ParseAccV { opts: CommonOptsV { restart_delay: o.restart_delay, ..acc.opts }, ..acc },
        ),
{
    lemma_option_literals();
    match o.restart_delay {
        Some(ms) => {
            let toks = seg_restart_delay(o) + rest;
            assert(toks[0] == "--restart-delay"@);
            assert(toks[1] == dec_of(ms as nat));
            assert(toks.skip(2) =~= rest);
            crate::numbers::lemma_u64_round_trip(ms);
        },
        None => {
            assert(seg_restart_delay(o) + rest =~= rest);
            assert(ParseAccV {
                opts: CommonOptsV { restart_delay: o.restart_delay, ..acc.opts },
                ..acc
            } =~= acc);
        },
    }
}

/// Consuming the `--cwd` mirror records the working directory.
proof fn lemma_parse_cwd(cwd: Option<Seq<char>>, rest: Seq<Seq<char>>, acc: ParseAccV)
    requires
        acc.cwd is None,
    ensures
        parse_opts_spec(cwd_toks(cwd) + rest, acc) == parse_opts_spec(
            rest,
            ParseAccV { cwd: cwd, ..acc },
        ),
{
    lemma_option_literals();
    match cwd {
        Some(dir) => {
            let toks = cwd_toks(cwd) + rest;
            assert(toks[0] == "--cwd"@);
            assert(toks[1] == dir);
            assert(toks.skip(2) =~= rest);
        },
        None => {
            assert(cwd_toks(cwd) + rest =~= rest);
            assert(ParseAccV { cwd: cwd, ..acc } =~= acc);
        },
    }
}

/// Consuming the `--no-log` mirror records the flag.
proof fn lemma_parse_seg_no_log(o: CommonOptsV, rest: Seq<Seq<char>>, acc: ParseAccV)
    requires
        !acc.opts.no_log,
    ensures
        parse_opts_spec(seg_no_log(o) + rest, acc) == parse_opts_spec(
            rest,
            ParseAccV { opts: CommonOptsV { no_log: o.no_log, ..acc.opts }, ..acc },
        ),
{
    lemma_option_literals();
    if o.no_log {
        let toks = seg_no_log(o) + rest;
        assert(toks[0] == "--no-log"@);
        assert(toks.skip(1) =~= rest);
    } else {
        assert(seg_no_log(o) + rest =~= rest);
        assert(ParseAccV { opts: CommonOptsV { no_log: o.no_log, ..acc.opts }, ..acc } =~= acc);
    }
}

/// Consuming the `--no-log-cmd` mirror records the flag.
proof fn lemma_parse_seg_no_log_cmd(o: CommonOptsV, rest: Seq<Seq<char>>, acc: ParseAccV)
    requires
        !acc.opts.no_log_cmd,
    ensures
        parse_opts_spec(seg_no_log_cmd(o) + rest, acc) == parse_opts_spec(
            rest,
            ParseAccV { opts: CommonOptsV { no_log_cmd: o.no_log_cmd, ..acc.opts }, ..acc },
        ),
{
    lemma_option_literals();
    if o.no_log_cmd {
        let toks = seg_no_log_cmd(o) + rest;
        assert(toks[0] == "--no-log-cmd"@);
        assert(toks.skip(1) =~= rest);
    } else {
        assert(seg_no_log_cmd(o) + rest =~= rest);
        assert(ParseAccV {
            opts: CommonOptsV { no_log_cmd: o.no_log_cmd, ..acc.opts },
            ..acc
        } =~= acc);
    }
}

/// Consuming the `--log-dir` mirror records the log directory.
proof fn lemma_parse_log_dir(o: CommonOptsV, rest: Seq<Seq<char>>, acc: ParseAccV)
    requires
        acc.opts.log_dir is None,
    ensures
        parse_opts_spec(log_dir_toks(o) + rest, acc) == parse_opts_spec(
            rest,
            ParseAccV { opts: CommonOptsV { log_dir: o.log_dir, ..acc.opts }, ..acc },
        ),
{
    lemma_option_literals();
    match o.log_dir {
        Some(dir) => {
            let toks = log_dir_toks(o) + rest;
            assert(toks[0] == "--log-dir"@);
            assert(toks[1] == dir);
            assert(toks.skip(2) =~= rest);
        },
        None => {
            assert(log_dir_toks(o) + rest =~= rest);
            assert(ParseAccV { opts: CommonOptsV { log_dir: o.log_dir, ..acc.opts }, ..acc }
                =~= acc);
        },
    }
}

/// Consuming the `--log-as` mirror records the log base name.
proof fn lemma_parse_log_as(o: CommonOptsV, rest: Seq<Seq<char>>, acc: ParseAccV)
    requires
        acc.opts.log_as is None,
    ensures
        parse_opts_spec(log_as_toks(o) + rest, acc) == parse_opts_spec(
            rest,
            ParseAccV { opts: CommonOptsV { log_as: o.log_as, ..acc.opts }, ..acc },
        ),
{
    lemma_option_literals();
    match o.log_as {
        Some(base) => {
            let toks = log_as_toks(o) + rest;
            assert(toks[0] == "--log-as"@);
            assert(toks[1] == base);
            assert(toks.skip(2) =~= rest);
        },
        None => {
            assert(log_as_toks(o) + rest =~= rest);
            assert(ParseAccV { opts: CommonOptsV { log_as: o.log_as, ..acc.opts }, ..acc } =~= acc);
        },
    }
}

/// Consuming the `--log-cmd-as` mirror records the command-log base name.
proof fn lemma_parse_log_cmd_as(o: CommonOptsV, rest: Seq<Seq<char>>, acc: ParseAccV)
    requires
        acc.opts.log_cmd_as is None,
    ensures
        parse_opts_spec(log_cmd_as_toks(o) + rest, acc) == parse_opts_spec(
            rest,
            ParseAccV { opts: CommonOptsV { log_cmd_as: o.log_cmd_as, ..acc.opts }, ..acc },
        ),
{
    lemma_option_literals();
    match o.log_cmd_as {
        Some(base) => {
            let toks = log_cmd_as_toks(o) + rest;
            assert(toks[0] == "--log-cmd-as"@);
            assert(toks[1] == base);
            assert(toks.skip(2) =~= rest);
        },
        None => {
            assert(log_cmd_as_toks(o) + rest =~= rest);
            assert(ParseAccV {
                opts: CommonOptsV { log_cmd_as: o.log_cmd_as, ..acc.opts },
                ..acc
            } =~= acc);
        },
    }
}

/// Consuming the `--log-rotate` mirror records the rotation threshold.
proof fn lemma_parse_seg_log_rotate(o: CommonOptsV, rest: Seq<Seq<char>>, acc: ParseAccV)
    requires
        acc.opts.log_rotate is None,
    ensures
        parse_opts_spec(seg_log_rotate(o) + rest, acc) == parse_opts_spec(
            rest,
            ParseAccV { opts: CommonOptsV { log_rotate: o.log_rotate, ..acc.opts }, ..acc },
        ),
{
    lemma_option_literals();
    match o.log_rotate {
        Some(rotation) => {
            let toks = seg_log_rotate(o) + rest;
            assert(toks[0] == "--log-rotate"@);
            assert(toks[1] == crate::cli::log_rotation_cli(rotation));
            assert(toks.skip(2) =~= rest);
            crate::cli::lemma_log_rotation_round_trip(rotation);
        },
        None => {
            assert(seg_log_rotate(o) + rest =~= rest);
            assert(ParseAccV {
                opts: CommonOptsV { log_rotate: o.log_rotate, ..acc.opts },
                ..acc
            } =~= acc);
        },
    }
}

/// Consuming the `--log-retain` mirror records the retention count.
proof fn lemma_parse_seg_log_retain(o: CommonOptsV, rest: Seq<Seq<char>>, acc: ParseAccV)
    requires
        acc.opts.log_retain is None,
    ensures
        parse_opts_spec(seg_log_retain(o) + rest, acc) == parse_opts_spec(
            rest,
            ParseAccV { opts: CommonOptsV { log_retain: o.log_retain, ..acc.opts }, ..acc },
        ),
{
    lemma_option_literals();
    match o.log_retain {
        Some(count) => {
            let toks = seg_log_retain(o) + rest;
            assert(toks[0] == "--log-retain"@);
            assert(toks[1] == dec_of(count as nat));
            assert(toks.skip(2) =~= rest);
            crate::numbers::lemma_u64_round_trip(count as u64);
            assert((count as u64) as usize == count);
        },
        None => {
            assert(seg_log_retain(o) + rest =~= rest);
            assert(ParseAccV {
                opts: CommonOptsV { log_retain: o.log_retain, ..acc.opts },
                ..acc
            } =~= acc);
        },
    }
}

/// Consuming the `--pass-start-args` mirror records the flag.
proof fn lemma_parse_seg_pass_start_args(o: CommonOptsV, rest: Seq<Seq<char>>, acc: ParseAccV)
    requires
        !acc.opts.pass_start_args,
    ensures
        parse_opts_spec(seg_pass_start_args(o) + rest, acc) == parse_opts_spec(
            rest,
            ParseAccV { opts: CommonOptsV { pass_start_args: o.pass_start_args, ..acc.opts }, ..acc },
        ),
{
    lemma_option_literals();
    if o.pass_start_args {
        let toks = seg_pass_start_args(o) + rest;
        assert(toks[0] == "--pass-start-args"@);
        assert(toks.skip(1) =~= rest);
    } else {
        assert(seg_pass_start_args(o) + rest =~= rest);
        assert(ParseAccV {
            opts: CommonOptsV { pass_start_args: o.pass_start_args, ..acc.opts },
            ..acc
        } =~= acc);
    }
}

/// Consuming the `--kill-process-tree` mirror records the flag.
proof fn lemma_parse_seg_kill_process_tree(o: CommonOptsV, rest: Seq<Seq<char>>, acc: ParseAccV)
    requires
        !acc.opts.kill_process_tree,
    ensures
        parse_opts_spec(seg_kill_process_tree(o) + rest, acc) == parse_opts_spec(
            rest,
            ParseAccV {
                opts: CommonOptsV { kill_process_tree: o.kill_process_tree, ..acc.opts },
                ..acc
            },
        ),
{
    lemma_option_literals();
    if o.kill_process_tree {
        let toks = seg_kill_process_tree(o) + rest;
        assert(toks[0] == "--kill-process-tree"@);
        assert(toks.skip(1) =~= rest);
    } else {
        assert(seg_kill_process_tree(o) + rest =~= rest);
        assert(ParseAccV {
            opts: CommonOptsV { kill_process_tree: o.kill_process_tree, ..acc.opts },
            ..acc
        } =~= acc);
    }
}

/// Consuming the `--env` mirrors appends the variables in order.
proof fn lemma_parse_env_list(env: Seq<(Seq<char>, Seq<char>)>, rest: Seq<Seq<char>>, acc: ParseAccV)
    requires
        forall|i: int|
            0 <= i < env.len() ==> !has_char(#[trigger] env[i].0, '"') && !has_char(env[i].1, '"')
                && !has_char(env[i].0, '='),
    ensures
        parse_opts_spec(env_toks(env) + rest, acc) == parse_opts_spec(
            rest,
            ParseAccV { opts: CommonOptsV { env: acc.opts.env + env, ..acc.opts }, ..acc },
        ),
    decreases env.len(),
{
    lemma_option_literals();
    if env.len() == 0 {
        assert(env_toks(env) + rest =~= rest);
        assert(acc.opts.env + env =~= acc.opts.env);
        assert(ParseAccV { opts: CommonOptsV { env: acc.opts.env + env, ..acc.opts }, ..acc }
            =~= acc);
    } else {
        let pair = env[0];
        let kv = pair.0 + seq!['='] + pair.1;
        let toks = env_toks(env) + rest;
        assert(toks[0] == "--env"@) by {
            assert(env_toks(env)[0] == "--env"@);
        }
        assert(toks[1] == kv) by {
            assert(env_toks(env)[1] == kv);
        }
        assert(toks.skip(2) =~= env_toks(env.drop_first()) + rest);
        crate::text::lemma_find_char_concat(pair.0, pair.1, '=');
        assert(crate::cli::parse_env_var_spec(kv) == Some((pair.0, pair.1))) by {
            assert(kv.subrange(0, pair.0.len() as int) =~= pair.0);
            assert(kv.subrange(pair.0.len() as int + 1, kv.len() as int) =~= pair.1);
        }
        let acc2 = ParseAccV {
            opts: CommonOptsV { env: acc.opts.env + seq![pair], ..acc.opts },
            ..acc
        };
        assert(parse_opts_spec(toks, acc) == parse_opts_spec(toks.skip(2), acc2));
        lemma_parse_env_list(env.drop_first(), rest, acc2);
        assert(acc2.opts.env + env.drop_first() =~= acc.opts.env + env);
        assert(ParseAccV {
            opts: CommonOptsV { env: acc2.opts.env + env.drop_first(), ..acc2.opts },
            ..acc2
        } =~= ParseAccV { opts: CommonOptsV { env: acc.opts.env + env, ..acc.opts }, ..acc });
    }
}

/// Consuming the `--path` mirrors appends the directories in order.
proof fn lemma_parse_path_list(paths: Seq<Seq<char>>, rest: Seq<Seq<char>>, acc: ParseAccV)
    ensures
        parse_opts_spec(path_toks(paths) + rest, acc) == parse_opts_spec(
            rest,
            ParseAccV { opts: CommonOptsV { path: acc.opts.path + paths, ..acc.opts }, ..acc },
        ),
    decreases paths.len(),
{
    lemma_option_literals();
    if paths.len() == 0 {
        assert(path_toks(paths) + rest =~= rest);
        assert(acc.opts.path + paths =~= acc.opts.path);
        assert(ParseAccV { opts: CommonOptsV { path: acc.opts.path + paths, ..acc.opts }, ..acc }
            =~= acc);
    } else {
        let toks = path_toks(paths) + rest;
        assert(toks[0] == "--path"@) by {
            assert(path_toks(paths)[0] == "--path"@);
        }
        assert(toks[1] == paths[0]) by {
            assert(path_toks(paths)[1] == paths[0]);
        }
        assert(toks.skip(2) =~= path_toks(paths.drop_first()) + rest);
        let acc2 = ParseAccV {
            opts: CommonOptsV { path: acc.opts.path + seq![paths[0]], ..acc.opts },
            ..acc
        };
        assert(parse_opts_spec(toks, acc) == parse_opts_spec(toks.skip(2), acc2));
        lemma_parse_path_list(paths.drop_first(), rest, acc2);
        assert(acc2.opts.path + paths.drop_first() =~= acc.opts.path + paths);
        assert(ParseAccV {
            opts: CommonOptsV { path: acc2.opts.path + paths.drop_first(), ..acc2.opts },
            ..acc2
        } =~= ParseAccV { opts: CommonOptsV { path: acc.opts.path + paths, ..acc.opts }, ..acc });
    }
}

/// Consuming the `--path-prepend` mirrors appends the directories in order.
proof fn lemma_parse_path_prepend_list(
    paths: Seq<Seq<char>>,
    rest: Seq<Seq<char>>,
    acc: ParseAccV,
)
    ensures
        parse_opts_spec(path_prepend_toks(paths) + rest, acc) == parse_opts_spec(
            rest,
            ParseAccV {
                opts: CommonOptsV { path_prepend: acc.opts.path_prepend + paths, ..acc.opts },
                ..acc
            },
        ),
    decreases paths.len(),
{
    lemma_option_literals();
    if paths.len() == 0 {
        assert(path_prepend_toks(paths) + rest =~= rest);
        assert(acc.opts.path_prepend + paths =~= acc.opts.path_prepend);
        assert(ParseAccV {
            opts: CommonOptsV { path_prepend: acc.opts.path_prepend + paths, ..acc.opts },
            ..acc
        } =~= acc);
    } else {
        let toks = path_prepend_toks(paths) + rest;
        assert(toks[0] == "--path-prepend"@) by {
            assert(path_prepend_toks(paths)[0] == "--path-prepend"@);
        }
        assert(toks[1] == paths[0]) by {
            assert(path_prepend_toks(paths)[1] == paths[0]);
        }
        assert(toks.skip(2) =~= path_prepend_toks(paths.drop_first()) + rest);
        let acc2 = ParseAccV {
            opts: CommonOptsV {
                path_prepend: acc.opts.path_prepend + seq![paths[0]],
                ..acc.opts
            },
            ..acc
        };
        assert(parse_opts_spec(toks, acc) == parse_opts_spec(toks.skip(2), acc2));
        lemma_parse_path_prepend_list(paths.drop_first(), rest, acc2);
        assert(acc2.opts.path_prepend + paths.drop_first() =~= acc.opts.path_prepend + paths);
        assert(ParseAccV {
            opts: CommonOptsV {
                path_prepend: acc2.opts.path_prepend + paths.drop_first(),
                ..acc2.opts
            },
            ..acc2
        } =~= ParseAccV {
            opts: CommonOptsV { path_prepend: acc.opts.path_prepend + paths, ..acc.opts },
            ..acc
        });
    }
}

/// Consuming the `--priority` mirror records the priority class.
proof fn lemma_parse_seg_priority(o: CommonOptsV, rest: Seq<Seq<char>>, acc: ParseAccV)
    requires
        acc.opts.priority is None,
    ensures
        parse_opts_spec(seg_priority(o) + rest, acc) == parse_opts_spec(
            rest,
            ParseAccV { opts: CommonOptsV { priority: o.priority, ..acc.opts }, ..acc },
        ),
{
    lemma_option_literals();
    match o.priority {
        Some(p) => {
            let toks = seg_priority(o) + rest;
            assert(toks[0] == "--priority"@);
            assert(toks[1] == crate::cli::priority_cli(p));
            assert(toks.skip(2) =~= rest);
            crate::cli::lemma_priority_round_trip(p);
        },
        None => {
            assert(seg_priority(o) + rest =~= rest);
            assert(ParseAccV { opts: CommonOptsV { priority: o.priority, ..acc.opts }, ..acc }
                =~= acc);
        },
    }
}

/// Consuming `--` takes everything after it as the command.
proof fn lemma_parse_dashdash(cmd: Seq<Seq<char>>, acc: ParseAccV)
    ensures
        parse_opts_spec(seq!["--"@] + cmd, acc) == Ok::<ParseAccV, crate::cli::CliErrorV>(
            ParseAccV { opts: CommonOptsV { command: cmd, ..acc.opts }, ..acc },
        ),
{
    lemma_option_literals();
    let toks = seq!["--"@] + cmd;
    assert(toks[0] == "--"@);
    assert(toks.skip(1) =~= cmd);
}

/// Consuming the policy mirrors records the timeout, restart and pass
/// options.
#[verifier::rlimit(100)]
proof fn lemma_parse_policy(o: CommonOptsV, rest: Seq<Seq<char>>, acc: ParseAccV)
    requires
        acc.opts.stop_timeout is None,
        !acc.opts.restart,
        !acc.opts.no_restart,
        acc.opts.restart_if.len() == 0,
        acc.opts.restart_if_not.len() == 0,
        acc.opts.pass is None,
        acc.opts.restart_delay is None,
        o.pass is Some ==> o.pass->Some_0.len() > 0,
    ensures
        parse_opts_spec(policy_args(o) + rest, acc) == parse_opts_spec(
            rest,
            ParseAccV {
                opts: CommonOptsV {
                    stop_timeout: o.stop_timeout,
                    restart: o.restart,
                    no_restart: o.no_restart,
                    restart_if: o.restart_if,
                    restart_if_not: o.restart_if_not,
                    pass: o.pass,
                    restart_delay: o.restart_delay,
                    ..acc.opts
                },
                ..acc
            },
        ),
{
    let r7 = seg_restart_delay(o) + rest;
    let r6 = seg_pass(o) + r7;
    let r5 = seg_restart_if_not(o) + r6;
    let r4 = seg_restart_if(o) + r5;
    let r3 = seg_no_restart(o) + r4;
    let r2 = seg_restart(o) + r3;
    let m1 = seg_stop_timeout(o);
    let m2 = m1 + seg_restart(o);
    let m3 = m2 + seg_no_restart(o);
    let m4 = m3 + seg_restart_if(o);
    let m5 = m4 + seg_restart_if_not(o);
    let m6 = m5 + seg_pass(o);
    lemma_assoc(m6, seg_restart_delay(o), rest);
    lemma_assoc(m5, seg_pass(o), r7);
    lemma_assoc(m4, seg_restart_if_not(o), r6);
    lemma_assoc(m3, seg_restart_if(o), r5);
    lemma_assoc(m2, seg_no_restart(o), r4);
    lemma_assoc(m1, seg_restart(o), r3);
    assert(policy_args(o) + rest == seg_stop_timeout(o) + r2);
    lemma_parse_seg_stop_timeout(o, r2, acc);
    let acc2 = ParseAccV { opts: CommonOptsV { stop_timeout: o.stop_timeout, ..acc.opts }, ..acc };
    lemma_parse_seg_restart(o, r3, acc2);
    let acc3 = ParseAccV { opts: CommonOptsV { restart: o.restart, ..acc2.opts }, ..acc2 };
    lemma_parse_seg_no_restart(o, r4, acc3);
    let acc4 = ParseAccV { opts: CommonOptsV { no_restart: o.no_restart, ..acc3.opts }, ..acc3 };
    lemma_parse_seg_restart_if(o, r5, acc4);
    let acc5 = ParseAccV { opts: CommonOptsV { restart_if: o.restart_if, ..acc4.opts }, ..acc4 };
    lemma_parse_seg_restart_if_not(o, r6, acc5);
    let acc6 = ParseAccV {
        opts: CommonOptsV { restart_if_not: o.restart_if_not, ..acc5.opts },
        ..acc5
    };
    lemma_parse_seg_pass(o, r7, acc6);
    let acc7 = ParseAccV { opts: CommonOptsV { pass: o.pass, ..acc6.opts }, ..acc6 };
    lemma_parse_seg_restart_delay(o, rest, acc7);
    let acc8 = ParseAccV { opts: CommonOptsV { restart_delay: o.restart_delay, ..acc7.opts }, ..acc7 };
    assert(acc8 =~= ParseAccV {
        opts: CommonOptsV {
            stop_timeout: o.stop_timeout,
            restart: o.restart,
            no_restart: o.no_restart,
            restart_if: o.restart_if,
            restart_if_not: o.restart_if_not,
            pass: o.pass,
            restart_delay: o.restart_delay,
            ..acc.opts
        },
        ..acc
    });
}

/// Consuming the context mirrors records the working directory and logging
/// options.
#[verifier::rlimit(100)]
proof fn lemma_parse_context(
    cwd: Option<Seq<char>>,
    o: CommonOptsV,
    rest: Seq<Seq<char>>,
    acc: ParseAccV,
)
    requires
        acc.cwd is None,
        !acc.opts.no_log,
        !acc.opts.no_log_cmd,
        acc.opts.log_dir is None,
        acc.opts.log_as is None,
        acc.opts.log_cmd_as is None,
        acc.opts.log_rotate is None,
        acc.opts.log_retain is None,
    ensures
        parse_opts_spec(context_toks(cwd, o) + rest, acc) == parse_opts_spec(
            rest,
            ParseAccV {
                cwd: cwd,
                opts: CommonOptsV {
                    no_log: o.no_log,
                    no_log_cmd: o.no_log_cmd,
                    log_dir: o.log_dir,
                    log_as: o.log_as,
                    log_cmd_as: o.log_cmd_as,
                    log_rotate: o.log_rotate,
                    log_retain: o.log_retain,
                    ..acc.opts
                },
                ..acc
            },
        ),
{
    let r8 = seg_log_retain(o) + rest;
    let r7 = seg_log_rotate(o) + r8;
    let r6 = log_cmd_as_toks(o) + r7;
    let r5 = log_as_toks(o) + r6;
    let r4 = log_dir_toks(o) + r5;
    let r3 = seg_no_log_cmd(o) + r4;
    let r2 = seg_no_log(o) + r3;
    let m1 = cwd_toks(cwd);
    let m2 = m1 + seg_no_log(o);
    let m3 = m2 + seg_no_log_cmd(o);
    let m4 = m3 + log_dir_toks(o);
    let m5 = m4 + log_as_toks(o);
    let m6 = m5 + log_cmd_as_toks(o);
    let m7 = m6 + seg_log_rotate(o);
    lemma_assoc(m7, seg_log_retain(o), rest);
    lemma_assoc(m6, seg_log_rotate(o), r8);
    lemma_assoc(m5, log_cmd_as_toks(o), r7);
    lemma_assoc(m4, log_as_toks(o), r6);
    lemma_assoc(m3, log_dir_toks(o), r5);
    lemma_assoc(m2, seg_no_log_cmd(o), r4);
    lemma_assoc(m1, seg_no_log(o), r3);
    assert(context_toks(cwd, o) + rest == cwd_toks(cwd) + r2);
    lemma_parse_cwd(cwd, r2, acc);
    let acc2 = ParseAccV { cwd: cwd, ..acc };
    lemma_parse_seg_no_log(o, r3, acc2);
    let acc3 = ParseAccV { opts: CommonOptsV { no_log: o.no_log, ..acc2.opts }, ..acc2 };
    lemma_parse_seg_no_log_cmd(o, r4, acc3);
    let acc4 = ParseAccV { opts: CommonOptsV { no_log_cmd: o.no_log_cmd, ..acc3.opts }, ..acc3 };
    lemma_parse_log_dir(o, r5, acc4);
    let acc5 = ParseAccV { opts: CommonOptsV { log_dir: o.log_dir, ..acc4.opts }, ..acc4 };
    lemma_parse_log_as(o, r6, acc5);
    let acc6 = ParseAccV { opts: CommonOptsV { log_as: o.log_as, ..acc5.opts }, ..acc5 };
    lemma_parse_log_cmd_as(o, r7, acc6);
    let acc7 = ParseAccV { opts: CommonOptsV { log_cmd_as: o.log_cmd_as, ..acc6.opts }, ..acc6 };
    lemma_parse_seg_log_rotate(o, r8, acc7);
    let acc8 = ParseAccV { opts: CommonOptsV { log_rotate: o.log_rotate, ..acc7.opts }, ..acc7 };
    lemma_parse_seg_log_retain(o, rest, acc8);
    let acc9 = ParseAccV { opts: CommonOptsV { log_retain: o.log_retain, ..acc8.opts }, ..acc8 };
    assert(acc9 =~= ParseAccV {
        cwd: cwd,
        opts: CommonOptsV {
            no_log: o.no_log,
            no_log_cmd: o.no_log_cmd,
            log_dir: o.log_dir,
            log_as: o.log_as,
            log_cmd_as: o.log_cmd_as,
            log_rotate: o.log_rotate,
            log_retain: o.log_retain,
            ..acc.opts
        },
        ..acc
    });
}

/// Consuming the tail mirrors, then `--` and the command, records the rest
/// of the options.
#[verifier::rlimit(100)]
proof fn lemma_parse_tail(o: CommonOptsV, cmd: Seq<Seq<char>>, acc: ParseAccV)
    requires
        !acc.opts.pass_start_args,
        !acc.opts.kill_process_tree,
        acc.opts.env.len() == 0,
        acc.opts.path.len() == 0,
        acc.opts.path_prepend.len() == 0,
        acc.opts.priority is None,
        forall|i: int|
            0 <= i < o.env.len() ==> !has_char(#[trigger] o.env[i].0, '"') && !has_char(o.env[i].1, '"')
                && !has_char(o.env[i].0, '='),
    ensures
        parse_opts_spec(tail_toks(o) + (seq!["--"@] + cmd), acc) == Ok::<
            ParseAccV,
            crate::cli::CliErrorV,
        >(
            ParseAccV {
                opts: CommonOptsV {
                    pass_start_args: o.pass_start_args,
                    kill_process_tree: o.kill_process_tree,
                    env: o.env,
                    path: o.path,
                    path_prepend: o.path_prepend,
                    priority: o.priority,
                    command: cmd,
                    ..acc.opts
                },
                ..acc
            },
        ),
{
    let r7 = seq!["--"@] + cmd;
    let r6 = seg_priority(o) + r7;
    let r5 = path_prepend_toks(o.path_prepend) + r6;
    let r4 = path_toks(o.path) + r5;
    let r3 = env_toks(o.env) + r4;
    let r2 = seg_kill_process_tree(o) + r3;
    let m1 = seg_pass_start_args(o);
    let m2 = m1 + seg_kill_process_tree(o);
    let m3 = m2 + env_toks(o.env);
    let m4 = m3 + path_toks(o.path);
    let m5 = m4 + path_prepend_toks(o.path_prepend);
    lemma_assoc(m5, seg_priority(o), r7);
    lemma_assoc(m4, path_prepend_toks(o.path_prepend), r6);
    lemma_assoc(m3, path_toks(o.path), r5);
    lemma_assoc(m2, env_toks(o.env), r4);
    lemma_assoc(m1, seg_kill_process_tree(o), r3);
    assert(tail_toks(o) + (seq!["--"@] + cmd) == seg_pass_start_args(o) + r2);
    lemma_parse_seg_pass_start_args(o, r2, acc);
    let acc2 = ParseAccV {
        opts: CommonOptsV { pass_start_args: o.pass_start_args, ..acc.opts },
        ..acc
    };
    lemma_parse_seg_kill_process_tree(o, r3, acc2);
    let acc3 = ParseAccV {
        opts: CommonOptsV { kill_process_tree: o.kill_process_tree, ..acc2.opts },
        ..acc2
    };
    lemma_parse_env_list(o.env, r4, acc3);
    let acc4 = ParseAccV { opts: CommonOptsV { env: acc3.opts.env + o.env, ..acc3.opts }, ..acc3 };
    lemma_parse_path_list(o.path, r5, acc4);
    let acc5 = ParseAccV { opts: CommonOptsV { path: acc4.opts.path + o.path, ..acc4.opts }, ..acc4 };
    lemma_parse_path_prepend_list(o.path_prepend, r6, acc5);
    let acc6 = ParseAccV {
        opts: CommonOptsV { path_prepend: acc5.opts.path_prepend + o.path_prepend, ..acc5.opts },
        ..acc5
    };
    lemma_parse_seg_priority(o, r7, acc6);
    let acc7 = ParseAccV { opts: CommonOptsV { priority: o.priority, ..acc6.opts }, ..acc6 };
    lemma_parse_dashdash(cmd, acc7);
    let acc8 = ParseAccV { opts: CommonOptsV { command: cmd, ..acc7.opts }, ..acc7 };
    assert(acc4.opts.env =~= o.env);
    assert(acc5.opts.path =~= o.path);
    assert(acc6.opts.path_prepend =~= o.path_prepend);
    assert(acc8 =~= ParseAccV {
        opts: CommonOptsV {
            pass_start_args: o.pass_start_args,
            kill_process_tree: o.kill_process_tree,
            env: o.env,
            path: o.path,
            path_prepend: o.path_prepend,
            priority: o.priority,
            command: cmd,
            ..acc.opts
        },
        ..acc
    });
}

/// The parser state an `add` invocation is recovered into: the `run`
/// subcommand with the same name, working directory, and options.
pub open spec fn mirrored_acc(name: Seq<char>, cwd: Option<Seq<char>>, o: CommonOptsV) -> ParseAccV {
    ParseAccV { is_add: false, name: Some(name), cwd, dependencies: Seq::empty(), opts: o }
}

/// Parsing the registered `run` tokens recovers every option.
#[verifier::rlimit(100)]
#[verifier::spinoff_prover]
proof fn lemma_parse_run_tokens(name: Seq<char>, cwd: Option<Seq<char>>, o: CommonOptsV)
    requires
        mirrorable(name, cwd, o),
    ensures
        parse_opts_spec(
            run_tokens(name, cwd, o).skip(1) + seq!["--"@] + o.command,
            init_acc(false),
        ) == Ok::<ParseAccV, crate::cli::CliErrorV>(mirrored_acc(name, cwd, o)),
{
    let head = seq!["run"@, "--name"@, name];
    let rt = run_tokens(name, cwd, o);
    let dc = seq!["--"@] + o.command;
    let tail_rest = tail_toks(o) + dc;
    let context_rest = context_toks(cwd, o) + tail_rest;
    let policy_rest = policy_args(o) + context_rest;
    // Regroup the joined mirrors for consumption from the front.
    lemma_skip_concat_low(head + policy_args(o) + context_toks(cwd, o), tail_toks(o), 1);
    lemma_skip_concat_low(head + policy_args(o), context_toks(cwd, o), 1);
    lemma_skip_concat_low(head, policy_args(o), 1);
    assert(rt.skip(1) == head.skip(1) + policy_args(o) + context_toks(cwd, o) + tail_toks(o));
    lemma_assoc(head.skip(1) + policy_args(o) + context_toks(cwd, o), tail_toks(o), dc);
    lemma_assoc(head.skip(1) + policy_args(o), context_toks(cwd, o), tail_rest);
    lemma_assoc(head.skip(1), policy_args(o), context_rest);
    assert(head.skip(1) =~= seq!["--name"@, name]);
    assert(rt.skip(1) + seq!["--"@] + o.command == seq!["--name"@, name] + policy_rest);

    let acc0 = init_acc(false);
    lemma_parse_name(name, policy_rest, acc0);
    let acc1 = ParseAccV { name: Some(name), ..acc0 };
    lemma_parse_policy(o, context_rest, acc1);
    let acc2 = ParseAccV {
        opts: CommonOptsV {
            stop_timeout: o.stop_timeout,
            restart: o.restart,
            no_restart: o.no_restart,
            restart_if: o.restart_if,
            restart_if_not: o.restart_if_not,
            pass: o.pass,
            restart_delay: o.restart_delay,
            ..acc1.opts
        },
        ..acc1
    };
    lemma_parse_context(cwd, o, tail_rest, acc2);
    let acc3 = ParseAccV {
        cwd: cwd,
        opts: CommonOptsV {
            no_log: o.no_log,
            no_log_cmd: o.no_log_cmd,
            log_dir: o.log_dir,
            log_as: o.log_as,
            log_cmd_as: o.log_cmd_as,
            log_rotate: o.log_rotate,
            log_retain: o.log_retain,
            ..acc2.opts
        },
        ..acc2
    };
    assert(forall|i: int|
        0 <= i < o.env.len() ==> !has_char(#[trigger] o.env[i].0, '"') && !has_char(o.env[i].1, '"')
            && !has_char(o.env[i].0, '='));
    lemma_parse_tail(o, o.command, acc3);
    let acc4 = ParseAccV {
        opts: CommonOptsV {
            pass_start_args: o.pass_start_args,
            kill_process_tree: o.kill_process_tree,
            env: o.env,
            path: o.path,
            path_prepend: o.path_prepend,
            priority: o.priority,
            command: o.command,
            ..acc3.opts
        },
        ..acc3
    };
    assert(acc4 =~= mirrored_acc(name, cwd, o)) by {
        assert(acc4.opts =~= o);
    }
}

/// Quoting the environment mirrors gives their registered form.
proof fn lemma_env_toks_quoted(env: Seq<(Seq<char>, Seq<char>)>)
    ensures
        env_toks(env).map_values(|t: Seq<char>| quote_spec(t)) == env_args(env),
    decreases env.len(),
{
    lemma_option_literals();
    if env.len() == 0 {
        assert(env_toks(env).map_values(|t: Seq<char>| quote_spec(t)) =~= env_args(env));
    } else {
        lemma_env_toks_quoted(env.drop_first());
        let kv = env[0].0 + seq!['='] + env[0].1;
        lemma_map_concat(
            seq!["--env"@, kv],
            env_toks(env.drop_first()),
            |t: Seq<char>| quote_spec(t),
        );
        assert(seq!["--env"@, kv].map_values(|t: Seq<char>| quote_spec(t)) =~= seq![
            "--env"@,
            quote_spec(kv),
        ]);
        assert(env_toks(env).map_values(|t: Seq<char>| quote_spec(t)) =~= env_args(env));
    }
}

/// Quoting the `PATH` mirrors gives their registered form.
proof fn lemma_path_toks_quoted(paths: Seq<Seq<char>>)
    ensures
        path_toks(paths).map_values(|t: Seq<char>| quote_spec(t)) == path_args(paths),
    decreases paths.len(),
{
    lemma_option_literals();
    if paths.len() == 0 {
        assert(path_toks(paths).map_values(|t: Seq<char>| quote_spec(t)) =~= path_args(paths));
    } else {
        lemma_path_toks_quoted(paths.drop_first());
        lemma_map_concat(
            seq!["--path"@, paths[0]],
            path_toks(paths.drop_first()),
            |t: Seq<char>| quote_spec(t),
        );
        assert(seq!["--path"@, paths[0]].map_values(|t: Seq<char>| quote_spec(t)) =~= seq![
            "--path"@,
            quote_spec(paths[0]),
        ]);
        assert(path_toks(paths).map_values(|t: Seq<char>| quote_spec(t)) =~= path_args(paths));
    }
}

/// Quoting the prepended-`PATH` mirrors gives their registered form.
proof fn lemma_path_prepend_toks_quoted(paths: Seq<Seq<char>>)
    ensures
        path_prepend_toks(paths).map_values(|t: Seq<char>| quote_spec(t)) == path_prepend_args(
            paths,
        ),
    decreases paths.len(),
{
    lemma_option_literals();
    if paths.len() == 0 {
        assert(path_prepend_toks(paths).map_values(|t: Seq<char>| quote_spec(t))
            =~= path_prepend_args(paths));
    } else {
        lemma_path_prepend_toks_quoted(paths.drop_first());
        lemma_map_concat(
            seq!["--path-prepend"@, paths[0]],
            path_prepend_toks(paths.drop_first()),
            |t: Seq<char>| quote_spec(t),
        );
        assert(seq!["--path-prepend"@, paths[0]].map_values(|t: Seq<char>| quote_spec(t)) =~= seq![
            "--path-prepend"@,
            quote_spec(paths[0]),
        ]);
        assert(path_prepend_toks(paths).map_values(|t: Seq<char>| quote_spec(t))
            =~= path_prepend_args(paths));
    }
}

/// Quoting the policy mirrors changes nothing: none of their tokens holds a
/// space.
#[verifier::rlimit(100)]
proof fn lemma_policy_quoted(o: CommonOptsV)
    requires
        o.pass is Some ==> o.pass->Some_0.len() > 0,
    ensures
        policy_args(o).map_values(|t: Seq<char>| quote_spec(t)) == policy_args(o),
{
    lemma_option_literals();
    let f = |t: Seq<char>| quote_spec(t);
    match o.stop_timeout {
        Some(st) => {
            lemma_dec_of_token(st as nat);
        },
        None => {},
    }
    match o.pass {
        Some(codes) => {
            lemma_csv_token(codes);
        },
        None => {},
    }
    if o.restart_if.len() > 0 {
        lemma_csv_token(o.restart_if);
    }
    if o.restart_if_not.len() > 0 {
        lemma_csv_token(o.restart_if_not);
    }
    match o.restart_delay {
        Some(ms) => {
            lemma_dec_of_token(ms as nat);
        },
        None => {},
    }
    assert(seg_stop_timeout(o).map_values(f) =~= seg_stop_timeout(o));
    assert(seg_restart(o).map_values(f) =~= seg_restart(o));
    assert(seg_no_restart(o).map_values(f) =~= seg_no_restart(o));
    assert(seg_restart_if(o).map_values(f) =~= seg_restart_if(o));
    assert(seg_restart_if_not(o).map_values(f) =~= seg_restart_if_not(o));
    assert(seg_pass(o).map_values(f) =~= seg_pass(o));
    assert(seg_restart_delay(o).map_values(f) =~= seg_restart_delay(o));
    let a1 = seg_stop_timeout(o);
    let a2 = a1 + seg_restart(o);
    let a3 = a2 + seg_no_restart(o);
    let a4 = a3 + seg_restart_if(o);
    let a5 = a4 + seg_restart_if_not(o);
    let a6 = a5 + seg_pass(o);
    lemma_map_concat(a1, seg_restart(o), f);
    lemma_map_concat(a2, seg_no_restart(o), f);
    lemma_map_concat(a3, seg_restart_if(o), f);
    lemma_map_concat(a4, seg_restart_if_not(o), f);
    lemma_map_concat(a5, seg_pass(o), f);
    lemma_map_concat(a6, seg_restart_delay(o), f);
}

/// Quoting the context mirrors gives their registered form.
#[verifier::rlimit(100)]
proof fn lemma_context_quoted(cwd: Option<Seq<char>>, o: CommonOptsV)
    ensures
        context_toks(cwd, o).map_values(|t: Seq<char>| quote_spec(t)) == context_args(cwd, o),
{
    lemma_option_literals();
    let f = |t: Seq<char>| quote_spec(t);
    match o.log_rotate {
        Some(rotation) => {
            lemma_log_rotation_cli_token(rotation);
        },
        None => {},
    }
    match o.log_retain {
        Some(count) => {
            lemma_dec_of_token(count as nat);
        },
        None => {},
    }
    assert(cwd_toks(cwd).map_values(f) =~= seg_cwd(cwd));
    assert(seg_no_log(o).map_values(f) =~= seg_no_log(o));
    assert(seg_no_log_cmd(o).map_values(f) =~= seg_no_log_cmd(o));
    assert(log_dir_toks(o).map_values(f) =~= seg_log_dir(o));
    assert(log_as_toks(o).map_values(f) =~= seg_log_as(o));
    assert(log_cmd_as_toks(o).map_values(f) =~= seg_log_cmd_as(o));
    assert(seg_log_rotate(o).map_values(f) =~= seg_log_rotate(o));
    assert(seg_log_retain(o).map_values(f) =~= seg_log_retain(o));
    let a1 = cwd_toks(cwd);
    let a2 = a1 + seg_no_log(o);
    let a3 = a2 + seg_no_log_cmd(o);
    let a4 = a3 + log_dir_toks(o);
    let a5 = a4 + log_as_toks(o);
    let a6 = a5 + log_cmd_as_toks(o);
    let a7 = a6 + seg_log_rotate(o);
    lemma_map_concat(a1, seg_no_log(o), f);
    lemma_map_concat(a2, seg_no_log_cmd(o), f);
    lemma_map_concat(a3, log_dir_toks(o), f);
    lemma_map_concat(a4, log_as_toks(o), f);
    lemma_map_concat(a5, log_cmd_as_toks(o), f);
    lemma_map_concat(a6, seg_log_rotate(o), f);
    lemma_map_concat(a7, seg_log_retain(o), f);
}

/// Quoting the tail mirrors gives their registered form.
#[verifier::rlimit(100)]
proof fn lemma_tail_quoted(o: CommonOptsV)
    ensures
        tail_toks(o).map_values(|t: Seq<char>| quote_spec(t)) == tail_args(o),
{
    lemma_option_literals();
    let f = |t: Seq<char>| quote_spec(t);
    match o.priority {
        Some(p) => {
            lemma_priority_cli_token(p);
        },
        None => {},
    }
    lemma_env_toks_quoted(o.env);
    lemma_path_toks_quoted(o.path);
    lemma_path_prepend_toks_quoted(o.path_prepend);
    assert(seg_pass_start_args(o).map_values(f) =~= seg_pass_start_args(o));
    assert(seg_kill_process_tree(o).map_values(f) =~= seg_kill_process_tree(o));
    assert(seg_priority(o).map_values(f) =~= seg_priority(o));
    let a1 = seg_pass_start_args(o);
    let a2 = a1 + seg_kill_process_tree(o);
    let a3 = a2 + env_toks(o.env);
    let a4 = a3 + path_toks(o.path);
    let a5 = a4 + path_prepend_toks(o.path_prepend);
    lemma_map_concat(a1, seg_kill_process_tree(o), f);
    lemma_map_concat(a2, env_toks(o.env), f);
    lemma_map_concat(a3, path_toks(o.path), f);
    lemma_map_concat(a4, path_prepend_toks(o.path_prepend), f);
    lemma_map_concat(a5, seg_priority(o), f);
}

/// Quoting the host's tokens gives exactly the registered arguments.
#[verifier::rlimit(100)]
proof fn lemma_construct_quoted(name: Seq<char>, cwd: Option<Seq<char>>, o: CommonOptsV)
    requires
        mirrorable(name, cwd, o),
    ensures
        construct_run_args_spec(name, cwd, o) == run_tokens(name, cwd, o).map_values(
            |t: Seq<char>| quote_spec(t),
        ),
{
    lemma_option_literals();
    let f = |t: Seq<char>| quote_spec(t);
    lemma_policy_quoted(o);
    lemma_context_quoted(cwd, o);
    lemma_tail_quoted(o);
    assert(seq!["run"@, "--name"@, name].map_values(f) =~= seq!["run"@, "--name"@, quote_spec(
        name,
    )]);
    let a1 = seq!["run"@, "--name"@, name];
    let a2 = a1 + policy_args(o);
    let a3 = a2 + context_toks(cwd, o);
    lemma_map_concat(a1, policy_args(o), f);
    lemma_map_concat(a2, context_toks(cwd, o), f);
    lemma_map_concat(a3, tail_toks(o), f);
    assert(construct_run_args_spec(name, cwd, o) =~= run_tokens(name, cwd, o).map_values(f));
}

/// Every policy mirror is a usable token.
#[verifier::rlimit(100)]
proof fn lemma_policy_ok(o: CommonOptsV)
    requires
        o.pass is Some ==> o.pass->Some_0.len() > 0,
    ensures
        all_tokens_ok(policy_args(o)),
{
    lemma_option_literals();
    match o.stop_timeout {
        Some(st) => {
            lemma_dec_of_token(st as nat);
        },
        None => {},
    }
    match o.pass {
        Some(codes) => {
            lemma_csv_token(codes);
        },
        None => {},
    }
    if o.restart_if.len() > 0 {
        lemma_csv_token(o.restart_if);
    }
    if o.restart_if_not.len() > 0 {
        lemma_csv_token(o.restart_if_not);
    }
    match o.restart_delay {
        Some(ms) => {
            lemma_dec_of_token(ms as nat);
        },
        None => {},
    }
    assert(all_tokens_ok(seg_stop_timeout(o)));
    assert(all_tokens_ok(seg_restart(o)));
    assert(all_tokens_ok(seg_no_restart(o)));
    assert(all_tokens_ok(seg_restart_if(o)));
    assert(all_tokens_ok(seg_restart_if_not(o)));
    assert(all_tokens_ok(seg_pass(o)));
    assert(all_tokens_ok(seg_restart_delay(o)));
    let a1 = seg_stop_timeout(o);
    let a2 = a1 + seg_restart(o);
    let a3 = a2 + seg_no_restart(o);
    let a4 = a3 + seg_restart_if(o);
    let a5 = a4 + seg_restart_if_not(o);
    let a6 = a5 + seg_pass(o);
    lemma_all_ok_concat(a1, seg_restart(o));
    lemma_all_ok_concat(a2, seg_no_restart(o));
    lemma_all_ok_concat(a3, seg_restart_if(o));
    lemma_all_ok_concat(a4, seg_restart_if_not(o));
    lemma_all_ok_concat(a5, seg_pass(o));
    lemma_all_ok_concat(a6, seg_restart_delay(o));
}

/// Every context mirror is a usable token.
#[verifier::rlimit(100)]
proof fn lemma_context_toks_ok(cwd: Option<Seq<char>>, o: CommonOptsV)
    requires
        cwd is Some ==> token_ok(cwd->Some_0),
        o.log_dir is Some ==> token_ok(o.log_dir->Some_0),
        o.log_as is Some ==> token_ok(o.log_as->Some_0),
        o.log_cmd_as is Some ==> token_ok(o.log_cmd_as->Some_0),
    ensures
        all_tokens_ok(context_toks(cwd, o)),
{
    lemma_option_literals();
    match o.log_rotate {
        Some(rotation) => {
            lemma_log_rotation_cli_token(rotation);
        },
        None => {},
    }
    match o.log_retain {
        Some(count) => {
            lemma_dec_of_token(count as nat);
        },
        None => {},
    }
    assert(all_tokens_ok(cwd_toks(cwd)));
    assert(all_tokens_ok(seg_no_log(o)));
    assert(all_tokens_ok(seg_no_log_cmd(o)));
    assert(all_tokens_ok(log_dir_toks(o)));
    assert(all_tokens_ok(log_as_toks(o)));
    assert(all_tokens_ok(log_cmd_as_toks(o)));
    assert(all_tokens_ok(seg_log_rotate(o)));
    assert(all_tokens_ok(seg_log_retain(o)));
    let a1 = cwd_toks(cwd);
    let a2 = a1 + seg_no_log(o);
    let a3 = a2 + seg_no_log_cmd(o);
    let a4 = a3 + log_dir_toks(o);
    let a5 = a4 + log_as_toks(o);
    let a6 = a5 + log_cmd_as_toks(o);
    let a7 = a6 + seg_log_rotate(o);
    lemma_all_ok_concat(a1, seg_no_log(o));
    lemma_all_ok_concat(a2, seg_no_log_cmd(o));
    lemma_all_ok_concat(a3, log_dir_toks(o));
    lemma_all_ok_concat(a4, log_as_toks(o));
    lemma_all_ok_concat(a5, log_cmd_as_toks(o));
    lemma_all_ok_concat(a6, seg_log_rotate(o));
    lemma_all_ok_concat(a7, seg_log_retain(o));
}

/// The environment mirrors are usable tokens.
proof fn lemma_env_toks_ok(env: Seq<(Seq<char>, Seq<char>)>)
    requires
        forall|i: int|
            0 <= i < env.len() ==> !has_char(#[trigger] env[i].0, '"') && !has_char(env[i].1, '"')
                && !has_char(env[i].0, '='),
    ensures
        all_tokens_ok(env_toks(env)),
    decreases env.len(),
{
    lemma_option_literals();
    if env.len() > 0 {
        lemma_env_toks_ok(env.drop_first());
        let kv = env[0].0 + seq!['='] + env[0].1;
        assert(token_ok(kv)) by {
            assert(kv[env[0].0.len() as int] == '=');
            if has_char(kv, '"') {
                let i = choose|i: int| 0 <= i < kv.len() && kv[i] == '"';
                if i < env[0].0.len() {
                    assert(env[0].0[i] == '"');
                } else if i > env[0].0.len() {
                    assert(env[0].1[i - env[0].0.len() - 1] == '"');
                }
            }
        }
        assert forall|i: int| 0 <= i < env_toks(env).len() implies token_ok(
            #[trigger] env_toks(env)[i],
        ) by {
            if i == 0 {
                assert(env_toks(env)[0] == "--env"@);
            } else if i == 1 {
                assert(env_toks(env)[1] == kv);
            } else {
                assert(env_toks(env)[i] == env_toks(env.drop_first())[i - 2]);
            }
        }
    }
}

/// The `PATH` mirrors are usable tokens.
proof fn lemma_path_toks_ok(paths: Seq<Seq<char>>)
    requires
        forall|i: int| 0 <= i < paths.len() ==> token_ok(#[trigger] paths[i]),
    ensures
        all_tokens_ok(path_toks(paths)),
    decreases paths.len(),
{
    lemma_option_literals();
    if paths.len() > 0 {
        lemma_path_toks_ok(paths.drop_first());
        assert forall|i: int| 0 <= i < path_toks(paths).len() implies token_ok(
            #[trigger] path_toks(paths)[i],
        ) by {
            if i == 0 {
                assert(path_toks(paths)[0] == "--path"@);
            } else if i == 1 {
                assert(path_toks(paths)[1] == paths[0]);
            } else {
                assert(path_toks(paths)[i] == path_toks(paths.drop_first())[i - 2]);
            }
        }
    }
}

/// The prepended-`PATH` mirrors are usable tokens.
proof fn lemma_path_prepend_toks_ok(paths: Seq<Seq<char>>)
    requires
        forall|i: int| 0 <= i < paths.len() ==> token_ok(#[trigger] paths[i]),
    ensures
        all_tokens_ok(path_prepend_toks(paths)),
    decreases paths.len(),
{
    lemma_option_literals();
    if paths.len() > 0 {
        lemma_path_prepend_toks_ok(paths.drop_first());
        assert forall|i: int| 0 <= i < path_prepend_toks(paths).len() implies token_ok(
            #[trigger] path_prepend_toks(paths)[i],
        ) by {
            if i == 0 {
                assert(path_prepend_toks(paths)[0] == "--path-prepend"@);
            } else if i == 1 {
                assert(path_prepend_toks(paths)[1] == paths[0]);
            } else {
                assert(path_prepend_toks(paths)[i] == path_prepend_toks(paths.drop_first())[i - 2]);
            }
        }
    }
}

/// Every tail mirror is a usable token.
#[verifier::rlimit(100)]
#[verifier::spinoff_prover]
proof fn lemma_tail_toks_ok(o: CommonOptsV)
    requires
        forall|i: int|
            0 <= i < o.env.len() ==> !has_char(#[trigger] o.env[i].0, '"') && !has_char(o.env[i].1, '"')
                && !has_char(o.env[i].0, '='),
        forall|i: int| 0 <= i < o.path.len() ==> token_ok(#[trigger] o.path[i]),
        forall|i: int| 0 <= i < o.path_prepend.len() ==> token_ok(#[trigger] o.path_prepend[i]),
    ensures
        all_tokens_ok(tail_toks(o)),
{
    lemma_option_literals();
    match o.priority {
        Some(p) => {
            lemma_priority_cli_token(p);
        },
        None => {},
    }
    assert(forall|i: int|
        0 <= i < o.env.len() ==> !has_char(#[trigger] o.env[i].0, '"') && !has_char(o.env[i].1, '"')
            && !has_char(o.env[i].0, '='));
    lemma_env_toks_ok(o.env);
    lemma_path_toks_ok(o.path);
    lemma_path_prepend_toks_ok(o.path_prepend);
    assert(all_tokens_ok(seg_pass_start_args(o)));
    assert(all_tokens_ok(seg_kill_process_tree(o)));
    assert(all_tokens_ok(seg_priority(o)));
    let a1 = seg_pass_start_args(o);
    let a2 = a1 + seg_kill_process_tree(o);
    let a3 = a2 + env_toks(o.env);
    let a4 = a3 + path_toks(o.path);
    let a5 = a4 + path_prepend_toks(o.path_prepend);
    lemma_all_ok_concat(a1, seg_kill_process_tree(o));
    lemma_all_ok_concat(a2, env_toks(o.env));
    lemma_all_ok_concat(a3, path_toks(o.path));
    lemma_all_ok_concat(a4, path_prepend_toks(o.path_prepend));
    lemma_all_ok_concat(a5, seg_priority(o));
}

/// Joining two nonempty token lists joins each and puts a space between.
pub proof fn lemma_join_split(a: Seq<Seq<char>>, b: Seq<Seq<char>>)
    requires
        a.len() > 0,
        b.len() > 0,
    ensures
        join_spaces(a + b) == join_spaces(a) + seq![' '] + join_spaces(b),
    decreases a.len(),
{
    let whole = a + b;
    assert(whole[0] == a[0]);
    if a.len() == 1 {
        assert(whole.drop_first() =~= b);
        assert(join_spaces(whole) == whole[0] + seq![' '] + join_spaces(whole.drop_first()));
        assert(join_spaces(whole) =~= join_spaces(a) + seq![' '] + join_spaces(b));
    } else {
        lemma_join_split(a.drop_first(), b);
        assert(whole.drop_first() =~= a.drop_first() + b);
        assert(join_spaces(whole) == whole[0] + seq![' '] + join_spaces(whole.drop_first()));
        assert(join_spaces(a) == a[0] + seq![' '] + join_spaces(a.drop_first()));
        assert(join_spaces(whole) =~= join_spaces(a) + seq![' '] + join_spaces(b));
    }
}

/// The registered `binPath` string round-trips: tokenized as a command line
/// and parsed as the wrapper's arguments, it yields the `run` invocation
/// with the same service name, working directory, command, and every option
/// of the original `add` invocation.
#[verifier::rlimit(100)]
pub proof fn lemma_bin_path_round_trip(
    shawl_path: Seq<char>,
    name: Seq<char>,
    cwd: Option<Seq<char>>,
    o: CommonOptsV,
)
    requires
        token_ok(shawl_path),
        mirrorable(name, cwd, o),
    ensures
        parse_cli_spec(tokenize_spec(bin_path_spec(shawl_path, name, cwd, o))) == Ok::<
            CliV,
            crate::cli::CliErrorV,
        >(CliV { sub: SubcommandV::Run { common: o, cwd, name } }),
{
    lemma_option_literals();
    let f = |t: Seq<char>| quote_spec(t);
    let rt = run_tokens(name, cwd, o);
    let u = invocation_tokens(shawl_path, name, cwd, o);

    // Every token of the invocation survives quoting and tokenizing.
    assert(all_tokens_ok(rt)) by {
        lemma_policy_ok(o);
        lemma_context_toks_ok(cwd, o);
        lemma_tail_toks_ok(o);
        assert(all_tokens_ok(seq!["run"@, "--name"@, name]));
        let a1 = seq!["run"@, "--name"@, name];
        let a2 = a1 + policy_args(o);
        let a3 = a2 + context_toks(cwd, o);
        lemma_all_ok_concat(a1, policy_args(o));
        lemma_all_ok_concat(a2, context_toks(cwd, o));
        lemma_all_ok_concat(a3, tail_toks(o));
    }
    assert(all_tokens_ok(u)) by {
        assert forall|i: int| 0 <= i < u.len() implies token_ok(#[trigger] u[i]) by {
            if i == 0 {
                assert(u[0] == shawl_path);
            } else if i < 1 + rt.len() {
                assert(u[i] == rt[i - 1]);
            } else if i == 1 + rt.len() {
                assert(u[i] == "--"@);
            } else {
                assert(u[i] == o.command[i - rt.len() - 2]);
            }
        }
    }
    lemma_tokenize_join(u);

    // The joined, quoted tokens are exactly the registered string.
    lemma_construct_quoted(name, cwd, o);
    let qa = construct_run_args_spec(name, cwd, o);
    let qc = o.command.map_values(f);
    assert(u.map_values(f) =~= seq![quote_spec(shawl_path)] + qa + seq!["--"@] + qc) by {
        lemma_map_concat(seq![shawl_path] + rt + seq!["--"@], o.command, f);
        lemma_map_concat(seq![shawl_path] + rt, seq!["--"@], f);
        lemma_map_concat(seq![shawl_path], rt, f);
        assert(seq![shawl_path].map_values(f) =~= seq![quote_spec(shawl_path)]);
        assert(seq!["--"@].map_values(f) =~= seq!["--"@]);
    }
    assert(join_spaces(u.map_values(f)) == bin_path_spec(shawl_path, name, cwd, o)) by {
        reveal_strlit(" -- ");
        reveal_strlit("--");
        assert("--"@[0] == '-' && "--"@[1] == '-');
        assert(" -- "@.len() == 4);
        assert(" -- "@[0] == ' ' && " -- "@[1] == '-' && " -- "@[2] == '-' && " -- "@[3] == ' ');
        let tail = seq!["--"@] + qc;
        assert(qa.len() >= 3) by {
            assert(qa =~= rt.map_values(f));
        }
        assert(qc.len() >= 1);
        lemma_join_split(seq![quote_spec(shawl_path)], qa + tail);
        lemma_join_split(qa, tail);
        lemma_join_split(seq!["--"@], qc);
        assert(u.map_values(f) =~= seq![quote_spec(shawl_path)] + (qa + tail));
        assert(join_spaces(seq![quote_spec(shawl_path)]) == quote_spec(shawl_path));
        assert(join_spaces(seq!["--"@]) == "--"@);
        assert(" -- "@ =~= seq![' '] + "--"@ + seq![' ']);
        assert(join_spaces(u.map_values(f)) =~= quote_spec(shawl_path) + seq![' '] + join_spaces(
            qa,
        ) + " -- "@ + join_spaces(qc));
    }

    // Parsing the recovered tokens yields the mirrored `run` invocation.
    let dc = seq!["--"@] + o.command;
    assert(u.len() >= 2);
    assert(u[0] == shawl_path);
    assert(u[1] == "run"@) by {
        assert(rt[0] == "run"@);
    }
    assert(u[1] != "add"@);
    assert(u.skip(2) == rt.skip(1) + seq!["--"@] + o.command) by {
        let a = seq![shawl_path] + rt;
        lemma_skip_concat_low(a + seq!["--"@], o.command, 2);
        lemma_skip_concat_low(a, seq!["--"@], 2);
        lemma_skip_concat_high(seq![shawl_path], rt, 2);
        assert((a + seq!["--"@]).skip(2) == a.skip(2) + seq!["--"@]);
        assert(a.skip(2) == rt.skip(1));
    }
    lemma_parse_run_tokens(name, cwd, o);
    let acc = mirrored_acc(name, cwd, o);
    assert(crate::cli::finish_cli_spec(acc) == Ok::<CliV, crate::cli::CliErrorV>(
        CliV { sub: SubcommandV::Run { common: o, cwd, name } },
    ));
}

} // verus!
