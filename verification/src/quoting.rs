//! Quoting of command-line arguments for the `binPath` string handed to
//! `sc create`, and the inverse tokenization that the service host's own
//! invocation undergoes.  Joining quoted tokens with spaces and tokenizing
//! the result returns the original tokens, which the round-trip lemma at
//! the end states.

use vstd::prelude::*;

use crate::text::{has_char, push_char_string, str_has_char};

verus! {

/// A token as it appears in the constructed `binPath`: wrapped in double
/// quotes exactly when it contains a space.
pub open spec fn quote_spec(s: Seq<char>) -> Seq<char> {
    if has_char(s, ' ') {
        seq!['"'] + s + seq!['"']
    } else {
        s
    }
}

/// A token that survives the quote-then-tokenize round trip: nonempty and
/// free of double quotes.
pub open spec fn token_ok(s: Seq<char>) -> bool {
    s.len() > 0 && !has_char(s, '"')
}

/// Tokens joined with single spaces.
pub open spec fn join_spaces(parts: Seq<Seq<char>>) -> Seq<char>
    decreases parts.len(),
{
    if parts.len() == 0 {
        Seq::empty()
    } else if parts.len() == 1 {
        parts[0]
    } else {
        parts[0] + seq![' '] + join_spaces(parts.drop_first())
    }
}

/// Wrap `text` in double quotes when it contains a space; otherwise return
/// it unchanged.
pub fn quote(text: &str) -> (r: String)
    ensures
        r@ == quote_spec(text@),
{
    if str_has_char(text, ' ') {
        let r = String::from_str("\"").concat(text).concat("\"");
        proof {
            reveal_strlit("\"");
            assert(r@ =~= quote_spec(text@));
        }
        r
    } else {
        String::from_str(text)
    }
}

/// An argument with a space is double-quoted in the constructed string;
/// an argument without one is passed through unchanged.
pub proof fn lemma_quoting(s: Seq<char>)
    ensures
        has_char(s, ' ') ==> quote_spec(s) == seq!['"'] + s + seq!['"'],
        !has_char(s, ' ') ==> quote_spec(s) == s,
{
}

/// Join tokens with single spaces.
pub fn join_with_spaces(parts: &Vec<String>) -> (s: String)
    requires
        parts@.len() > 0,
    ensures
        s@ == join_spaces(parts.deep_view()),
{
    let mut s = parts[0].clone();
    let mut i: usize = 1;
    while i < parts.len()
        invariant
            1 <= i <= parts@.len(),
            s@ == join_spaces(parts.deep_view().subrange(0, i as int)),
        decreases parts@.len() - i,
    {
        s.append(" ");
        s.append(parts[i].as_str());
        proof {
            reveal_strlit(" ");
            lemma_join_snoc(parts.deep_view().subrange(0, i as int), parts.deep_view()[i as int]);
            assert(parts.deep_view().subrange(0, i as int + 1) =~= parts.deep_view().subrange(
                0,
                i as int,
            ) + seq![parts.deep_view()[i as int]]);
        }
        i = i + 1;
    }
    proof {
        assert(parts.deep_view().subrange(0, parts.deep_view().len() as int) =~= parts.deep_view());
        assert(parts.deep_view().subrange(0, 1)[0] == parts.deep_view()[0]);
    }
    s
}

/// Appending one more token appends a space and the token.
proof fn lemma_join_snoc(parts: Seq<Seq<char>>, p: Seq<char>)
    requires
        parts.len() >= 1,
    ensures
        join_spaces(parts + seq![p]) == join_spaces(parts) + seq![' '] + p,
    decreases parts.len(),
{
    let whole = parts + seq![p];
    assert(whole[0] == parts[0]);
    if parts.len() == 1 {
        assert(whole.drop_first() =~= seq![p]);
        assert(join_spaces(whole) == whole[0] + seq![' '] + join_spaces(whole.drop_first()));
        assert(join_spaces(whole) =~= join_spaces(parts) + seq![' '] + p);
    } else {
        lemma_join_snoc(parts.drop_first(), p);
        assert(whole.drop_first() =~= parts.drop_first() + seq![p]);
        assert(join_spaces(whole) == whole[0] + seq![' '] + join_spaces(whole.drop_first()));
        assert(join_spaces(parts) == parts[0] + seq![' '] + join_spaces(parts.drop_first()));
        assert(join_spaces(whole) =~= join_spaces(parts) + seq![' '] + p);
    }
}

/// One pass of the tokenizer: `in_q` is whether the scan is inside double
/// quotes, `cur` the token collected so far, `started` whether any character
/// (or an opening quote) of a token has been seen.  Double quotes toggle
/// `in_q` and never reach a token; an unquoted space ends the current token.
pub open spec fn tok_run(s: Seq<char>, in_q: bool, cur: Seq<char>, started: bool) -> Seq<Seq<char>>
    decreases s.len(),
{
    if s.len() == 0 {
        if started {
            seq![cur]
        } else {
            seq![]
        }
    } else {
        let c = s[0];
        let rest = s.drop_first();
        if c == '"' {
            tok_run(rest, !in_q, cur, true)
        } else if c == ' ' && !in_q {
            if started {
                seq![cur] + tok_run(rest, false, seq![], false)
            } else {
                tok_run(rest, false, seq![], false)
            }
        } else {
            tok_run(rest, in_q, cur + seq![c], true)
        }
    }
}

/// The tokens of a command-line string: split on spaces, with double-quoted
/// stretches protecting their spaces, quotes themselves dropped.
pub open spec fn tokenize_spec(s: Seq<char>) -> Seq<Seq<char>> {
    tok_run(s, false, seq![], false)
}

/// Split a command-line string into its tokens.
pub fn tokenize(s: &str) -> (out: Vec<String>)
    ensures
        out.deep_view() == tokenize_spec(s@),
{
    let n = s.unicode_len();
    let mut out: Vec<String> = Vec::new();
    let mut cur = String::new();
    let mut in_q = false;
    let mut started = false;
    let mut i: usize = 0;
    proof {
        assert(s@.subrange(0, n as int) =~= s@);
        assert(out.deep_view() =~= Seq::<Seq<char>>::empty());
    }
    while i < n
        invariant
            n == s@.len(),
            i <= n,
            !started ==> cur@ == Seq::<char>::empty(),
            out.deep_view() + tok_run(s@.subrange(i as int, n as int), in_q, cur@, started)
                =~= tokenize_spec(s@),
        decreases n - i,
    {
        let ghost pre = s@.subrange(i as int, n as int);
        let c = s.get_char(i);
        proof {
            assert(pre[0] == c);
            assert(pre.drop_first() =~= s@.subrange(i as int + 1, n as int));
        }
        if c == '"' {
            proof {
                assert(tok_run(pre, in_q, cur@, started) == tok_run(
                    pre.drop_first(),
                    !in_q,
                    cur@,
                    true,
                ));
            }
            in_q = !in_q;
            started = true;
        } else if c == ' ' && !in_q {
            if started {
                proof {
                    assert(tok_run(pre, in_q, cur@, started) == seq![cur@] + tok_run(
                        pre.drop_first(),
                        false,
                        seq![],
                        false,
                    ));
                }
                let ghost old_out = out.deep_view();
                let ghost cur_view = cur@;
                out.push(cur);
                cur = String::new();
                started = false;
                proof {
                    assert(out.deep_view() =~= old_out + seq![cur_view]);
                }
            } else {
                proof {
                    assert(tok_run(pre, in_q, cur@, started) == tok_run(
                        pre.drop_first(),
                        false,
                        seq![],
                        false,
                    ));
                    assert(cur@ =~= Seq::<char>::empty());
                }
            }
        } else {
            proof {
                assert(tok_run(pre, in_q, cur@, started) == tok_run(
                    pre.drop_first(),
                    in_q,
                    cur@ + seq![c],
                    true,
                ));
            }
            push_char_string(&mut cur, c);
            started = true;
        }
        i = i + 1;
    }
    proof {
        assert(s@.subrange(n as int, n as int) =~= Seq::<char>::empty());
    }
    if started {
        let ghost old_out = out.deep_view();
        let ghost cur_view = cur@;
        proof {
            assert(tok_run(Seq::<char>::empty(), in_q, cur@, started) == seq![cur@]);
        }
        out.push(cur);
        proof {
            assert(out.deep_view() =~= old_out + seq![cur_view]);
        }
    } else {
        proof {
            assert(tok_run(Seq::<char>::empty(), in_q, cur@, started) =~= Seq::<Seq<
                char,
            >>::empty());
            assert(out.deep_view() + Seq::<Seq<char>>::empty() =~= out.deep_view());
        }
    }
    out
}

/// Scanning a quote-free, space-free stretch outside quotes appends it to
/// the current token.
proof fn lemma_tok_run_raw(t: Seq<char>, s2: Seq<char>, cur: Seq<char>, started: bool)
    requires
        !has_char(t, '"'),
        !has_char(t, ' '),
    ensures
        tok_run(t + s2, false, cur, started) == tok_run(
            s2,
            false,
            cur + t,
            started || t.len() > 0,
        ),
    decreases t.len(),
{
    if t.len() == 0 {
        assert(t + s2 =~= s2);
        assert(cur + t =~= cur);
    } else {
        let c = t[0];
        assert((t + s2)[0] == c);
        assert(c != '"' && c != ' ');
        assert((t + s2).drop_first() =~= t.drop_first() + s2);
        assert(!has_char(t.drop_first(), '"') && !has_char(t.drop_first(), ' ')) by {
            lemma_has_char_drop_first(t, '"');
            lemma_has_char_drop_first(t, ' ');
        }
        lemma_tok_run_raw(t.drop_first(), s2, cur + seq![c], true);
        assert(cur + seq![c] + t.drop_first() =~= cur + t);
    }
}

/// Scanning a quote-free stretch inside quotes appends it to the current
/// token, spaces included.
proof fn lemma_tok_run_quoted(t: Seq<char>, s2: Seq<char>, cur: Seq<char>, started: bool)
    requires
        !has_char(t, '"'),
    ensures
        tok_run(t + s2, true, cur, started) == tok_run(s2, true, cur + t, started || t.len() > 0),
    decreases t.len(),
{
    if t.len() == 0 {
        assert(t + s2 =~= s2);
        assert(cur + t =~= cur);
    } else {
        let c = t[0];
        assert((t + s2)[0] == c);
        assert(c != '"');
        assert((t + s2).drop_first() =~= t.drop_first() + s2);
        assert(!has_char(t.drop_first(), '"')) by {
            lemma_has_char_drop_first(t, '"');
        }
        lemma_tok_run_quoted(t.drop_first(), s2, cur + seq![c], true);
        assert(cur + seq![c] + t.drop_first() =~= cur + t);
    }
}

/// A character absent from a sequence is absent from its tail.
proof fn lemma_has_char_drop_first(t: Seq<char>, c: char)
    requires
        t.len() > 0,
        !has_char(t, c),
    ensures
        !has_char(t.drop_first(), c),
{
    if has_char(t.drop_first(), c) {
        let i = choose|i: int| 0 <= i < t.drop_first().len() && t.drop_first()[i] == c;
        assert(t[i + 1] == c);
    }
}

/// A quoted token followed by a space yields that token, then the tokens of
/// the remainder.
proof fn lemma_tok_token(t: Seq<char>, rest: Seq<char>)
    requires
        token_ok(t),
    ensures
        tok_run(quote_spec(t) + seq![' '] + rest, false, seq![], false) == seq![t] + tok_run(
            rest,
            false,
            seq![],
            false,
        ),
{
    let empty = Seq::<char>::empty();
    if has_char(t, ' ') {
        let s = quote_spec(t) + seq![' '] + rest;
        let s2 = seq!['"'] + seq![' '] + rest;
        let s3 = seq![' '] + rest;
        assert(s[0] == '"');
        assert(s.drop_first() =~= t + s2);
        assert(tok_run(s, false, empty, false) == tok_run(t + s2, true, empty, true));
        lemma_tok_run_quoted(t, s2, empty, true);
        assert(empty + t =~= t);
        assert(tok_run(t + s2, true, empty, true) == tok_run(s2, true, t, true));
        assert(s2[0] == '"');
        assert(s2.drop_first() =~= s3);
        assert(tok_run(s2, true, t, true) == tok_run(s3, false, t, true));
        assert(s3[0] == ' ');
        assert(s3.drop_first() =~= rest);
        assert(tok_run(s3, false, t, true) == seq![t] + tok_run(rest, false, empty, false));
    } else {
        let s3 = seq![' '] + rest;
        assert(quote_spec(t) + seq![' '] + rest =~= t + s3);
        lemma_tok_run_raw(t, s3, empty, false);
        assert(empty + t =~= t);
        assert(tok_run(t + s3, false, empty, false) == tok_run(s3, false, t, true));
        assert(s3[0] == ' ');
        assert(s3.drop_first() =~= rest);
        assert(tok_run(s3, false, t, true) == seq![t] + tok_run(rest, false, empty, false));
    }
}

/// A quoted token at the end of the string yields exactly that token.
proof fn lemma_tok_last(t: Seq<char>)
    requires
        token_ok(t),
    ensures
        tok_run(quote_spec(t), false, seq![], false) == seq![t],
{
    let empty = Seq::<char>::empty();
    if has_char(t, ' ') {
        let s = quote_spec(t);
        let s2 = seq!['"'];
        assert(s[0] == '"');
        assert(s.drop_first() =~= t + s2);
        assert(tok_run(s, false, empty, false) == tok_run(t + s2, true, empty, true));
        lemma_tok_run_quoted(t, s2, empty, true);
        assert(empty + t =~= t);
        assert(tok_run(t + s2, true, empty, true) == tok_run(s2, true, t, true));
        assert(s2[0] == '"');
        assert(s2.drop_first() =~= empty);
        assert(tok_run(s2, true, t, true) == tok_run(empty, false, t, true));
        assert(tok_run(empty, false, t, true) == seq![t]);
    } else {
        assert(quote_spec(t) =~= t + empty);
        lemma_tok_run_raw(t, empty, empty, false);
        assert(empty + t =~= t);
        assert(tok_run(t + empty, false, empty, false) == tok_run(empty, false, t, true));
        assert(tok_run(empty, false, t, true) == seq![t]);
    }
}

/// Tokenizing the space-joined, quoted rendering of any sequence of
/// well-formed tokens returns exactly those tokens.
pub proof fn lemma_tokenize_join(parts: Seq<Seq<char>>)
    requires
        forall|i: int| 0 <= i < parts.len() ==> token_ok(#[trigger] parts[i]),
    ensures
        tokenize_spec(join_spaces(parts.map_values(|t: Seq<char>| quote_spec(t)))) == parts,
    decreases parts.len(),
{
    let qparts = parts.map_values(|t: Seq<char>| quote_spec(t));
    if parts.len() == 0 {
        assert(tokenize_spec(join_spaces(qparts)) =~= parts);
    } else if parts.len() == 1 {
        lemma_tok_last(parts[0]);
        assert(join_spaces(qparts) == quote_spec(parts[0]));
        assert(tokenize_spec(join_spaces(qparts)) =~= parts);
    } else {
        lemma_tokenize_join(parts.drop_first());
        assert(qparts.drop_first() =~= parts.drop_first().map_values(
            |t: Seq<char>| quote_spec(t),
        ));
        lemma_tok_token(parts[0], join_spaces(qparts.drop_first()));
        assert(join_spaces(qparts) == qparts[0] + seq![' '] + join_spaces(qparts.drop_first()));
        assert(tokenize_spec(join_spaces(qparts)) =~= parts) by {
            assert(seq![parts[0]] + parts.drop_first() =~= parts);
        }
    }
}

} // verus!
