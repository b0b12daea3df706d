//! Decimal rendering and parsing of the integer values that appear on the
//! command line: `u64` for timeouts and rotation sizes, `i32` for exit
//! codes, and comma-separated lists of exit codes.  Rendering and parsing
//! are exact inverses, which the round-trip lemmas here state.

use vstd::arithmetic::div_mod::lemma_fundamental_div_mod;
use vstd::prelude::*;

use crate::text::{find_char, has_char, lemma_find_char, str_find_char};

verus! {

/// The decimal digit character for `d` (0 through 9).
pub open spec fn digit_char(d: int) -> char {
    (48 + d) as char
}

/// Whether `c` is a decimal digit.
pub open spec fn is_digit(c: char) -> bool {
    48 <= c as int <= 57
}

/// The numeric value of a digit character.
pub open spec fn digit_val(c: char) -> nat {
    (c as int - 48) as nat
}

/// Whether every character of `s` is a decimal digit.
pub open spec fn all_digits(s: Seq<char>) -> bool {
    forall|i: int| 0 <= i < s.len() ==> is_digit(s[i])
}

/// The decimal rendering of a natural number, most significant digit first,
/// with no leading zeros (a lone `0` for zero).
pub open spec fn dec_of(n: nat) -> Seq<char>
    decreases n,
{
    if n < 10 {
        seq![digit_char(n as int)]
    } else {
        dec_of(n / 10) + seq![digit_char((n % 10) as int)]
    }
}

/// The numeric value of a digit string (most significant digit first).
pub open spec fn dec_val(s: Seq<char>) -> nat
    decreases s.len(),
{
    if s.len() == 0 {
        0
    } else {
        dec_val(s.drop_last()) * 10 + digit_val(s.last())
    }
}

/// The decimal rendering of a signed 32-bit value: a `-` sign for negative
/// values, then the magnitude.
pub open spec fn dec_of_i32(c: int) -> Seq<char> {
    if c < 0 {
        seq!['-'] + dec_of((-c) as nat)
    } else {
        dec_of(c as nat)
    }
}

/// What parsing a plain digit string as a `u64` yields: defined exactly
/// when the string is nonempty, all digits, and in range.
pub open spec fn parse_u64_digits_spec(s: Seq<char>) -> Option<u64> {
    if s.len() > 0 && all_digits(s) && dec_val(s) <= u64::MAX {
        Some(dec_val(s) as u64)
    } else {
        None
    }
}

/// What parsing a digit string as a `u64` yields: one leading `+` sign is
/// allowed, as in std's integer parsing.
pub open spec fn parse_u64_spec(s: Seq<char>) -> Option<u64> {
    if s.len() > 0 && s[0] == '+' {
        parse_u64_digits_spec(s.drop_first())
    } else {
        parse_u64_digits_spec(s)
    }
}

/// What parsing a plain digit string as a nonnegative `i32` yields.
pub open spec fn parse_i32_digits_spec(s: Seq<char>) -> Option<i32> {
    if s.len() > 0 && all_digits(s) && dec_val(s) <= 0x7fff_ffff {
        Some(dec_val(s) as i32)
    } else {
        None
    }
}

/// What parsing an optionally signed digit string as an `i32` yields: one
/// leading `-` or `+` sign is allowed, as in std's integer parsing.
pub open spec fn parse_i32_spec(s: Seq<char>) -> Option<i32> {
    if s.len() > 0 && s[0] == '-' {
        let t = s.drop_first();
        if t.len() > 0 && all_digits(t) && dec_val(t) <= 0x8000_0000 {
            Some((-(dec_val(t) as int)) as i32)
        } else {
            None
        }
    } else if s.len() > 0 && s[0] == '+' {
        parse_i32_digits_spec(s.drop_first())
    } else {
        parse_i32_digits_spec(s)
    }
}

/// A rendered natural number is nonempty, all digits, and evaluates back to
/// the number it renders.
pub proof fn lemma_dec_of_val(n: nat)
    ensures
        dec_of(n).len() >= 1,
        all_digits(dec_of(n)),
        dec_val(dec_of(n)) == n,
    decreases n,
{
    if n < 10 {
        assert(dec_val(dec_of(n)) == dec_val(Seq::<char>::empty()) * 10 + digit_val(digit_char(
            n as int,
        ))) by {
            assert(dec_of(n).drop_last() =~= Seq::<char>::empty());
        }
    } else {
        lemma_dec_of_val(n / 10);
        let front = dec_of(n / 10);
        let full = dec_of(n);
        assert(full.drop_last() =~= front);
        assert(full.last() == digit_char((n % 10) as int));
        assert(digit_val(digit_char((n % 10) as int)) == n % 10);
        lemma_fundamental_div_mod(n as int, 10);
        assert(forall|i: int| 0 <= i < full.len() - 1 ==> full[i] == front[i]);
    }
}

/// The exec counterpart of `digit_char`.
fn digit_to_str(d: u64) -> (r: &'static str)
    requires
        d < 10,
    ensures
        r@ =~= seq![digit_char(d as int)],
{
    if d == 0 {
        proof { reveal_strlit("0"); }
        "0"
    } else if d == 1 {
        proof { reveal_strlit("1"); }
        "1"
    } else if d == 2 {
        proof { reveal_strlit("2"); }
        "2"
    } else if d == 3 {
        proof { reveal_strlit("3"); }
        "3"
    } else if d == 4 {
        proof { reveal_strlit("4"); }
        "4"
    } else if d == 5 {
        proof { reveal_strlit("5"); }
        "5"
    } else if d == 6 {
        proof { reveal_strlit("6"); }
        "6"
    } else if d == 7 {
        proof { reveal_strlit("7"); }
        "7"
    } else if d == 8 {
        proof { reveal_strlit("8"); }
        "8"
    } else {
        proof { reveal_strlit("9"); }
        "9"
    }
}

/// Render a `u64` in decimal.
pub fn u64_to_string(n: u64) -> (s: String)
    ensures
        s@ == dec_of(n as nat),
    decreases n,
{
    if n < 10 {
        String::from_str(digit_to_str(n))
    } else {
        let front = u64_to_string(n / 10);
        let s = front.concat(digit_to_str(n % 10));
        proof {
            assert(s@ =~= dec_of(n as nat));
        }
        s
    }
}

/// Render an `i32` in decimal, with a `-` sign when negative.
pub fn i32_to_string(c: i32) -> (s: String)
    ensures
        s@ == dec_of_i32(c as int),
{
    if c >= 0 {
        let s = u64_to_string(c as u64);
        s
    } else {
        let wide: i64 = c as i64;
        let mag: u64 = (-wide) as u64;
        let digits = u64_to_string(mag);
        let s = String::from_str("-").concat(digits.as_str());
        proof {
            reveal_strlit("-");
            assert(s@ =~= dec_of_i32(c as int));
        }
        s
    }
}

/// The numeric value of a digit is its digit character's value.
proof fn lemma_dec_val_snoc(s: Seq<char>, c: char)
    ensures
        dec_val(s + seq![c]) == dec_val(s) * 10 + digit_val(c),
{
    assert((s + seq![c]).drop_last() =~= s);
    assert((s + seq![c]).last() == c);
}

/// Parse a string slice as a decimal `u64`, with an optional leading `+`.
pub fn parse_u64(s: &str) -> (r: Option<u64>)
    ensures
        r == parse_u64_spec(s@),
{
    let n = s.unicode_len();
    if n > 0 && s.get_char(0) == '+' {
        let rest = s.substring_char(1, n);
        proof {
            assert(rest@ =~= s@.drop_first());
        }
        parse_u64_digits(rest)
    } else {
        parse_u64_digits(s)
    }
}

/// Parse a string slice as an unsigned decimal number.
fn parse_u64_digits(s: &str) -> (r: Option<u64>)
    ensures
        r == parse_u64_digits_spec(s@),
{
    let n = s.unicode_len();
    if n == 0 {
        return None;
    }
    let mut acc: u64 = 0;
    let mut i: usize = 0;
    while i < n
        invariant
            n == s@.len(),
            0 < n,
            i <= n,
            all_digits(s@.subrange(0, i as int)),
            acc == dec_val(s@.subrange(0, i as int)),
        decreases n - i,
    {
        let c = s.get_char(i);
        let v = c as u32;
        if v < 48 || v > 57 {
            proof {
                assert(!is_digit(s@[i as int]));
            }
            return None;
        }
        let d: u64 = (v - 48) as u64;
        if acc > (u64::MAX - d) / 10 {
            proof {
                lemma_dec_val_snoc(s@.subrange(0, i as int), s@[i as int]);
                assert(s@.subrange(0, i as int + 1) =~= s@.subrange(0, i as int) + seq![
                    s@[i as int],
                ]);
                assert(dec_val(s@.subrange(0, i as int + 1)) > u64::MAX) by {
                    assert(acc >= (u64::MAX - d) / 10 + 1);
                    assert(acc * 10 >= ((u64::MAX - d) / 10 + 1) * 10) by (nonlinear_arith)
                        requires acc >= (u64::MAX - d) / 10 + 1;
                    lemma_fundamental_div_mod((u64::MAX - d) as int, 10);
                }
                if all_digits(s@) {
                    lemma_dec_val_prefix_le(s@, i as int + 1);
                }
            }
            return None;
        }
        proof {
            lemma_dec_val_snoc(s@.subrange(0, i as int), s@[i as int]);
            assert(s@.subrange(0, i as int + 1) =~= s@.subrange(0, i as int) + seq![s@[i as int]]);
            assert(acc * 10 <= ((u64::MAX - d) / 10) * 10) by (nonlinear_arith)
                requires acc <= (u64::MAX - d) / 10;
            lemma_fundamental_div_mod((u64::MAX - d) as int, 10);
        }
        acc = acc * 10 + d;
        i = i + 1;
    }
    proof {
        assert(s@.subrange(0, n as int) =~= s@);
    }
    Some(acc)
}

/// The value of a prefix never exceeds the value of the whole digit string.
proof fn lemma_dec_val_prefix_le(s: Seq<char>, i: int)
    requires
        0 <= i <= s.len(),
        all_digits(s),
    ensures
        dec_val(s.subrange(0, i)) <= dec_val(s),
    decreases s.len() - i,
{
    if i < s.len() {
        lemma_dec_val_prefix_le(s, i + 1);
        let p = s.subrange(0, i);
        let q = s.subrange(0, i + 1);
        assert(q =~= p + seq![s[i]]);
        lemma_dec_val_snoc(p, s[i]);
        assert(dec_val(p) <= dec_val(p) * 10) by (nonlinear_arith);
    } else {
        assert(s.subrange(0, i) =~= s);
    }
}

/// Parse a string slice as a decimal `i32`, with an optional leading `-`
/// or `+`.
pub fn parse_i32(s: &str) -> (r: Option<i32>)
    ensures
        r == parse_i32_spec(s@),
{
    let n = s.unicode_len();
    if n == 0 {
        return None;
    }
    let first = s.get_char(0);
    if first == '-' {
        let rest = s.substring_char(1, n);
        proof {
            assert(rest@ =~= s@.drop_first());
        }
        match parse_u64_digits(rest) {
            Some(v) => {
                if v <= 0x8000_0000 {
                    Some((-(v as i64)) as i32)
                } else {
                    None
                }
            },
            None => None,
        }
    } else if first == '+' {
        let rest = s.substring_char(1, n);
        proof {
            assert(rest@ =~= s@.drop_first());
        }
        parse_i32_digits(rest)
    } else {
        parse_i32_digits(s)
    }
}

/// Parse a string slice as an unsigned decimal `i32`.
fn parse_i32_digits(s: &str) -> (r: Option<i32>)
    ensures
        r == parse_i32_digits_spec(s@),
{
    match parse_u64_digits(s) {
        Some(v) => {
            if v <= 0x7fff_ffff {
                Some(v as i32)
            } else {
                None
            }
        },
        None => None,
    }
}

/// Parsing inverts rendering for `u64`.
pub proof fn lemma_u64_round_trip(n: u64)
    ensures
        parse_u64_spec(dec_of(n as nat)) == Some(n),
{
    lemma_dec_of_val(n as nat);
    assert(dec_of(n as nat)[0] != '+') by {
        assert(is_digit(dec_of(n as nat)[0]));
    }
}

/// Rendered naturals never contain a `-` sign (every character is a digit).
proof fn lemma_dec_of_no_dash(n: nat)
    ensures
        dec_of(n)[0] != '-',
{
    lemma_dec_of_val(n);
    assert(is_digit(dec_of(n)[0]));
}

/// Parsing inverts rendering for `i32`.
pub proof fn lemma_i32_round_trip(c: i32)
    ensures
        parse_i32_spec(dec_of_i32(c as int)) == Some(c),
{
    if c >= 0 {
        lemma_dec_of_val(c as nat);
        lemma_dec_of_no_dash(c as nat);
        assert(dec_of_i32(c as int)[0] != '+') by {
            assert(is_digit(dec_of(c as nat)[0]));
        }
    } else {
        let mag = (-(c as int)) as nat;
        lemma_dec_of_val(mag);
        let s = dec_of_i32(c as int);
        assert(s[0] == '-');
        assert(s.drop_first() =~= dec_of(mag));
    }
}

/// The comma-separated rendering of a list of exit codes.
pub open spec fn csv_of_codes(codes: Seq<i32>) -> Seq<char>
    decreases codes.len(),
{
    if codes.len() == 0 {
        Seq::empty()
    } else if codes.len() == 1 {
        dec_of_i32(codes[0] as int)
    } else {
        dec_of_i32(codes[0] as int) + seq![','] + csv_of_codes(codes.drop_first())
    }
}

/// What parsing a comma-separated list of exit codes yields.
pub open spec fn parse_csv_codes_spec(s: Seq<char>) -> Option<Seq<i32>>
    decreases s.len(),
{
    let k = find_char(s, ',');
    if 0 <= k < s.len() {
        let head = parse_i32_spec(s.subrange(0, k));
        let tail = parse_csv_codes_spec(s.subrange(k + 1, s.len() as int));
        if head is Some && tail is Some {
            Some(seq![head->Some_0] + tail->Some_0)
        } else {
            None
        }
    } else {
        match parse_i32_spec(s) {
            Some(v) => Some(seq![v]),
            None => None,
        }
    }
}

/// Render a nonempty list of exit codes as comma-separated decimals.
pub fn codes_to_csv(codes: &Vec<i32>) -> (s: String)
    requires
        codes@.len() > 0,
    ensures
        s@ == csv_of_codes(codes@),
{
    let mut s = i32_to_string(codes[0]);
    let mut i: usize = 1;
    while i < codes.len()
        invariant
            1 <= i <= codes@.len(),
            s@ == csv_of_codes(codes@.subrange(0, i as int)),
        decreases codes@.len() - i,
    {
        s.append(",");
        let piece = i32_to_string(codes[i]);
        s.append(piece.as_str());
        proof {
            reveal_strlit(",");
            lemma_csv_snoc(codes@.subrange(0, i as int), codes@[i as int]);
            assert(codes@.subrange(0, i as int + 1) =~= codes@.subrange(0, i as int) + seq![
                codes@[i as int],
            ]);
        }
        i = i + 1;
    }
    proof {
        assert(codes@.subrange(0, codes@.len() as int) =~= codes@);
        assert(csv_of_codes(codes@.subrange(0, 1)) == dec_of_i32(codes@[0] as int)) by {
            assert(codes@.subrange(0, 1)[0] == codes@[0]);
        }
    }
    s
}

/// Appending one more code appends a comma and its rendering.
proof fn lemma_csv_snoc(codes: Seq<i32>, c: i32)
    requires
        codes.len() >= 1,
    ensures
        csv_of_codes(codes + seq![c]) == csv_of_codes(codes) + seq![','] + dec_of_i32(c as int),
    decreases codes.len(),
{
    let whole = codes + seq![c];
    if codes.len() == 1 {
        assert(whole.drop_first() =~= seq![c]);
        assert(csv_of_codes(whole.drop_first()) == dec_of_i32(c as int));
        assert(csv_of_codes(whole) =~= csv_of_codes(codes) + seq![','] + dec_of_i32(c as int));
    } else {
        lemma_csv_snoc(codes.drop_first(), c);
        assert(whole.drop_first() =~= codes.drop_first() + seq![c]);
        assert(csv_of_codes(whole) =~= csv_of_codes(codes) + seq![','] + dec_of_i32(c as int));
    }
}

/// Parse a string slice as a comma-separated list of exit codes.
pub fn parse_csv_codes(s: &str) -> (r: Option<Vec<i32>>)
    ensures
        match r {
            Some(v) => parse_csv_codes_spec(s@) == Some(v@),
            None => parse_csv_codes_spec(s@) is None,
        },
    decreases s@.len(),
{
    let n = s.unicode_len();
    let k = str_find_char(s, ',');
    if k < n {
        let head_str = s.substring_char(0, k);
        let tail_str = s.substring_char(k + 1, n);
        proof {
            lemma_find_char(s@, ',');
            assert(head_str@ =~= s@.subrange(0, k as int));
            assert(tail_str@ =~= s@.subrange(k as int + 1, s@.len() as int));
        }
        let head = parse_i32(head_str);
        let tail = parse_csv_codes(tail_str);
        match (head, tail) {
            (Some(h), Some(mut t)) => {
                let ghost tail_view = t@;
                let mut v: Vec<i32> = Vec::new();
                v.push(h);
                v.append(&mut t);
                proof {
                    assert(v@ =~= seq![h] + tail_view);
                }
                Some(v)
            },
            _ => None,
        }
    } else {
        proof {
            lemma_find_char(s@, ',');
        }
        match parse_i32(s) {
            Some(v) => {
                let mut out: Vec<i32> = Vec::new();
                out.push(v);
                proof {
                    assert(out@ =~= seq![v]);
                }
                Some(out)
            },
            None => None,
        }
    }
}

/// A rendered `i32` never contains a comma.
proof fn lemma_dec_of_i32_no_comma(c: i32)
    ensures
        !has_char(dec_of_i32(c as int), ','),
        dec_of_i32(c as int).len() >= 1,
{
    if c >= 0 {
        lemma_dec_of_val(c as nat);
        assert forall|i: int| 0 <= i < dec_of_i32(c as int).len() implies dec_of_i32(
            c as int,
        )[i] != ',' by {
            assert(is_digit(dec_of_i32(c as int)[i]));
        }
    } else {
        let mag = (-(c as int)) as nat;
        lemma_dec_of_val(mag);
        let s = dec_of_i32(c as int);
        assert forall|i: int| 0 <= i < s.len() implies s[i] != ',' by {
            if i >= 1 {
                assert(s[i] == dec_of(mag)[i - 1]);
                assert(is_digit(dec_of(mag)[i - 1]));
            }
        }
    }
}

/// Every character of a rendered natural number is a digit, so the
/// rendering holds no space, quote, comma, or equals sign.
pub proof fn lemma_dec_of_plain(n: nat)
    ensures
        dec_of(n).len() >= 1,
        forall|c: char| has_char(dec_of(n), c) ==> is_digit(c),
{
    lemma_dec_of_val(n);
    assert forall|c: char| has_char(dec_of(n), c) implies is_digit(c) by {
        let i = choose|i: int| 0 <= i < dec_of(n).len() && dec_of(n)[i] == c;
        assert(is_digit(dec_of(n)[i]));
    }
}

/// Every character of a rendered `i32` is a digit or the `-` sign.
pub proof fn lemma_dec_of_i32_plain(code: i32)
    ensures
        dec_of_i32(code as int).len() >= 1,
        forall|c: char| has_char(dec_of_i32(code as int), c) ==> is_digit(c) || c == '-',
{
    if code >= 0 {
        lemma_dec_of_plain(code as nat);
    } else {
        let mag = (-(code as int)) as nat;
        lemma_dec_of_plain(mag);
        let s = dec_of_i32(code as int);
        assert forall|c: char| has_char(s, c) implies is_digit(c) || c == '-' by {
            let i = choose|i: int| 0 <= i < s.len() && s[i] == c;
            if i >= 1 {
                assert(s[i] == dec_of(mag)[i - 1]);
                assert(has_char(dec_of(mag), c));
            }
        }
    }
}

/// Every character of a rendered code list is a digit, a `-` sign, or a
/// comma.
pub proof fn lemma_csv_plain(codes: Seq<i32>)
    requires
        codes.len() > 0,
    ensures
        csv_of_codes(codes).len() >= 1,
        forall|c: char| has_char(csv_of_codes(codes), c) ==> is_digit(c) || c == '-' || c == ',',
    decreases codes.len(),
{
    lemma_dec_of_i32_plain(codes[0]);
    if codes.len() == 1 {
    } else {
        lemma_csv_plain(codes.drop_first());
        let s = csv_of_codes(codes);
        let head = dec_of_i32(codes[0] as int);
        let rest = csv_of_codes(codes.drop_first());
        assert forall|c: char| has_char(s, c) implies is_digit(c) || c == '-' || c == ',' by {
            let i = choose|i: int| 0 <= i < s.len() && s[i] == c;
            if i < head.len() {
                assert(s[i] == head[i]);
                assert(has_char(head, c));
            } else if i == head.len() {
                assert(s[i] == ',');
            } else {
                assert(s[i] == rest[i - head.len() - 1]);
                assert(has_char(rest, c));
            }
        }
    }
}

/// Parsing inverts rendering for comma-separated code lists.
pub proof fn lemma_csv_round_trip(codes: Seq<i32>)
    requires
        codes.len() > 0,
    ensures
        parse_csv_codes_spec(csv_of_codes(codes)) == Some(codes),
    decreases codes.len(),
{
    let s = csv_of_codes(codes);
    lemma_dec_of_i32_no_comma(codes[0]);
    if codes.len() == 1 {
        lemma_find_char(s, ',');
        lemma_i32_round_trip(codes[0]);
        assert(parse_csv_codes_spec(s) == Some(seq![codes[0]]));
        assert(seq![codes[0]] =~= codes);
    } else {
        let head = dec_of_i32(codes[0] as int);
        let rest = csv_of_codes(codes.drop_first());
        crate::text::lemma_find_char_concat(head, rest, ',');
        let k = head.len() as int;
        assert(0 <= k < s.len()) by {
            assert(s.len() == head.len() + 1 + rest.len());
        }
        assert(s.subrange(0, k) =~= head);
        assert(s.subrange(k + 1, s.len() as int) =~= rest);
        lemma_i32_round_trip(codes[0]);
        lemma_csv_round_trip(codes.drop_first());
        assert(seq![codes[0]] + codes.drop_first() =~= codes);
    }
}

} // verus!
