//! Character-level helpers for working with `&str` and `String` values:
//! equality, search, and slicing, each with an exact contract over the
//! string's view.

use vstd::prelude::*;

verus! {

/// Whether `c` occurs in `s`.
pub open spec fn has_char(s: Seq<char>, c: char) -> bool {
    exists|i: int| 0 <= i < s.len() && s[i] == c
}

/// Index of the first occurrence of `c` in `s`, or `s.len()` when absent.
pub open spec fn find_char(s: Seq<char>, c: char) -> int
    decreases s.len(),
{
    if s.len() == 0 {
        0
    } else if s[0] == c {
        0
    } else {
        1 + find_char(s.drop_first(), c)
    }
}

/// `find_char` points at the first occurrence of `c`, or past the end.
pub proof fn lemma_find_char(s: Seq<char>, c: char)
    ensures
        0 <= find_char(s, c) <= s.len(),
        find_char(s, c) < s.len() ==> s[find_char(s, c)] == c,
        forall|i: int| 0 <= i < find_char(s, c) ==> s[i] != c,
        (find_char(s, c) == s.len()) == !has_char(s, c),
    decreases s.len(),
{
    if s.len() > 0 && s[0] != c {
        lemma_find_char(s.drop_first(), c);
        let k = find_char(s.drop_first(), c);
        assert(forall|i: int| 1 <= i < 1 + k ==> s[i] == s.drop_first()[i - 1]);
        if 1 + k == s.len() {
            assert(!has_char(s, c)) by {
                if has_char(s, c) {
                    let i = choose|i: int| 0 <= i < s.len() && s[i] == c;
                    assert(s.drop_first()[i - 1] == c);
                }
            }
        }
    }
}

/// Character equality of two string slices.
pub fn str_eq(a: &str, b: &str) -> (r: bool)
    ensures
        r == (a@ == b@),
{
    let an = a.unicode_len();
    let bn = b.unicode_len();
    if an != bn {
        return false;
    }
    let mut i: usize = 0;
    while i < an
        invariant
            an == a@.len(),
            an == b@.len(),
            i <= an,
            forall|j: int| 0 <= j < i ==> a@[j] == b@[j],
        decreases an - i,
    {
        if a.get_char(i) != b.get_char(i) {
            return false;
        }
        i = i + 1;
    }
    proof {
        assert(a@ =~= b@);
    }
    true
}

/// Whether `c` occurs in the string slice `s`.
pub fn str_has_char(s: &str, c: char) -> (r: bool)
    ensures
        r == has_char(s@, c),
{
    let n = s.unicode_len();
    let mut i: usize = 0;
    while i < n
        invariant
            n == s@.len(),
            i <= n,
            forall|j: int| 0 <= j < i ==> s@[j] != c,
        decreases n - i,
    {
        if s.get_char(i) == c {
            return true;
        }
        i = i + 1;
    }
    false
}

/// Index of the first occurrence of `c` in the string slice, or its length.
pub fn str_find_char(s: &str, c: char) -> (r: usize)
    ensures
        r == find_char(s@, c),
{
    let n = s.unicode_len();
    let mut i: usize = 0;
    while i < n
        invariant
            n == s@.len(),
            i <= n,
            forall|j: int| 0 <= j < i ==> s@[j] != c,
        decreases n - i,
    {
        if s.get_char(i) == c {
            proof {
                lemma_find_char(s@, c);
                lemma_find_char_pins(s@, c, i as int);
            }
            return i;
        }
        i = i + 1;
    }
    proof {
        lemma_find_char(s@, c);
    }
    n
}

/// Parts joined with single occurrences of the separator `c`.
pub open spec fn join_char(parts: Seq<Seq<char>>, c: char) -> Seq<char>
    decreases parts.len(),
{
    if parts.len() == 0 {
        Seq::empty()
    } else if parts.len() == 1 {
        parts[0]
    } else {
        parts[0] + seq![c] + join_char(parts.drop_first(), c)
    }
}

/// Appending one more part appends the separator and the part.
pub proof fn lemma_join_char_snoc(parts: Seq<Seq<char>>, p: Seq<char>, c: char)
    requires
        parts.len() >= 1,
    ensures
        join_char(parts + seq![p], c) == join_char(parts, c) + seq![c] + p,
    decreases parts.len(),
{
    let whole = parts + seq![p];
    assert(whole[0] == parts[0]);
    if parts.len() == 1 {
        assert(whole.drop_first() =~= seq![p]);
        assert(join_char(whole, c) == whole[0] + seq![c] + join_char(whole.drop_first(), c));
        assert(join_char(whole, c) =~= join_char(parts, c) + seq![c] + p);
    } else {
        lemma_join_char_snoc(parts.drop_first(), p, c);
        assert(whole.drop_first() =~= parts.drop_first() + seq![p]);
        assert(join_char(whole, c) == whole[0] + seq![c] + join_char(whole.drop_first(), c));
        assert(join_char(parts, c) == parts[0] + seq![c] + join_char(parts.drop_first(), c));
        assert(join_char(whole, c) =~= join_char(parts, c) + seq![c] + p);
    }
}

/// Join parts with single occurrences of the separator `c`.
pub fn join_char_strings(parts: &Vec<String>, c: char) -> (s: String)
    requires
        parts@.len() > 0,
    ensures
        s@ == join_char(parts.deep_view(), c),
{
    let mut s = parts[0].clone();
    let mut i: usize = 1;
    while i < parts.len()
        invariant
            1 <= i <= parts@.len(),
            parts@.len() == parts.deep_view().len(),
            s@ == join_char(parts.deep_view().subrange(0, i as int), c),
        decreases parts@.len() - i,
    {
        push_char_string(&mut s, c);
        s.append(parts[i].as_str());
        proof {
            lemma_join_char_snoc(
                parts.deep_view().subrange(0, i as int),
                parts.deep_view()[i as int],
                c,
            );
            assert(parts.deep_view().subrange(0, i as int + 1) =~= parts.deep_view().subrange(
                0,
                i as int,
            ) + seq![parts.deep_view()[i as int]]);
        }
        i = i + 1;
    }
    proof {
        assert(parts.deep_view().subrange(0, parts.deep_view().len() as int) =~= parts.deep_view());
        assert(parts.deep_view().subrange(0, 1)[0] == parts.deep_view()[0]);
    }
    s
}

/// Relies on `String::push`: appends exactly the given character.
#[verifier::external_body]
pub fn push_char_string(s: &mut String, c: char)
    ensures
        final(s)@ == old(s)@ + seq![c],
{
    s.push(c)
}

/// The pieces of `s` between occurrences of `c`: one piece more than there
/// are separators, in order, separators dropped.
pub open spec fn split_char_spec(s: Seq<char>, c: char) -> Seq<Seq<char>>
    decreases s.len(),
{
    let k = find_char(s, c);
    if 0 <= k < s.len() {
        seq![s.subrange(0, k)] + split_char_spec(s.subrange(k + 1, s.len() as int), c)
    } else {
        seq![s]
    }
}

/// Split a string slice at every occurrence of `c`.
pub fn split_char(s: &str, c: char) -> (out: Vec<String>)
    ensures
        out.deep_view() == split_char_spec(s@, c),
    decreases s@.len(),
{
    let n = s.unicode_len();
    let k = str_find_char(s, c);
    proof {
        lemma_find_char(s@, c);
    }
    if k < n {
        let head = s.substring_char(0, k);
        let rest = s.substring_char(k + 1, n);
        proof {
            assert(head@ =~= s@.subrange(0, k as int));
            assert(rest@ =~= s@.subrange(k as int + 1, s@.len() as int));
        }
        let mut tail = split_char(rest, c);
        let ghost tail_view = tail.deep_view();
        let mut out: Vec<String> = Vec::new();
        out.push(String::from_str(head));
        out.append(&mut tail);
        proof {
            assert(out.deep_view() =~= seq![head@] + tail_view);
        }
        out
    } else {
        let mut out: Vec<String> = Vec::new();
        out.push(String::from_str(s));
        proof {
            assert(out.deep_view() =~= seq![s@]);
        }
        out
    }
}

/// In `a + c + b` where `a` is free of `c`, the first `c` is at `a.len()`.
pub proof fn lemma_find_char_concat(a: Seq<char>, b: Seq<char>, c: char)
    requires
        !has_char(a, c),
    ensures
        find_char(a + seq![c] + b, c) == a.len(),
    decreases a.len(),
{
    let s = a + seq![c] + b;
    if a.len() == 0 {
        assert(s[0] == c);
    } else {
        assert(s[0] == a[0]);
        assert(s[0] != c) by {
            assert(a[0] != c);
        }
        assert(s.drop_first() =~= a.drop_first() + seq![c] + b);
        assert(!has_char(a.drop_first(), c)) by {
            if has_char(a.drop_first(), c) {
                let i = choose|i: int| 0 <= i < a.drop_first().len() && a.drop_first()[i] == c;
                assert(a[i + 1] == c);
            }
        }
        lemma_find_char_concat(a.drop_first(), b, c);
    }
}

/// If `c` first appears at `i`, then `find_char` returns `i`.
proof fn lemma_find_char_pins(s: Seq<char>, c: char, i: int)
    requires
        0 <= i < s.len(),
        s[i] == c,
        forall|j: int| 0 <= j < i ==> s[j] != c,
    ensures
        find_char(s, c) == i,
{
    lemma_find_char(s, c);
    let k = find_char(s, c);
    if k < i {
        assert(s[k] != c);
    }
}

} // verus!
