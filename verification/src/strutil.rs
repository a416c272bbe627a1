//! Verified string helpers: comparison, search, splitting and decimal
//! formatting, all specified over `Seq<char>` views.

use vstd::prelude::*;
use vstd::string::*;

verus! {

/// Relies on `String::push` of std: appends exactly one character at the end.
pub assume_specification[ String::push ](s: &mut String, ch: char)
    ensures
        final(s)@ == old(s)@.push(ch),
;

/// True when `needle` occurs in `hay` starting at position `at`.
pub open spec fn occurs_at(hay: Seq<char>, needle: Seq<char>, at: int) -> bool {
    &&& 0 <= at
    &&& at + needle.len() <= hay.len()
    &&& hay.subrange(at, at + needle.len()) == needle
}

/// True when `needle` occurs anywhere in `hay`.
pub open spec fn contains_seq(hay: Seq<char>, needle: Seq<char>) -> bool {
    exists|at: int| occurs_at(hay, needle, at)
}

/// The characters of a string slice, as a vector.
pub fn chars_of(s: &str) -> (v: Vec<char>)
    ensures
        v@ == s@,
{
    let n = s.unicode_len();
    let mut v: Vec<char> = Vec::new();
    let mut i: usize = 0;
    while i < n
        invariant
            n == s@.len(),
            i <= n,
            v@ == s@.subrange(0, i as int),
        decreases n - i,
    {
        v.push(s.get_char(i));
        i += 1;
        proof {
            assert(v@ =~= s@.subrange(0, i as int));
        }
    }
    proof {
        assert(v@ =~= s@);
    }
    v
}

/// Character-wise string equality.
pub fn str_eq(a: &str, b: &str) -> (r: bool)
    ensures
        r == (a@ == b@),
{
    let na = a.unicode_len();
    let nb = b.unicode_len();
    if na != nb {
        return false;
    }
    let mut i: usize = 0;
    while i < na
        invariant
            na == a@.len() && na == b@.len(),
            i <= na,
            forall|j: int| 0 <= j < i ==> a@[j] == b@[j],
        decreases na - i,
    {
        if a.get_char(i) != b.get_char(i) {
            return false;
        }
        i += 1;
    }
    proof {
        assert(a@ =~= b@);
    }
    true
}

/// True when `needle` occurs at position `at` of `hay`.
fn matches_at(hay: &Vec<char>, needle: &Vec<char>, at: usize) -> (r: bool)
    requires
        at + needle@.len() <= hay@.len(),
    ensures
        r == occurs_at(hay@, needle@, at as int),
{
    let n = needle.len();
    let nh = hay.len();
    let mut j: usize = 0;
    while j < n
        invariant
            n == needle@.len(),
            nh == hay@.len(),
            at + n <= nh,
            j <= n,
            forall|k: int| 0 <= k < j ==> hay@[at + k] == needle@[k],
        decreases n - j,
    {
        if hay[at + j] != needle[j] {
            proof {
                assert(hay@.subrange(at as int, at + needle@.len())[j as int] == hay@[at + j]);
            }
            return false;
        }
        j += 1;
    }
    proof {
        assert(hay@.subrange(at as int, at + needle@.len()) =~= needle@);
    }
    true
}

/// Substring search over character vectors.
pub fn contains_chars(hay: &Vec<char>, needle: &Vec<char>) -> (r: bool)
    ensures
        r == contains_seq(hay@, needle@),
{
    let nh = hay.len();
    let nn = needle.len();
    if nn > nh {
        proof {
            assert(forall|at: int| !occurs_at(hay@, needle@, at));
        }
        return false;
    }
    if nn == 0 {
        proof {
            assert(hay@.subrange(0, 0) =~= needle@);
            assert(occurs_at(hay@, needle@, 0));
        }
        return true;
    }
    let mut at: usize = 0;
    while at <= nh - nn
        invariant
            1 <= nn <= nh,
            nh == hay@.len() && nn == needle@.len(),
            at <= nh - nn + 1,
            forall|p: int| 0 <= p < at ==> !occurs_at(hay@, needle@, p),
        decreases nh - at,
    {
        if matches_at(hay, needle, at) {
            return true;
        }
        at += 1;
    }
    proof {
        assert(forall|p: int| occurs_at(hay@, needle@, p) ==> 0 <= p < at);
    }
    false
}

/// Substring test on string slices.
pub fn str_contains(hay: &str, needle: &str) -> (r: bool)
    ensures
        r == contains_seq(hay@, needle@),
{
    let h = chars_of(hay);
    let n = chars_of(needle);
    contains_chars(&h, &n)
}

/// True when `s` starts with `prefix`.
pub open spec fn starts_with(s: Seq<char>, prefix: Seq<char>) -> bool {
    prefix.len() <= s.len() && s.subrange(0, prefix.len() as int) == prefix
}

/// True when `s` ends with `suffix`.
pub open spec fn ends_with(s: Seq<char>, suffix: Seq<char>) -> bool {
    suffix.len() <= s.len() && s.subrange(s.len() - suffix.len(), s.len() as int) == suffix
}

/// Prefix test on string slices.
pub fn str_starts_with(s: &str, prefix: &str) -> (r: bool)
    ensures
        r == starts_with(s@, prefix@),
{
    let sc = chars_of(s);
    let pc = chars_of(prefix);
    if pc.len() > sc.len() {
        return false;
    }
    matches_at(&sc, &pc, 0)
}

/// Suffix test on string slices.
pub fn str_ends_with(s: &str, suffix: &str) -> (r: bool)
    ensures
        r == ends_with(s@, suffix@),
{
    let sc = chars_of(s);
    let xc = chars_of(suffix);
    if xc.len() > sc.len() {
        return false;
    }
    let at = sc.len() - xc.len();
    matches_at(&sc, &xc, at)
}

/// Copies the characters `from..to` of `s` into a fresh string.
pub fn substring_of(s: &str, from: usize, to: usize) -> (r: String)
    requires
        from <= to <= s@.len(),
    ensures
        r@ == s@.subrange(from as int, to as int),
{
    String::from_str(s.substring_char(from, to))
}

/// The character for one decimal digit.
pub open spec fn digit_char(d: nat) -> char {
    if d == 0 {
        '0'
    } else if d == 1 {
        '1'
    } else if d == 2 {
        '2'
    } else if d == 3 {
        '3'
    } else if d == 4 {
        '4'
    } else if d == 5 {
        '5'
    } else if d == 6 {
        '6'
    } else if d == 7 {
        '7'
    } else if d == 8 {
        '8'
    } else {
        '9'
    }
}

/// The decimal digits of `n`, most significant first.
pub open spec fn dec_digits(n: nat) -> Seq<char>
    decreases n,
{
    if n < 10 {
        seq![digit_char(n)]
    } else {
        dec_digits(n / 10) + seq![digit_char(n % 10)]
    }
}

fn push_digit(out: &mut String, d: u64)
    requires
        d < 10,
    ensures
        final(out)@ == old(out)@.push(digit_char(d as nat)),
{
    let c: char = if d == 0 {
        '0'
    } else if d == 1 {
        '1'
    } else if d == 2 {
        '2'
    } else if d == 3 {
        '3'
    } else if d == 4 {
        '4'
    } else if d == 5 {
        '5'
    } else if d == 6 {
        '6'
    } else if d == 7 {
        '7'
    } else if d == 8 {
        '8'
    } else {
        '9'
    };
    out.push(c);
}

fn u64_to_string_rec(out: &mut String, n: u64)
    ensures
        final(out)@ == old(out)@ + dec_digits(n as nat),
    decreases n,
{
    if n < 10 {
        push_digit(out, n);
        proof {
            assert(out@ =~= old(out)@ + dec_digits(n as nat));
        }
    } else {
        u64_to_string_rec(out, n / 10);
        push_digit(out, n % 10);
        proof {
            assert(out@ =~= old(out)@ + dec_digits(n as nat));
        }
    }
}

/// Formats `n` in decimal.
pub fn u64_to_string(n: u64) -> (r: String)
    ensures
        r@ == dec_digits(n as nat),
{
    let mut out = String::new();
    u64_to_string_rec(&mut out, n);
    proof {
        assert(out@ =~= dec_digits(n as nat));
    }
    out
}

/// Formats `n` in decimal.
pub fn usize_to_string(n: usize) -> (r: String)
    ensures
        r@ == dec_digits(n as nat),
{
    u64_to_string(n as u64)
}

/// Builds a string from a character vector.
pub fn chars_to_string(v: &Vec<char>) -> (r: String)
    ensures
        r@ == v@,
{
    let mut out = String::new();
    let mut i: usize = 0;
    while i < v.len()
        invariant
            i <= v@.len(),
            out@ == v@.subrange(0, i as int),
        decreases v@.len() - i,
    {
        out.push(v[i]);
        i += 1;
        proof {
            assert(out@ =~= v@.subrange(0, i as int));
        }
    }
    proof {
        assert(out@ =~= v@);
    }
    out
}

/// Copies the characters `from..to` of `cs` into a fresh vector.
fn copy_range(cs: &Vec<char>, from: usize, to: usize) -> (r: Vec<char>)
    requires
        from <= to <= cs@.len(),
    ensures
        r@ == cs@.subrange(from as int, to as int),
{
    let mut r: Vec<char> = Vec::new();
    let mut j: usize = from;
    while j < to
        invariant
            from <= j <= to <= cs@.len(),
            r@ == cs@.subrange(from as int, j as int),
        decreases to - j,
    {
        r.push(cs[j]);
        j += 1;
        proof {
            assert(r@ =~= cs@.subrange(from as int, j as int));
        }
    }
    r
}

/// The parts joined by `sep`.
pub open spec fn spec_join(parts: Seq<Seq<char>>, sep: Seq<char>) -> Seq<char>
    decreases parts.len(),
{
    if parts.len() == 0 {
        Seq::empty()
    } else if parts.len() == 1 {
        parts[0]
    } else {
        spec_join(parts.drop_last(), sep) + sep + parts.last()
    }
}

/// Joins the parts with `sep` between each two.
pub fn join_with(parts: &Vec<String>, sep: &str) -> (r: String)
    ensures
        r@ == spec_join(parts@.map_values(|p: String| p@), sep@),
{
    let ghost views = parts@.map_values(|p: String| p@);
    let mut out = String::new();
    let mut i: usize = 0;
    proof {
        assert(views.subrange(0, 0) =~= Seq::<Seq<char>>::empty());
    }
    while i < parts.len()
        invariant
            views == parts@.map_values(|p: String| p@),
            i <= parts@.len(),
            out@ == spec_join(views.subrange(0, i as int), sep@),
        decreases parts@.len() - i,
    {
        if i > 0 {
            out.append(sep);
        }
        out.append(parts[i].as_str());
        i += 1;
        proof {
            assert(views.subrange(0, i as int).drop_last() =~= views.subrange(0, i - 1));
            assert(views.subrange(0, i as int).last() == views[i - 1]);
            if i == 1 {
                assert(out@ =~= spec_join(views.subrange(0, i as int), sep@));
            } else {
                assert(out@ =~= spec_join(views.subrange(0, i as int), sep@));
            }
        }
    }
    proof {
        assert(views.subrange(0, views.len() as int) =~= views);
    }
    out
}

/// `s` without one trailing carriage return.
pub open spec fn strip_cr(s: Seq<char>) -> Seq<char> {
    if s.len() > 0 && s[s.len() - 1] == '\r' {
        s.subrange(0, s.len() - 1)
    } else {
        s
    }
}

fn strip_cr_exec(line: Vec<char>) -> (r: Vec<char>)
    ensures
        r@ == strip_cr(line@),
{
    let ghost orig = line@;
    let mut v = line;
    if v.len() > 0 && v[v.len() - 1] == '\r' {
        v.pop();
        proof {
            assert(v@ =~= strip_cr(orig));
        }
    }
    v
}

/// The index of the first newline of `s`; its length when there is none.
pub open spec fn first_nl(s: Seq<char>) -> nat
    decreases s.len(),
{
    if s.len() == 0 {
        0
    } else if s[0] == '\n' {
        0
    } else {
        1 + first_nl(s.drop_first())
    }
}

proof fn lemma_first_nl_at(s: Seq<char>, k: int)
    requires
        0 <= k < s.len(),
        s[k] == '\n',
        forall|j: int| 0 <= j < k ==> s[j] != '\n',
    ensures
        first_nl(s) == k,
    decreases s.len(),
{
    if s[0] == '\n' {
        if k > 0 {
            assert(s[0] != '\n');
        }
    } else {
        let t = s.drop_first();
        assert(t[k - 1] == '\n');
        assert(forall|j: int| 0 <= j < k - 1 ==> t[j] == s[j + 1]);
        lemma_first_nl_at(t, k - 1);
    }
}

proof fn lemma_first_nl_none(s: Seq<char>)
    requires
        forall|j: int| 0 <= j < s.len() ==> s[j] != '\n',
    ensures
        first_nl(s) == s.len(),
    decreases s.len(),
{
    if s.len() == 0 {
    } else {
        let t = s.drop_first();
        assert(forall|j: int| 0 <= j < t.len() ==> t[j] == s[j + 1]);
        lemma_first_nl_none(t);
    }
}

/// The lines of `s`: split at newline characters, in the manner of
/// `str::lines` (a carriage return directly before a newline is dropped,
/// and a trailing final newline opens no empty last line).
pub open spec fn spec_lines(s: Seq<char>) -> Seq<Seq<char>>
    decreases s.len(),
{
    if s.len() == 0 {
        seq![]
    } else {
        let i = first_nl(s) as int;
        if i < s.len() {
            seq![strip_cr(s.subrange(0, i))] + spec_lines(s.subrange(i + 1, s.len() as int))
        } else {
            seq![strip_cr(s)]
        }
    }
}

/// One line ends at the newline at `i`: folding it into the accumulated
/// lines keeps the split of the whole text.
#[verifier::spinoff_prover]
proof fn lemma_split_step(cs: Seq<char>, start: int, i: int, acc: Seq<Seq<char>>)
    requires
        0 <= start <= i < cs.len(),
        cs[i] == '\n',
        forall|j: int| start <= j < i ==> cs[j] != '\n',
        acc + spec_lines(cs.subrange(start, cs.len() as int)) == spec_lines(cs),
    ensures
        acc.push(strip_cr(cs.subrange(start, i))) + spec_lines(cs.subrange(i + 1, cs.len() as int))
            == spec_lines(cs),
{
    let n = cs.len() as int;
    let rest = cs.subrange(start, n);
    assert(forall|j: int| 0 <= j < rest.len() ==> rest[j] == cs[start + j]);
    assert(rest[i - start] == '\n');
    lemma_first_nl_at(rest, i - start);
    assert(rest.subrange(0, i - start) =~= cs.subrange(start, i));
    assert(rest.subrange(i - start + 1, rest.len() as int) =~= cs.subrange(i + 1, n));
    assert(spec_lines(rest) == seq![strip_cr(cs.subrange(start, i))] + spec_lines(
        cs.subrange(i + 1, n),
    ));
    assert(acc.push(strip_cr(cs.subrange(start, i))) + spec_lines(cs.subrange(i + 1, n)) =~= acc
        + spec_lines(rest));
}

/// A last line without a newline closes the split.
#[verifier::spinoff_prover]
proof fn lemma_split_tail(cs: Seq<char>, start: int, acc: Seq<Seq<char>>)
    requires
        0 <= start < cs.len(),
        forall|j: int| start <= j < cs.len() ==> cs[j] != '\n',
        acc + spec_lines(cs.subrange(start, cs.len() as int)) == spec_lines(cs),
    ensures
        acc.push(strip_cr(cs.subrange(start, cs.len() as int))) == spec_lines(cs),
{
    let n = cs.len() as int;
    let rest = cs.subrange(start, n);
    assert(forall|j: int| 0 <= j < rest.len() ==> rest[j] == cs[start + j]);
    lemma_first_nl_none(rest);
    assert(rest.len() > 0);
    assert(spec_lines(rest) == seq![strip_cr(rest)]);
    assert(acc.push(strip_cr(rest)) =~= acc + spec_lines(rest));
}

/// Appends one line, stripped of a trailing carriage return.
#[verifier::spinoff_prover]
fn emit_line(out: &mut Vec<String>, cs: &Vec<char>, start: usize, upto: usize)
    requires
        start <= upto <= cs@.len(),
    ensures
        final(out)@.map_values(|line: String| line@) == old(out)@.map_values(
            |line: String| line@,
        ).push(strip_cr(cs@.subrange(start as int, upto as int))),
{
    let ghost acc = out@.map_values(|line: String| line@);
    let piece = strip_cr_exec(copy_range(cs, start, upto));
    let piece_str = chars_to_string(&piece);
    out.push(piece_str);
    proof {
        assert(out@.map_values(|line: String| line@) =~= acc.push(piece_str@));
    }
}

/// Splits `s` into its lines.
#[verifier::rlimit(100)]
#[verifier::spinoff_prover]
pub fn split_lines(s: &str) -> (r: Vec<String>)
    ensures
        r@.map_values(|line: String| line@) == spec_lines(s@),
{
    let cs = chars_of(s);
    let n = cs.len();
    let mut out: Vec<String> = Vec::new();
    let mut start: usize = 0;
    let mut i: usize = 0;
    proof {
        assert(cs@.subrange(0, n as int) =~= cs@);
        assert(out@.map_values(|line: String| line@) =~= Seq::<Seq<char>>::empty());
        assert(out@.map_values(|line: String| line@) + spec_lines(
            cs@.subrange(0, n as int),
        ) =~= spec_lines(cs@));
    }
    while i < n
        invariant
            n == cs@.len(),
            cs@ == s@,
            start <= i <= n,
            forall|j: int| start <= j < i ==> cs@[j] != '\n',
            out@.map_values(|line: String| line@) + spec_lines(
                cs@.subrange(start as int, n as int),
            ) == spec_lines(cs@),
        decreases n - i,
    {
        if cs[i] == '\n' {
            proof {
                lemma_split_step(cs@, start as int, i as int, out@.map_values(
                    |line: String| line@,
                ));
            }
            emit_line(&mut out, &cs, start, i);
            start = i + 1;
        }
        i += 1;
    }
    if start < n {
        proof {
            lemma_split_tail(cs@, start as int, out@.map_values(|line: String| line@));
        }
        emit_line(&mut out, &cs, start, n);
    } else {
        proof {
            assert(cs@.subrange(start as int, n as int) =~= Seq::<char>::empty());
            assert(out@.map_values(|line: String| line@) + Seq::<Seq<char>>::empty()
                =~= out@.map_values(|line: String| line@));
        }
    }
    out
}

/// An ASCII whitespace character.
pub open spec fn is_space(c: char) -> bool {
    c == ' ' || c == '\t' || c == '\n' || c == '\r'
}

/// The index of the first whitespace character of `s`; its length when
/// there is none.
pub open spec fn first_space(s: Seq<char>) -> nat
    decreases s.len(),
{
    if s.len() == 0 {
        0
    } else if is_space(s[0]) {
        0
    } else {
        1 + first_space(s.drop_first())
    }
}

proof fn lemma_first_space_at(s: Seq<char>, k: int)
    requires
        0 <= k < s.len(),
        is_space(s[k]),
        forall|j: int| 0 <= j < k ==> !is_space(s[j]),
    ensures
        first_space(s) == k,
    decreases s.len(),
{
    if is_space(s[0]) {
        if k > 0 {
            assert(!is_space(s[0]));
        }
    } else {
        let t = s.drop_first();
        assert(is_space(t[k - 1]));
        assert(forall|j: int| 0 <= j < k - 1 ==> t[j] == s[j + 1]);
        lemma_first_space_at(t, k - 1);
    }
}

proof fn lemma_first_space_none(s: Seq<char>)
    requires
        forall|j: int| 0 <= j < s.len() ==> !is_space(s[j]),
    ensures
        first_space(s) == s.len(),
    decreases s.len(),
{
    if s.len() == 0 {
    } else {
        let t = s.drop_first();
        assert(forall|j: int| 0 <= j < t.len() ==> t[j] == s[j + 1]);
        lemma_first_space_none(t);
    }
}

/// The whitespace-separated words of `s`, in order, in the manner of
/// `str::split_whitespace` restricted to ASCII whitespace.
pub open spec fn spec_words(s: Seq<char>) -> Seq<Seq<char>>
    decreases s.len(),
{
    if s.len() == 0 {
        seq![]
    } else if is_space(s[0]) {
        spec_words(s.drop_first())
    } else {
        let i = first_space(s) as int;
        if i < s.len() {
            seq![s.subrange(0, i)] + spec_words(s.subrange(i, s.len() as int))
        } else {
            seq![s]
        }
    }
}

/// Skipping one leading space keeps the word split.
proof fn lemma_words_skip(cs: Seq<char>, start: int)
    requires
        0 <= start < cs.len(),
        is_space(cs[start]),
    ensures
        spec_words(cs.subrange(start, cs.len() as int)) == spec_words(
            cs.subrange(start + 1, cs.len() as int),
        ),
{
    let n = cs.len() as int;
    let rest = cs.subrange(start, n);
    assert(is_space(rest[0]));
    assert(rest.drop_first() =~= cs.subrange(start + 1, n));
}

/// One word ends at the whitespace at `i`: folding it into the accumulated
/// words keeps the split of the whole text.
#[verifier::spinoff_prover]
proof fn lemma_words_step(cs: Seq<char>, start: int, i: int, acc: Seq<Seq<char>>)
    requires
        0 <= start <= i < cs.len(),
        !is_space(cs[start]),
        is_space(cs[i]),
        start < i,
        forall|j: int| start <= j < i ==> !is_space(cs[j]),
        acc + spec_words(cs.subrange(start, cs.len() as int)) == spec_words(cs),
    ensures
        acc.push(cs.subrange(start, i)) + spec_words(cs.subrange(i, cs.len() as int))
            == spec_words(cs),
{
    let n = cs.len() as int;
    let rest = cs.subrange(start, n);
    assert(forall|j: int| 0 <= j < rest.len() ==> rest[j] == cs[start + j]);
    assert(!is_space(rest[0]));
    assert(is_space(rest[i - start]));
    lemma_first_space_at(rest, i - start);
    assert(rest.subrange(0, i - start) =~= cs.subrange(start, i));
    assert(rest.subrange(i - start, rest.len() as int) =~= cs.subrange(i, n));
    assert(spec_words(rest) == seq![cs.subrange(start, i)] + spec_words(cs.subrange(i, n)));
    assert(acc.push(cs.subrange(start, i)) + spec_words(cs.subrange(i, n)) =~= acc + spec_words(
        rest,
    ));
}

/// A last word without trailing whitespace closes the split.
#[verifier::spinoff_prover]
proof fn lemma_words_tail(cs: Seq<char>, start: int, acc: Seq<Seq<char>>)
    requires
        0 <= start < cs.len(),
        !is_space(cs[start]),
        forall|j: int| start <= j < cs.len() ==> !is_space(cs[j]),
        acc + spec_words(cs.subrange(start, cs.len() as int)) == spec_words(cs),
    ensures
        acc.push(cs.subrange(start, cs.len() as int)) == spec_words(cs),
{
    let n = cs.len() as int;
    let rest = cs.subrange(start, n);
    assert(forall|j: int| 0 <= j < rest.len() ==> rest[j] == cs[start + j]);
    lemma_first_space_none(rest);
    assert(rest.len() > 0);
    assert(!is_space(rest[0]));
    assert(spec_words(rest) == seq![rest]);
    assert(acc.push(rest) =~= acc + spec_words(rest));
}

/// Appends one word.
#[verifier::spinoff_prover]
fn emit_word(out: &mut Vec<String>, cs: &Vec<char>, start: usize, upto: usize)
    requires
        start <= upto <= cs@.len(),
    ensures
        final(out)@.map_values(|w: String| w@) == old(out)@.map_values(|w: String| w@).push(
            cs@.subrange(start as int, upto as int),
        ),
{
    let ghost acc = out@.map_values(|w: String| w@);
    let piece = copy_range(cs, start, upto);
    let piece_str = chars_to_string(&piece);
    out.push(piece_str);
    proof {
        assert(out@.map_values(|w: String| w@) =~= acc.push(piece_str@));
    }
}

/// Splits `s` into its whitespace-separated words.
#[verifier::rlimit(100)]
#[verifier::spinoff_prover]
pub fn split_words(s: &str) -> (r: Vec<String>)
    ensures
        r@.map_values(|w: String| w@) == spec_words(s@),
{
    let cs = chars_of(s);
    let n = cs.len();
    let mut out: Vec<String> = Vec::new();
    let mut start: usize = 0;
    let mut i: usize = 0;
    proof {
        assert(cs@.subrange(0, n as int) =~= cs@);
        assert(out@.map_values(|w: String| w@) =~= Seq::<Seq<char>>::empty());
        assert(out@.map_values(|w: String| w@) + spec_words(cs@.subrange(0, n as int))
            =~= spec_words(cs@));
    }
    while i < n
        invariant
            n == cs@.len(),
            cs@ == s@,
            start <= i <= n,
            start < i ==> !is_space(cs@[start as int]),
            forall|j: int| start <= j < i ==> !is_space(cs@[j]),
            i == start || start < i,
            out@.map_values(|w: String| w@) + spec_words(cs@.subrange(start as int, n as int))
                == spec_words(cs@),
        decreases n - i,
    {
        if char_is_space(cs[i]) {
            if start < i {
                proof {
                    lemma_words_step(cs@, start as int, i as int, out@.map_values(
                        |w: String| w@,
                    ));
                }
                emit_word(&mut out, &cs, start, i);
            }
            proof {
                lemma_words_skip(cs@, i as int);
                assert(cs@.subrange(i as int, n as int).drop_first() =~= cs@.subrange(
                    i + 1,
                    n as int,
                ));
            }
            start = i + 1;
        }
        i += 1;
    }
    if start < n {
        proof {
            lemma_words_tail(cs@, start as int, out@.map_values(|w: String| w@));
        }
        emit_word(&mut out, &cs, start, n);
    } else {
        proof {
            assert(cs@.subrange(start as int, n as int) =~= Seq::<char>::empty());
            assert(out@.map_values(|w: String| w@) + Seq::<Seq<char>>::empty() =~= out@.map_values(
                |w: String| w@,
            ));
        }
    }
    out
}

/// An executable whitespace test matching `is_space`.
pub fn char_is_space(c: char) -> (r: bool)
    ensures
        r == is_space(c),
{
    c == ' ' || c == '\t' || c == '\n' || c == '\r'
}

} // verus!
