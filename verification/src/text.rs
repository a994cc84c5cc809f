//! Character-sequence utilities: conversions between strings and
//! character vectors, prefix tests, substring search and replacement,
//! line splitting, and whitespace trimming.
//!
//! Every transformation is specified over `Seq<char>` and the
//! executable code is proved against those specifications.

use vstd::prelude::*;

verus! {

/// Whitespace as `char::is_whitespace` defines it: the characters
/// with the Unicode `White_Space` property.
pub open spec fn is_space_char(c: char) -> bool {
    ||| (0x09 <= c as u32 && c as u32 <= 0x0d)
    ||| c as u32 == 0x20
    ||| c as u32 == 0x85
    ||| c as u32 == 0xa0
    ||| c as u32 == 0x1680
    ||| (0x2000 <= c as u32 && c as u32 <= 0x200a)
    ||| c as u32 == 0x2028
    ||| c as u32 == 0x2029
    ||| c as u32 == 0x202f
    ||| c as u32 == 0x205f
    ||| c as u32 == 0x3000
}

/// Decides [`is_space_char`].
pub fn is_space(c: char) -> (r: bool)
    ensures
        r == is_space_char(c),
{
    let u = c as u32;
    (0x09 <= u && u <= 0x0d) || u == 0x20 || u == 0x85 || u == 0xa0 || u == 0x1680 || (0x2000 <= u
        && u <= 0x200a) || u == 0x2028 || u == 0x2029 || u == 0x202f || u == 0x205f || u == 0x3000
}

/// Collects the characters of a string slice into a vector.
pub fn str_to_chars(s: &str) -> (r: Vec<char>)
    ensures
        r@ == s@,
{
    let n = s.unicode_len();
    let mut r: Vec<char> = Vec::new();
    let mut i: usize = 0;
    while i < n
        invariant
            n == s@.len(),
            i <= n,
            r@ == s@.subrange(0, i as int),
        decreases n - i,
    {
        r.push(s.get_char(i));
        assert(r@ =~= s@.subrange(0, i + 1 as int));
        i = i + 1;
    }
    assert(r@ =~= s@);
    r
}

/// Relies on `Iterator::collect` for `String` from characters: the
/// built string holds exactly the given characters in order.
#[verifier::external_body]
pub(crate) fn chars_to_string(v: &Vec<char>) -> (r: String)
    ensures
        r@ == v@,
{
    v.iter().collect()
}

/// Compares two string slices character by character.
pub fn str_eq(a: &str, b: &str) -> (r: bool)
    ensures
        r == (a@ == b@),
{
    let na = a.unicode_len();
    let nb = b.unicode_len();
    if na != nb {
        assert(a@ != b@) by {
            assert(a@.len() != b@.len());
        }
        return false;
    }
    let mut i: usize = 0;
    while i < na
        invariant
            na == a@.len(),
            na == b@.len(),
            i <= na,
            forall|j: int| 0 <= j < i ==> a@[j] == b@[j],
        decreases na - i,
    {
        if a.get_char(i) != b.get_char(i) {
            return false;
        }
        i = i + 1;
    }
    assert(a@ =~= b@);
    true
}

/// True when `p` is a prefix of `s`.
pub open spec fn starts_with(s: Seq<char>, p: Seq<char>) -> bool {
    p.len() <= s.len() && s.subrange(0, p.len() as int) == p
}

/// Decides [`starts_with`] on character vectors.
pub fn chars_start_with(s: &Vec<char>, p: &Vec<char>) -> (r: bool)
    ensures
        r == starts_with(s@, p@),
{
    if p.len() > s.len() {
        return false;
    }
    let mut i: usize = 0;
    while i < p.len()
        invariant
            p@.len() <= s@.len(),
            i <= p@.len(),
            forall|j: int| 0 <= j < i ==> s@[j] == p@[j],
        decreases p@.len() - i,
    {
        if s[i] != p[i] {
            assert(s@.subrange(0, p@.len() as int)[i as int] != p@[i as int]);
            return false;
        }
        i = i + 1;
    }
    assert(s@.subrange(0, p@.len() as int) =~= p@);
    true
}

/// True when `pat` occurs in `s` at position `i`.
pub open spec fn contains_at(s: Seq<char>, pat: Seq<char>, i: int) -> bool {
    0 <= i && i + pat.len() <= s.len() && s.subrange(i, i + pat.len()) == pat
}

/// True when `pat` occurs somewhere in `s`.
pub open spec fn contains_seq(s: Seq<char>, pat: Seq<char>) -> bool {
    exists|i: int| contains_at(s, pat, i)
}

/// An occurrence at the head of a suffix is an occurrence in the whole.
pub proof fn lemma_starts_with_skip(s: Seq<char>, pat: Seq<char>, i: int)
    requires
        0 <= i <= s.len(),
    ensures
        starts_with(s.skip(i), pat) == contains_at(s, pat, i),
{
    if pat.len() <= s.len() - i {
        assert(s.skip(i).subrange(0, pat.len() as int) =~= s.subrange(i, i + pat.len()));
    }
}

/// The copy of `s` without its first `k` characters.
pub fn vec_skip(s: &Vec<char>, k: usize) -> (r: Vec<char>)
    requires
        k <= s@.len(),
    ensures
        r@ == s@.skip(k as int),
{
    let mut r: Vec<char> = Vec::new();
    let mut i: usize = k;
    while i < s.len()
        invariant
            k <= i <= s@.len(),
            r@ == s@.subrange(k as int, i as int),
        decreases s@.len() - i,
    {
        r.push(s[i]);
        assert(r@ =~= s@.subrange(k as int, i + 1 as int));
        i = i + 1;
    }
    assert(r@ =~= s@.skip(k as int));
    r
}

/// Decides whether `pat` occurs in `s` at position `i`.
fn match_at(s: &Vec<char>, pat: &Vec<char>, i: usize) -> (r: bool)
    requires
        i <= s@.len(),
    ensures
        r == contains_at(s@, pat@, i as int),
{
    proof {
        lemma_starts_with_skip(s@, pat@, i as int);
    }
    if pat.len() > s.len() - i {
        return false;
    }
    let n = s.len();
    let mut j: usize = 0;
    while j < pat.len()
        invariant
            n == s@.len(),
            i + pat@.len() <= n,
            j <= pat@.len(),
            forall|t: int| 0 <= t < j ==> s@[i + t] == pat@[t],
        decreases pat@.len() - j,
    {
        if s[i + j] != pat[j] {
            assert(s@.subrange(i as int, i + pat@.len())[j as int] != pat@[j as int]);
            return false;
        }
        j = j + 1;
    }
    assert(s@.subrange(i as int, i + pat@.len()) =~= pat@);
    true
}

/// Every occurrence of `pat` in `s` replaced by `rep`, scanning left to
/// right over non-overlapping occurrences, as `str::replace` does; the
/// replacement text itself is not rescanned.
pub open spec fn replace_seq(s: Seq<char>, pat: Seq<char>, rep: Seq<char>) -> Seq<char>
    recommends
        pat.len() > 0,
    decreases s.len(),
{
    if pat.len() == 0 || s.len() < pat.len() {
        s
    } else if starts_with(s, pat) {
        rep + replace_seq(s.skip(pat.len() as int), pat, rep)
    } else {
        seq![s[0]] + replace_seq(s.skip(1), pat, rep)
    }
}

/// Computes [`replace_seq`] on character vectors.
#[verifier::rlimit(50)]
pub fn replace_chars(s: &Vec<char>, pat: &Vec<char>, rep: &Vec<char>) -> (r: Vec<char>)
    requires
        pat@.len() > 0,
    ensures
        r@ == replace_seq(s@, pat@, rep@),
{
    let mut out: Vec<char> = Vec::new();
    let mut i: usize = 0;
    proof {
        assert(s@.skip(0) =~= s@);
        assert(Seq::<char>::empty() + replace_seq(s@, pat@, rep@) =~= replace_seq(s@, pat@, rep@));
    }
    while i < s.len()
        invariant
            pat@.len() > 0,
            i <= s@.len(),
            replace_seq(s@, pat@, rep@) == out@ + replace_seq(s@.skip(i as int), pat@, rep@),
        decreases s@.len() - i,
    {
        let ghost t = s@.skip(i as int);
        if match_at(s, pat, i) {
            proof {
                lemma_starts_with_skip(s@, pat@, i as int);
                assert(t.skip(pat@.len() as int) =~= s@.skip(i + pat@.len()));
            }
            let mut j: usize = 0;
            let ghost out0 = out@;
            while j < rep.len()
                invariant
                    j <= rep@.len(),
                    out@ == out0 + rep@.subrange(0, j as int),
                decreases rep@.len() - j,
            {
                out.push(rep[j]);
                assert(out@ =~= out0 + rep@.subrange(0, j + 1 as int));
                j = j + 1;
            }
            assert(out@ =~= out0 + rep@);
            i = i + pat.len();
            proof {
                assert(replace_seq(t, pat@, rep@) == rep@ + replace_seq(
                    s@.skip(i as int),
                    pat@,
                    rep@,
                ));
                assert(out0 + (rep@ + replace_seq(s@.skip(i as int), pat@, rep@)) =~= out@
                    + replace_seq(s@.skip(i as int), pat@, rep@));
            }
        } else {
            let ghost out0 = out@;
            proof {
                lemma_starts_with_skip(s@, pat@, i as int);
                assert(t.skip(1) =~= s@.skip(i + 1));
                if t.len() < pat@.len() {
                    // the tail is shorter than the pattern: it is kept as is
                    assert(replace_seq(t, pat@, rep@) == t);
                    assert(t =~= seq![t[0]] + t.skip(1));
                    assert(replace_seq(t.skip(1), pat@, rep@) == t.skip(1));
                } else {
                    assert(replace_seq(t, pat@, rep@) == seq![t[0]] + replace_seq(
                        t.skip(1),
                        pat@,
                        rep@,
                    ));
                }
            }
            out.push(s[i]);
            i = i + 1;
            proof {
                assert(out@ =~= out0 + seq![t[0]]);
                assert(out@ + replace_seq(s@.skip(i as int), pat@, rep@) =~= out0 + (seq![t[0]]
                    + replace_seq(s@.skip(i as int), pat@, rep@)));
            }
        }
    }
    proof {
        assert(s@.skip(i as int) =~= Seq::<char>::empty());
        assert(replace_seq(Seq::<char>::empty(), pat@, rep@) == Seq::<char>::empty());
        assert(out@ + Seq::<char>::empty() =~= out@);
    }
    out
}

/// Replacing a pattern that does not occur changes nothing.
pub proof fn lemma_replace_noop(s: Seq<char>, pat: Seq<char>, rep: Seq<char>)
    requires
        pat.len() > 0,
        !contains_seq(s, pat),
    ensures
        replace_seq(s, pat, rep) == s,
    decreases s.len(),
{
    if s.len() < pat.len() {
    } else {
        assert(!starts_with(s, pat)) by {
            if starts_with(s, pat) {
                lemma_starts_with_skip(s, pat, 0);
                assert(s.skip(0) =~= s);
                assert(contains_at(s, pat, 0));
            }
        }
        assert(!contains_seq(s.skip(1), pat)) by {
            if contains_seq(s.skip(1), pat) {
                let i = choose|i: int| contains_at(s.skip(1), pat, i);
                assert(s.subrange(i + 1, i + 1 + pat.len()) =~= s.skip(1).subrange(
                    i,
                    i + pat.len(),
                ));
                assert(contains_at(s, pat, i + 1));
            }
        }
        lemma_replace_noop(s.skip(1), pat, rep);
        assert(seq![s[0]] + s.skip(1) =~= s);
    }
}

/// The lines of `s`, split on newline characters.
///
/// The result always holds at least one line; a trailing newline
/// contributes a final empty line.
pub open spec fn split_lines(s: Seq<char>) -> Seq<Seq<char>>
    decreases s.len(),
{
    if s.len() == 0 {
        seq![Seq::<char>::empty()]
    } else if s[0] == '\n' {
        seq![Seq::<char>::empty()] + split_lines(s.skip(1))
    } else {
        let rest = split_lines(s.skip(1));
        seq![seq![s[0]] + rest[0]] + rest.skip(1)
    }
}

pub proof fn lemma_split_lines_len(s: Seq<char>)
    ensures
        split_lines(s).len() >= 1,
    decreases s.len(),
{
    if s.len() > 0 {
        lemma_split_lines_len(s.skip(1));
    }
}

/// The first line extended with `c` at the front.
pub open spec fn prepend_first(c: Seq<char>, lines: Seq<Seq<char>>) -> Seq<Seq<char>>
    recommends
        lines.len() >= 1,
{
    seq![c + lines[0]] + lines.skip(1)
}

/// Computes [`split_lines`] on character vectors.
#[verifier::rlimit(50)]
pub fn split_chars(s: &Vec<char>) -> (r: Vec<Vec<char>>)
    ensures
        r.deep_view() == split_lines(s@),
{
    let mut out: Vec<Vec<char>> = Vec::new();
    let mut cur: Vec<char> = Vec::new();
    let mut i: usize = 0;
    proof {
        assert(s@.skip(0) =~= s@);
        lemma_split_lines_len(s@);
        assert(prepend_first(cur@, split_lines(s@)) =~= split_lines(s@));
        assert(out.deep_view() + split_lines(s@) =~= split_lines(s@));
    }
    while i < s.len()
        invariant
            i <= s@.len(),
            split_lines(s@) == out.deep_view() + prepend_first(
                cur@,
                split_lines(s@.skip(i as int)),
            ),
        decreases s@.len() - i,
    {
        let ghost t = s@.skip(i as int);
        let ghost out0 = out.deep_view();
        let ghost cur0 = cur@;
        proof {
            lemma_split_lines_len(t.skip(1));
            assert(t.skip(1) =~= s@.skip(i + 1));
            assert(t[0] == s@[i as int]);
        }
        if s[i] == '\n' {
            out.push(cur);
            cur = Vec::new();
            proof {
                assert(out.deep_view() =~~= out0.push(cur0));
                let rest = split_lines(s@.skip(i + 1));
                assert(split_lines(t) == seq![Seq::<char>::empty()] + rest);
                assert(prepend_first(cur0, split_lines(t)) =~= seq![cur0] + rest);
                assert(prepend_first(cur@, rest) =~= rest);
                assert(out0 + (seq![cur0] + rest) =~= out0.push(cur0) + rest);
            }
        } else {
            cur.push(s[i]);
            proof {
                let rest = split_lines(s@.skip(i + 1));
                assert(split_lines(t) == seq![seq![t[0]] + rest[0]] + rest.skip(1));
                assert(cur@ =~= cur0.push(t[0]));
                assert(cur0 + (seq![t[0]] + rest[0]) =~= cur@ + rest[0]);
                assert(prepend_first(cur0, split_lines(t)) =~= prepend_first(cur@, rest));
            }
        }
        i = i + 1;
    }
    proof {
        assert(s@.skip(i as int) =~= Seq::<char>::empty());
        assert(prepend_first(cur@, split_lines(Seq::<char>::empty())) =~= seq![cur@]);
    }
    let ghost out0 = out.deep_view();
    let ghost cur0 = cur@;
    out.push(cur);
    proof {
        assert(out.deep_view() =~~= out0.push(cur0));
        assert(out0 + seq![cur0] =~= out0.push(cur0));
    }
    out
}

/// True when the line holds only whitespace (or nothing at all).
pub open spec fn is_blank(line: Seq<char>) -> bool {
    forall|j: int| 0 <= j < line.len() ==> is_space_char(#[trigger] line[j])
}

/// Decides [`is_blank`].
pub fn line_is_blank(line: &Vec<char>) -> (r: bool)
    ensures
        r == is_blank(line@),
{
    let mut j: usize = 0;
    while j < line.len()
        invariant
            j <= line@.len(),
            forall|t: int| 0 <= t < j ==> is_space_char(#[trigger] line@[t]),
        decreases line@.len() - j,
    {
        if !is_space(line[j]) {
            return false;
        }
        j = j + 1;
    }
    true
}

/// The lines that are not blank, in order.
pub open spec fn keep_lines(lines: Seq<Seq<char>>) -> Seq<Seq<char>>
    decreases lines.len(),
{
    if lines.len() == 0 {
        Seq::<Seq<char>>::empty()
    } else if is_blank(lines[0]) {
        keep_lines(lines.skip(1))
    } else {
        seq![lines[0]] + keep_lines(lines.skip(1))
    }
}

/// Computes [`keep_lines`] on vectors of lines.
pub fn keep_nonblank(lines: &Vec<Vec<char>>) -> (r: Vec<Vec<char>>)
    ensures
        r.deep_view() == keep_lines(lines.deep_view()),
{
    let ghost all = lines.deep_view();
    let mut out: Vec<Vec<char>> = Vec::new();
    let mut i: usize = 0;
    proof {
        assert(all.skip(0) =~= all);
        assert(out.deep_view() + keep_lines(all) =~= keep_lines(all));
    }
    while i < lines.len()
        invariant
            all == lines.deep_view(),
            i <= all.len(),
            keep_lines(all) == out.deep_view() + keep_lines(all.skip(i as int)),
        decreases all.len() - i,
    {
        let ghost t = all.skip(i as int);
        let ghost out0 = out.deep_view();
        proof {
            assert(t.skip(1) =~= all.skip(i + 1));
            assert(t[0] == lines@[i as int].deep_view());
            assert(lines@[i as int].deep_view() == lines@[i as int]@);
        }
        if !line_is_blank(&lines[i]) {
            out.push(lines[i].clone());
            proof {
                assert(out.deep_view() =~~= out0.push(t[0]));
                assert(out0 + (seq![t[0]] + keep_lines(all.skip(i + 1))) =~= out0.push(t[0])
                    + keep_lines(all.skip(i + 1)));
            }
        }
        i = i + 1;
    }
    proof {
        assert(all.skip(i as int) =~= Seq::<Seq<char>>::empty());
        assert(out.deep_view() + Seq::<Seq<char>>::empty() =~= out.deep_view());
    }
    out
}

/// The lines joined with single newline separators.
pub open spec fn join_lines(lines: Seq<Seq<char>>) -> Seq<char>
    decreases lines.len(),
{
    if lines.len() == 0 {
        Seq::<char>::empty()
    } else if lines.len() == 1 {
        lines[0]
    } else {
        lines[0] + seq!['\n'] + join_lines(lines.skip(1))
    }
}

/// Computes [`join_lines`] on vectors of lines.
#[verifier::rlimit(50)]
pub fn join_with_newlines(lines: &Vec<Vec<char>>) -> (r: Vec<char>)
    ensures
        r@ == join_lines(lines.deep_view()),
{
    let ghost all = lines.deep_view();
    let mut out: Vec<char> = Vec::new();
    let mut i: usize = 0;
    while i < lines.len()
        invariant
            all == lines.deep_view(),
            i <= all.len(),
            i == 0 ==> out@ == Seq::<char>::empty(),
            0 < i < all.len() ==> join_lines(all) == out@ + seq!['\n'] + join_lines(
                all.skip(i as int),
            ),
            i == all.len() ==> out@ == join_lines(all),
        decreases all.len() - i,
    {
        let ghost out0 = out@;
        let ghost t = all.skip(i as int);
        proof {
            assert(t.skip(1) =~= all.skip(i + 1));
            assert(t[0] == lines@[i as int].deep_view());
        }
        if i > 0 {
            out.push('\n');
        }
        let line = &lines[i];
        let mut j: usize = 0;
        let ghost out1 = out@;
        while j < line.len()
            invariant
                j <= line@.len(),
                out@ == out1 + line@.subrange(0, j as int),
            decreases line@.len() - j,
        {
            out.push(line[j]);
            assert(out@ =~= out1 + line@.subrange(0, j + 1 as int));
            j = j + 1;
        }
        proof {
            assert(line@.subrange(0, line@.len() as int) =~= line@);
            assert(line@ == t[0]);
            if i == 0 {
                assert(out@ =~= t[0]);
                if all.len() == 1 {
                    assert(join_lines(all) == all[0]);
                    assert(out@ =~= join_lines(all));
                } else {
                    assert(join_lines(all) == all[0] + seq!['\n'] + join_lines(all.skip(1)));
                }
            } else {
                assert(out@ =~= out0 + seq!['\n'] + t[0]);
                // join of the suffix starting at i unfolds by one line
                if i + 1 < all.len() {
                    assert(join_lines(t) == t[0] + seq!['\n'] + join_lines(t.skip(1)));
                    assert(out0 + seq!['\n'] + (t[0] + seq!['\n'] + join_lines(all.skip(i + 1)))
                        =~= out@ + seq!['\n'] + join_lines(all.skip(i + 1)));
                } else {
                    assert(t.len() == 1);
                    assert(join_lines(t) == t[0]);
                    assert(out0 + seq!['\n'] + t[0] =~= out@);
                }
            }
        }
        i = i + 1;
    }
    proof {
        if all.len() == 0 {
            assert(join_lines(all) == Seq::<char>::empty());
        }
    }
    out
}

/// The character for one decimal digit.
pub open spec fn digit_char(d: int) -> char
    recommends
        0 <= d < 10,
{
    ((48 + d) as u8) as char
}

/// The decimal digits of `n`, most significant first, with no sign
/// and no leading zero (a lone zero for `n == 0`).
pub open spec fn dec_digits(n: int) -> Seq<char>
    recommends
        n >= 0,
    decreases n,
{
    if n < 10 {
        seq![digit_char(n)]
    } else {
        dec_digits(n / 10).push(digit_char(n % 10))
    }
}

/// Appends the decimal digits of `n` to `v`.
fn push_decimal(n: u32, v: &mut Vec<char>)
    ensures
        final(v)@ == old(v)@ + dec_digits(n as int),
    decreases n,
{
    if n < 10 {
        let c = (48 + n as u8) as char;
        v.push(c);
        assert(v@ =~= old(v)@ + seq![digit_char(n as int)]);
    } else {
        push_decimal(n / 10, v);
        let d = (n % 10) as u8;
        let c = (48 + d) as char;
        v.push(c);
        assert(v@ =~= old(v)@ + dec_digits(n as int));
    }
}

/// The decimal rendering of `n`, as `u32::to_string` writes it.
pub fn u32_to_string(n: u32) -> (r: String)
    ensures
        r@ == dec_digits(n as int),
{
    let mut v: Vec<char> = Vec::new();
    push_decimal(n, &mut v);
    assert(v@ =~= dec_digits(n as int));
    chars_to_string(&v)
}

/// `s` without its leading whitespace.
pub open spec fn trim_start_spec(s: Seq<char>) -> Seq<char>
    decreases s.len(),
{
    if s.len() > 0 && is_space_char(s[0]) {
        trim_start_spec(s.skip(1))
    } else {
        s
    }
}

/// `s` without its trailing whitespace.
pub open spec fn trim_end_spec(s: Seq<char>) -> Seq<char>
    decreases s.len(),
{
    if s.len() > 0 && is_space_char(s[s.len() - 1]) {
        trim_end_spec(s.take(s.len() - 1))
    } else {
        s
    }
}

/// `s` without leading and trailing whitespace, as `str::trim` strips it.
pub open spec fn trim_spec(s: Seq<char>) -> Seq<char> {
    trim_end_spec(trim_start_spec(s))
}

/// When the first `k` characters are whitespace and the next one is
/// not, trimming the start drops exactly those `k` characters.
proof fn lemma_trim_start_skip(s: Seq<char>, k: int)
    requires
        0 <= k <= s.len(),
        forall|j: int| 0 <= j < k ==> is_space_char(#[trigger] s[j]),
        k == s.len() || !is_space_char(s[k]),
    ensures
        trim_start_spec(s) == s.skip(k),
    decreases k,
{
    if k == 0 {
        assert(s.skip(0) =~= s);
    } else {
        lemma_trim_start_skip(s.skip(1), k - 1);
        assert(s.skip(1).skip(k - 1) =~= s.skip(k));
    }
}

/// When every character from position `k` on is whitespace and the one
/// before is not, trimming the end keeps exactly the first `k`.
proof fn lemma_trim_end_take(s: Seq<char>, k: int)
    requires
        0 <= k <= s.len(),
        forall|j: int| k <= j < s.len() ==> is_space_char(#[trigger] s[j]),
        k == 0 || !is_space_char(s[k - 1]),
    ensures
        trim_end_spec(s) == s.take(k),
    decreases s.len(),
{
    if k == s.len() {
        assert(s.take(k) =~= s);
    } else {
        assert(is_space_char(s[s.len() - 1]));
        lemma_trim_end_take(s.take(s.len() - 1), k);
        assert(s.take(s.len() - 1).take(k) =~= s.take(k));
    }
}

/// Computes [`trim_spec`] on character vectors.
pub fn trim_chars(s: &Vec<char>) -> (r: Vec<char>)
    ensures
        r@ == trim_spec(s@),
{
    let n = s.len();
    let mut a: usize = 0;
    while a < n && is_space(s[a])
        invariant
            n == s@.len(),
            a <= n,
            forall|j: int| 0 <= j < a ==> is_space_char(#[trigger] s@[j]),
        decreases n - a,
    {
        a = a + 1;
    }
    if a == n {
        proof {
            lemma_trim_start_skip(s@, n as int);
            assert(s@.skip(n as int) =~= Seq::<char>::empty());
        }
        return Vec::new();
    }
    proof {
        lemma_trim_start_skip(s@, a as int);
    }
    let mut b: usize = n;
    while b > a + 1 && is_space(s[b - 1])
        invariant
            n == s@.len(),
            a < b <= n,
            !is_space_char(s@[a as int]),
            forall|j: int| b <= j < n ==> is_space_char(#[trigger] s@[j]),
        decreases b,
    {
        b = b - 1;
    }
    // b > a, and the character before b is not whitespace: either the
    // scan stopped on it, or b == a + 1 and it is the one at a
    proof {
        assert(!is_space_char(s@[b - 1]));
        let t = s@.skip(a as int);
        assert forall|j: int| (b - a) <= j < t.len() implies is_space_char(#[trigger] t[j]) by {
            assert(t[j] == s@[j + a]);
        }
        assert(!is_space_char(t[b - a - 1]));
        lemma_trim_end_take(t, b - a);
        assert(t.take(b - a) =~= s@.subrange(a as int, b as int));
    }
    let mut r: Vec<char> = Vec::new();
    let mut i: usize = a;
    while i < b
        invariant
            a <= i <= b <= s@.len(),
            r@ == s@.subrange(a as int, i as int),
        decreases b - i,
    {
        r.push(s[i]);
        assert(r@ =~= s@.subrange(a as int, i + 1 as int));
        i = i + 1;
    }
    r
}

/// Trimming a string that has no leading or trailing whitespace
/// changes nothing.
pub proof fn lemma_trim_noop(s: Seq<char>)
    requires
        s.len() == 0 || (!is_space_char(s[0]) && !is_space_char(s[s.len() - 1])),
    ensures
        trim_spec(s) == s,
{
    assert(trim_start_spec(s) == s);
    assert(trim_end_spec(s) == s);
}

/// Joining the split of a string restores the string.
pub proof fn lemma_join_split(s: Seq<char>)
    ensures
        join_lines(split_lines(s)) == s,
    decreases s.len(),
{
    lemma_split_lines_len(s);
    if s.len() == 0 {
    } else if s[0] == '\n' {
        lemma_join_split(s.skip(1));
        lemma_split_lines_len(s.skip(1));
        let lines = split_lines(s);
        assert(lines.len() >= 2);
        assert(lines[0] =~= Seq::<char>::empty());
        assert(lines.skip(1) =~= split_lines(s.skip(1)));
        assert(Seq::<char>::empty() + seq!['\n'] + s.skip(1) =~= s);
    } else {
        lemma_join_split(s.skip(1));
        lemma_split_lines_len(s.skip(1));
        let rest = split_lines(s.skip(1));
        let lines = split_lines(s);
        assert(lines[0] == seq![s[0]] + rest[0]);
        if rest.len() == 1 {
            assert(lines.len() == 1);
            assert(join_lines(lines) == lines[0]);
            assert(join_lines(rest) == rest[0]);
            assert(seq![s[0]] + rest[0] =~= s);
        } else {
            assert(lines.len() >= 2);
            assert(lines.skip(1) =~= rest.skip(1));
            assert(join_lines(lines) == lines[0] + seq!['\n'] + join_lines(rest.skip(1)));
            assert(join_lines(rest) == rest[0] + seq!['\n'] + join_lines(rest.skip(1)));
            assert(seq![s[0]] + (rest[0] + seq!['\n'] + join_lines(rest.skip(1))) =~= (seq![s[0]]
                + rest[0]) + seq!['\n'] + join_lines(rest.skip(1)));
            assert(seq![s[0]] + s.skip(1) =~= s);
        }
    }
}

/// Keeping the non-blank lines of a list with no blank line keeps the
/// whole list.
pub proof fn lemma_keep_all(lines: Seq<Seq<char>>)
    requires
        forall|k: int| 0 <= k < lines.len() ==> !is_blank(#[trigger] lines[k]),
    ensures
        keep_lines(lines) == lines,
    decreases lines.len(),
{
    if lines.len() == 0 {
        assert(keep_lines(lines) =~~= lines);
    } else {
        lemma_keep_all(lines.skip(1));
        assert(seq![lines[0]] + lines.skip(1) =~~= lines);
    }
}

/// A string that starts with `p.push(c)` also starts with `p`.
pub proof fn lemma_starts_with_push(s: Seq<char>, p: Seq<char>, c: char)
    requires
        starts_with(s, p.push(c)),
    ensures
        starts_with(s, p),
{
    assert(s.subrange(0, p.len() as int) =~= s.subrange(0, p.len() as int + 1).subrange(
        0,
        p.len() as int,
    ));
    assert(p.push(c).subrange(0, p.len() as int) =~= p);
}

} // verus!
