//! Character-sequence utilities shared by the heuristic formatters.
//!
//! The formatters work on `Vec<char>` so that every step of their string
//! surgery can be specified over `Seq<char>`. The only trusted item here
//! is the conversion from a character vector back into a `String`.

use vstd::prelude::*;
use vstd::string::StrSliceExecFns;

verus! {

/// The whitespace characters the formatters recognize: the ASCII ones.
pub open spec fn is_space(c: char) -> bool {
    c == ' ' || c == '\t' || c == '\n' || c == '\r' || c == '\u{b}' || c == '\u{c}'
}

/// Runtime counterpart of `is_space`.
pub fn is_space_char(c: char) -> (r: bool)
    ensures
        r == is_space(c),
{
    c == ' ' || c == '\t' || c == '\n' || c == '\r' || c == '\u{b}' || c == '\u{c}'
}

/// `s` without its trailing whitespace.
pub open spec fn trim_end_spec(s: Seq<char>) -> Seq<char>
    decreases s.len(),
{
    if s.len() > 0 && is_space(s.last()) {
        trim_end_spec(s.drop_last())
    } else {
        s
    }
}

/// `s` without its leading whitespace.
pub open spec fn trim_start_spec(s: Seq<char>) -> Seq<char>
    decreases s.len(),
{
    if s.len() > 0 && is_space(s.first()) {
        trim_start_spec(s.drop_first())
    } else {
        s
    }
}

/// `s` without leading and trailing whitespace.
pub open spec fn trim_spec(s: Seq<char>) -> Seq<char> {
    trim_start_spec(trim_end_spec(s))
}

/// Lowercases one character, ASCII-only.
pub open spec fn lower_char(c: char) -> char {
    if 'A' <= c && c <= 'Z' {
        (((c as u8) + 32) as char)
    } else {
        c
    }
}

/// Lowercases a character sequence, ASCII-only.
pub open spec fn lower_spec(s: Seq<char>) -> Seq<char> {
    Seq::new(s.len(), |i: int| lower_char(s[i]))
}

/// Does `p` stand at the start of `s`?
pub open spec fn has_prefix(s: Seq<char>, p: Seq<char>) -> bool {
    p.len() <= s.len() && s.subrange(0, p.len() as int) == p
}

/// Does `p` stand at the end of `s`?
pub open spec fn has_suffix(s: Seq<char>, p: Seq<char>) -> bool {
    p.len() <= s.len() && s.subrange(s.len() - p.len(), s.len() as int) == p
}

/// Copies the characters of a `&str` into a vector.
pub fn str_to_chars(s: &str) -> (r: Vec<char>)
    ensures
        r@ == s@,
{
    let n = s.unicode_len();
    let mut r: Vec<char> = Vec::new();
    let mut i: usize = 0;
    while i < n
        invariant
            i <= n,
            n == s@.len(),
            r@ == s@.take(i as int),
        decreases n - i,
    {
        r.push(s.get_char(i));
        proof {
            assert(r@ =~= s@.take(i + 1));
        }
        i += 1;
    }
    proof {
        assert(r@ =~= s@);
    }
    r
}

/// Relies on `String`'s `FromIterator<char>` impl: collecting the
/// characters of a vector yields the string of exactly those characters.
#[verifier::external_body]
pub fn chars_to_string(v: &Vec<char>) -> (r: String)
    ensures
        r@ == v@,
{
    v.iter().collect()
}

/// Copies `s[from..to]` into a fresh vector.
pub fn subvec(s: &Vec<char>, from: usize, to: usize) -> (r: Vec<char>)
    requires
        from <= to <= s@.len(),
    ensures
        r@ == s@.subrange(from as int, to as int),
{
    let mut r: Vec<char> = Vec::new();
    let mut i: usize = from;
    while i < to
        invariant
            from <= i <= to <= s@.len(),
            r@ == s@.subrange(from as int, i as int),
        decreases to - i,
    {
        r.push(s[i]);
        proof {
            assert(r@ =~= s@.subrange(from as int, i + 1));
        }
        i += 1;
    }
    r
}

/// Trims trailing whitespace from a vector of characters.
pub fn trim_end_chars(s: &Vec<char>) -> (r: Vec<char>)
    ensures
        r@ == trim_end_spec(s@),
{
    let mut n = s.len();
    proof {
        assert(s@.take(n as int) =~= s@);
    }
    while n > 0 && is_space_char(s[n - 1])
        invariant
            n <= s@.len(),
            trim_end_spec(s@) == trim_end_spec(s@.take(n as int)),
        decreases n,
    {
        proof {
            assert(s@.take(n as int).drop_last() =~= s@.take(n - 1));
        }
        n -= 1;
    }
    proof {
        assert(trim_end_spec(s@.take(n as int)) == s@.take(n as int));
        assert(s@.subrange(0, n as int) =~= s@.take(n as int));
    }
    subvec(s, 0, n)
}

/// Trims leading whitespace from a vector of characters.
pub fn trim_start_chars(s: &Vec<char>) -> (r: Vec<char>)
    ensures
        r@ == trim_start_spec(s@),
{
    let mut i: usize = 0;
    proof {
        assert(s@.skip(0) =~= s@);
    }
    while i < s.len() && is_space_char(s[i])
        invariant
            i <= s@.len(),
            trim_start_spec(s@) == trim_start_spec(s@.skip(i as int)),
        decreases s@.len() - i,
    {
        proof {
            assert(s@.skip(i as int).drop_first() =~= s@.skip(i + 1));
        }
        i += 1;
    }
    proof {
        assert(trim_start_spec(s@.skip(i as int)) == s@.skip(i as int));
    }
    subvec(s, i, s.len())
}

/// Trims both ends of a vector of characters.
pub fn trim_chars(s: &Vec<char>) -> (r: Vec<char>)
    ensures
        r@ == trim_spec(s@),
{
    let e = trim_end_chars(s);
    trim_start_chars(&e)
}

/// Lowercases a vector of characters, ASCII-only.
pub fn lower_chars(s: &Vec<char>) -> (r: Vec<char>)
    ensures
        r@ == lower_spec(s@),
{
    let mut r: Vec<char> = Vec::new();
    let mut i: usize = 0;
    while i < s.len()
        invariant
            i <= s@.len(),
            r@.len() == i,
            forall|j: int| 0 <= j < i ==> r@[j] == lower_char(s@[j]),
        decreases s@.len() - i,
    {
        let c = s[i];
        if 'A' <= c && c <= 'Z' {
            r.push(((c as u8) + 32) as char);
        } else {
            r.push(c);
        }
        i += 1;
    }
    proof {
        assert(r@ =~= lower_spec(s@));
    }
    r
}

/// Are two character vectors equal?
pub fn eq_chars(a: &Vec<char>, b: &Vec<char>) -> (r: bool)
    ensures
        r == (a@ == b@),
{
    if a.len() != b.len() {
        return false;
    }
    let mut i: usize = 0;
    while i < a.len()
        invariant
            i <= a@.len(),
            a@.len() == b@.len(),
            forall|j: int| 0 <= j < i ==> a@[j] == b@[j],
        decreases a@.len() - i,
    {
        if a[i] != b[i] {
            return false;
        }
        i += 1;
    }
    proof {
        assert(a@ =~= b@);
    }
    true
}

/// Does `p` stand at the start of `s`? Runtime check.
pub fn starts_with_chars(s: &Vec<char>, p: &Vec<char>) -> (r: bool)
    ensures
        r == has_prefix(s@, p@),
{
    if p.len() > s.len() {
        return false;
    }
    let mut i: usize = 0;
    while i < p.len()
        invariant
            i <= p@.len() <= s@.len(),
            forall|j: int| 0 <= j < i ==> s@[j] == p@[j],
        decreases p@.len() - i,
    {
        if s[i] != p[i] {
            proof {
                assert(s@.subrange(0, p@.len() as int)[i as int] != p@[i as int]);
            }
            return false;
        }
        i += 1;
    }
    proof {
        assert(s@.subrange(0, p@.len() as int) =~= p@);
    }
    true
}

/// Does `p` stand at the end of `s`? Runtime check.
pub fn ends_with_chars(s: &Vec<char>, p: &Vec<char>) -> (r: bool)
    ensures
        r == has_suffix(s@, p@),
{
    if p.len() > s.len() {
        return false;
    }
    let n = s.len();
    let off = n - p.len();
    let mut i: usize = 0;
    while i < p.len()
        invariant
            i <= p@.len() <= s@.len(),
            n == s@.len(),
            off == s@.len() - p@.len(),
            forall|j: int| 0 <= j < i ==> s@[off + j] == p@[j],
        decreases p@.len() - i,
    {
        if s[off + i] != p[i] {
            proof {
                assert(s@.subrange(s@.len() - p@.len(), s@.len() as int)[i as int] != p@[i as int]);
            }
            return false;
        }
        i += 1;
    }
    proof {
        assert(s@.subrange(s@.len() - p@.len(), s@.len() as int) =~= p@);
    }
    true
}

/// Copies a vector of characters.
pub fn copy_chars(s: &Vec<char>) -> (r: Vec<char>)
    ensures
        r@ == s@,
{
    proof {
        assert(s@.subrange(0, s@.len() as int) =~= s@);
    }
    subvec(s, 0, s.len())
}

/// Appends the characters of `other` to `out`.
pub fn append_chars(out: &mut Vec<char>, other: &Vec<char>)
    ensures
        final(out)@ == old(out)@ + other@,
{
    let mut i: usize = 0;
    while i < other.len()
        invariant
            i <= other@.len(),
            out@ == old(out)@ + other@.take(i as int),
        decreases other@.len() - i,
    {
        out.push(other[i]);
        proof {
            assert(old(out)@ + other@.take(i + 1) =~= (old(out)@ + other@.take(i as int)).push(
                other@[i as int],
            ));
        }
        i += 1;
    }
    proof {
        assert(other@.take(other@.len() as int) =~= other@);
    }
}

/// Does `pat` stand in `s` at position `i`?
pub open spec fn match_at(s: Seq<char>, pat: Seq<char>, i: int) -> bool {
    0 <= i && i + pat.len() <= s.len() && s.subrange(i, i + pat.len()) == pat
}

/// Runtime counterpart of `match_at`.
pub fn match_at_chars(s: &Vec<char>, pat: &Vec<char>, i: usize) -> (r: bool)
    requires
        i + pat@.len() <= s@.len(),
    ensures
        r == match_at(s@, pat@, i as int),
{
    let n = s.len();
    let mut j: usize = 0;
    while j < pat.len()
        invariant
            j <= pat@.len(),
            n == s@.len(),
            i + pat@.len() <= s@.len(),
            forall|k: int| 0 <= k < j ==> s@[i + k] == pat@[k],
        decreases pat@.len() - j,
    {
        if s[i + j] != pat[j] {
            proof {
                assert(s@.subrange(i as int, i + pat@.len())[j as int] != pat@[j as int]);
            }
            return false;
        }
        j += 1;
    }
    proof {
        assert(s@.subrange(i as int, i + pat@.len()) =~= pat@);
    }
    true
}

/// Is `pat` a substring of `s`?
pub open spec fn contains_pat(s: Seq<char>, pat: Seq<char>) -> bool {
    exists|i: int| match_at(s, pat, i)
}

/// The position of the first occurrence of `pat` in `s`, if any.
pub open spec fn find_pat(s: Seq<char>, pat: Seq<char>) -> Option<int>
    decreases s.len(),
{
    if pat.len() == 0 {
        Some(0)
    } else if s.len() < pat.len() {
        None
    } else if s.subrange(0, pat.len() as int) == pat {
        Some(0)
    } else {
        match find_pat(s.drop_first(), pat) {
            None => None,
            Some(j) => Some(j + 1),
        }
    }
}

/// `find_pat` returns the least matching position, and `None` exactly
/// when no position matches.
pub proof fn lemma_find_pat(s: Seq<char>, pat: Seq<char>)
    ensures
        match find_pat(s, pat) {
            Some(k) => match_at(s, pat, k) && forall|j: int| 0 <= j < k ==> !match_at(s, pat, j),
            None => forall|j: int| !match_at(s, pat, j),
        },
    decreases s.len(),
{
    if pat.len() == 0 {
        assert(s.subrange(0, 0) =~= pat);
        assert(match_at(s, pat, 0));
    } else if s.len() < pat.len() {
        assert(forall|j: int| !match_at(s, pat, j));
    } else if s.subrange(0, pat.len() as int) == pat {
        assert(match_at(s, pat, 0));
    } else {
        lemma_find_pat(s.drop_first(), pat);
        let t = s.drop_first();
        assert forall|j: int| 0 <= j && j + pat.len() <= t.len() implies #[trigger] t.subrange(
            j,
            j + pat.len(),
        ) == s.subrange(j + 1, j + 1 + pat.len()) by {
            assert(t.subrange(j, j + pat.len()) =~= s.subrange(j + 1, j + 1 + pat.len()));
        }
        assert(forall|j: int| #![auto] 1 <= j ==> (match_at(s, pat, j) <==> match_at(t, pat, j - 1)));
        match find_pat(s, pat) {
            None => {
                assert(forall|j: int| !match_at(s, pat, j));
            },
            Some(k) => {
                assert(match_at(t, pat, k - 1));
                assert(match_at(s, pat, k));
                assert(forall|j: int| 0 <= j < k ==> !match_at(s, pat, j));
            },
        }
    }
}

/// Scans for the first occurrence of `pat` in `s`.
pub fn find_pat_chars(s: &Vec<char>, pat: &Vec<char>) -> (r: Option<usize>)
    ensures
        match r {
            Some(k) => find_pat(s@, pat@) == Some(k as int),
            None => find_pat(s@, pat@) is None,
        },
{
    proof {
        lemma_find_pat(s@, pat@);
    }
    if pat.len() == 0 {
        return Some(0);
    }
    if pat.len() > s.len() {
        return None;
    }
    let n = s.len();
    let last = n - pat.len();
    let mut i: usize = 0;
    while i <= last
        invariant
            i <= last + 1,
            pat@.len() >= 1,
            last == s@.len() - pat@.len(),
            n == s@.len(),
            forall|j: int| 0 <= j < i ==> !match_at(s@, pat@, j),
        decreases last - i + 1,
    {
        if match_at_chars(s, pat, i) {
            proof {
                lemma_find_pat(s@, pat@);
                match find_pat(s@, pat@) {
                    Some(k) => {
                        assert(!(k < i) && !(i < k));
                    },
                    None => {
                        assert(match_at(s@, pat@, i as int));
                    },
                }
            }
            return Some(i);
        }
        i += 1;
    }
    proof {
        lemma_find_pat(s@, pat@);
        assert(forall|j: int| match_at(s@, pat@, j) ==> 0 <= j <= last);
    }
    None
}

/// Scans for any occurrence of `pat` in `s`.
pub fn contains_pat_chars(s: &Vec<char>, pat: &Vec<char>) -> (r: bool)
    ensures
        r == contains_pat(s@, pat@),
{
    proof {
        lemma_find_pat(s@, pat@);
    }
    match find_pat_chars(s, pat) {
        Some(_) => true,
        None => false,
    }
}

/// Every occurrence of `pat` in `s` replaced by `rep`, scanning left to
/// right without revisiting the replacement text.
pub open spec fn replace_all(s: Seq<char>, pat: Seq<char>, rep: Seq<char>) -> Seq<char>
    decreases s.len(),
{
    if pat.len() == 0 || s.len() < pat.len() {
        s
    } else if s.subrange(0, pat.len() as int) == pat {
        rep + replace_all(s.skip(pat.len() as int), pat, rep)
    } else {
        seq![s[0]] + replace_all(s.drop_first(), pat, rep)
    }
}

/// Runtime counterpart of `replace_all`.
pub fn replace_all_chars(s: &Vec<char>, pat: &Vec<char>, rep: &Vec<char>) -> (r: Vec<char>)
    ensures
        r@ == replace_all(s@, pat@, rep@),
{
    if pat.len() == 0 {
        return copy_chars(s);
    }
    let mut out: Vec<char> = Vec::new();
    let mut i: usize = 0;
    proof {
        assert(s@.skip(0) =~= s@);
    }
    while i < s.len()
        invariant
            pat@.len() >= 1,
            i <= s@.len(),
            replace_all(s@, pat@, rep@) == out@ + replace_all(s@.skip(i as int), pat@, rep@),
        decreases s@.len() - i,
    {
        let ghost rem = s@.skip(i as int);
        if pat.len() <= s.len() - i && match_at_chars(s, pat, i) {
            append_chars(&mut out, rep);
            proof {
                assert(rem.subrange(0, pat@.len() as int) =~= s@.subrange(
                    i as int,
                    i + pat@.len(),
                ));
                assert(rem.skip(pat@.len() as int) =~= s@.skip(i + pat@.len()));
                assert(replace_all(rem, pat@, rep@) == rep@ + replace_all(
                    s@.skip(i + pat@.len()),
                    pat@,
                    rep@,
                ));
            }
            i += pat.len();
        } else {
            out.push(s[i]);
            proof {
                assert(rem[0] == s@[i as int]);
                assert(rem.drop_first() =~= s@.skip(i + 1));
                if rem.len() < pat@.len() {
                    assert(replace_all(rem, pat@, rep@) == rem);
                    assert(replace_all(s@.skip(i + 1), pat@, rep@) == s@.skip(i + 1));
                    assert(rem =~= seq![s@[i as int]] + s@.skip(i + 1));
                } else {
                    assert(rem.subrange(0, pat@.len() as int) =~= s@.subrange(
                        i as int,
                        i + pat@.len(),
                    ));
                    assert(rem.subrange(0, pat@.len() as int) != pat@);
                }
                assert(out@ + replace_all(rem, pat@, rep@) == out@.push(s@[i as int])
                    + replace_all(s@.skip(i + 1), pat@, rep@));
            }
            i += 1;
        }
    }
    proof {
        assert(s@.skip(s@.len() as int) =~= Seq::<char>::empty());
    }
    out
}

/// The views of a sequence of character vectors.
pub open spec fn views(parts: Seq<Vec<char>>) -> Seq<Seq<char>> {
    Seq::new(parts.len(), |i: int| parts[i]@)
}

/// `n` spaces (none when `n` is negative).
pub open spec fn spaces(n: int) -> Seq<char> {
    Seq::new(if n >= 0 { n as nat } else { 0 }, |i: int| ' ')
}

/// Appends `per * level` spaces to `out`.
pub fn push_spaces(out: &mut Vec<char>, per: usize, level: usize)
    ensures
        final(out)@ == old(out)@ + spaces(per * level),
{
    let mut k: usize = 0;
    while k < level
        invariant
            k <= level,
            out@ == old(out)@ + spaces(per * k),
        decreases level - k,
    {
        let mut j: usize = 0;
        while j < per
            invariant
                j <= per,
                k < level,
                out@ == old(out)@ + spaces(per * k + j),
            decreases per - j,
        {
            out.push(' ');
            proof {
                assert(out@ =~= old(out)@ + spaces(per * k + j + 1));
            }
            j += 1;
        }
        proof {
            assert(per * k + per == per * (k + 1)) by (nonlinear_arith);
        }
        k += 1;
    }
    proof {
        assert(per * level >= 0) by (nonlinear_arith);
    }
}

/// `s` without its trailing copies of `c`.
pub open spec fn trim_end_char_spec(s: Seq<char>, c: char) -> Seq<char>
    decreases s.len(),
{
    if s.len() > 0 && s.last() == c {
        trim_end_char_spec(s.drop_last(), c)
    } else {
        s
    }
}

/// Trims trailing copies of `c` from a vector of characters.
pub fn trim_end_char(s: &Vec<char>, c: char) -> (r: Vec<char>)
    ensures
        r@ == trim_end_char_spec(s@, c),
{
    let mut n = s.len();
    proof {
        assert(s@.take(n as int) =~= s@);
    }
    while n > 0 && s[n - 1] == c
        invariant
            n <= s@.len(),
            trim_end_char_spec(s@, c) == trim_end_char_spec(s@.take(n as int), c),
        decreases n,
    {
        proof {
            assert(s@.take(n as int).drop_last() =~= s@.take(n - 1));
        }
        n -= 1;
    }
    proof {
        assert(s@.subrange(0, n as int) =~= s@.take(n as int));
    }
    subvec(s, 0, n)
}

/// Does `s` contain the character `c`?
pub fn contains_char(s: &Vec<char>, c: char) -> (r: bool)
    ensures
        r == s@.contains(c),
{
    let mut i: usize = 0;
    while i < s.len()
        invariant
            i <= s@.len(),
            forall|j: int| 0 <= j < i ==> s@[j] != c,
        decreases s@.len() - i,
    {
        if s[i] == c {
            return true;
        }
        i += 1;
    }
    false
}

/// The position of the last occurrence of `c` in `s`, if any.
pub open spec fn rfind_char(s: Seq<char>, c: char) -> Option<int>
    decreases s.len(),
{
    if s.len() == 0 {
        None
    } else if s.last() == c {
        Some(s.len() - 1)
    } else {
        rfind_char(s.drop_last(), c)
    }
}

/// Scans for the last occurrence of `c` in `s`.
pub fn rfind_char_at(s: &Vec<char>, c: char) -> (r: Option<usize>)
    ensures
        match r {
            Some(k) => rfind_char(s@, c) == Some(k as int),
            None => rfind_char(s@, c) is None,
        },
{
    let mut n = s.len();
    proof {
        assert(s@.take(n as int) =~= s@);
    }
    while n > 0
        invariant
            n <= s@.len(),
            rfind_char(s@, c) == rfind_char(s@.take(n as int), c),
        decreases n,
    {
        if s[n - 1] == c {
            return Some(n - 1);
        }
        proof {
            assert(s@.take(n as int).drop_last() =~= s@.take(n - 1));
        }
        n -= 1;
    }
    None
}

/// A found last occurrence lies inside the sequence.
pub proof fn lemma_rfind_char_bounds(s: Seq<char>, c: char)
    ensures
        rfind_char(s, c) matches Some(k) ==> 0 <= k < s.len(),
    decreases s.len(),
{
    if s.len() > 0 && s.last() != c {
        lemma_rfind_char_bounds(s.drop_last(), c);
    }
}

/// The whitespace-separated tokens of `s`, scanned from position `i`
/// with `cur` the token collected so far.
pub open spec fn tokens_from(s: Seq<char>, i: int, cur: Seq<char>) -> Seq<Seq<char>>
    decreases s.len() - i,
    when 0 <= i <= s.len()
{
    if i >= s.len() {
        if cur.len() > 0 {
            seq![cur]
        } else {
            Seq::empty()
        }
    } else if is_space(s[i]) {
        (if cur.len() > 0 {
            seq![cur]
        } else {
            Seq::empty()
        }) + tokens_from(s, i + 1, Seq::empty())
    } else {
        tokens_from(s, i + 1, cur.push(s[i]))
    }
}

/// The whitespace-separated tokens of `s`.
pub open spec fn tokens(s: Seq<char>) -> Seq<Seq<char>> {
    tokens_from(s, 0, Seq::empty())
}

/// Splits `s` into its whitespace-separated tokens.
pub fn tokens_chars(s: &Vec<char>) -> (r: Vec<Vec<char>>)
    ensures
        views(r@) == tokens(s@),
{
    let mut out: Vec<Vec<char>> = Vec::new();
    let mut cur: Vec<char> = Vec::new();
    let mut i: usize = 0;
    while i < s.len()
        invariant
            i <= s@.len(),
            tokens(s@) == views(out@) + tokens_from(s@, i as int, cur@),
        decreases s@.len() - i,
    {
        let ghost gout = views(out@);
        let ghost gcur = cur@;
        if is_space_char(s[i]) {
            if cur.len() > 0 {
                out.push(cur);
                proof {
                    assert(views(out@) =~= gout.push(gcur));
                    assert(gout.push(gcur) + tokens_from(s@, i + 1, Seq::<char>::empty()) =~= gout
                        + (seq![gcur] + tokens_from(s@, i + 1, Seq::<char>::empty())));
                }
                cur = Vec::new();
            } else {
                proof {
                    assert(gcur =~= Seq::<char>::empty());
                    assert(gout + (Seq::<Seq<char>>::empty() + tokens_from(
                        s@,
                        i + 1,
                        Seq::<char>::empty(),
                    )) =~= gout + tokens_from(s@, i + 1, Seq::<char>::empty()));
                }
            }
        } else {
            cur.push(s[i]);
        }
        i += 1;
    }
    let ghost gout = views(out@);
    let ghost gcur = cur@;
    if cur.len() > 0 {
        out.push(cur);
        proof {
            assert(views(out@) =~= gout.push(gcur));
            assert(gout.push(gcur) =~= gout + seq![gcur]);
            assert(tokens(s@) =~= views(out@));
        }
    } else {
        proof {
            assert(gout + Seq::<Seq<char>>::empty() =~= gout);
        }
    }
    out
}

/// The fragments of `s` split on `pat`, scanned from position `i` with
/// `cur` the fragment collected so far.
pub open spec fn split_from(s: Seq<char>, pat: Seq<char>, i: int, cur: Seq<char>) -> Seq<Seq<char>>
    decreases s.len() - i,
    when 0 <= i <= s.len() && pat.len() >= 1
{
    if i + pat.len() > s.len() {
        seq![cur + s.skip(i)]
    } else if s.subrange(i, i + pat.len()) == pat {
        seq![cur] + split_from(s, pat, i + pat.len(), Seq::empty())
    } else {
        split_from(s, pat, i + 1, cur.push(s[i]))
    }
}

/// The fragments of `s` split on `pat`, as `str::split` yields them.
pub open spec fn split_pat(s: Seq<char>, pat: Seq<char>) -> Seq<Seq<char>> {
    split_from(s, pat, 0, Seq::empty())
}

/// Splits `s` on every occurrence of `pat`.
pub fn split_pat_chars(s: &Vec<char>, pat: &Vec<char>) -> (r: Vec<Vec<char>>)
    requires
        pat@.len() >= 1,
    ensures
        views(r@) == split_pat(s@, pat@),
{
    let mut out: Vec<Vec<char>> = Vec::new();
    let mut cur: Vec<char> = Vec::new();
    let mut i: usize = 0;
    let n = s.len();
    while i < n
        invariant
            i <= s@.len(),
            n == s@.len(),
            pat@.len() >= 1,
            split_pat(s@, pat@) == views(out@) + split_from(s@, pat@, i as int, cur@),
        decreases s@.len() - i,
    {
        let ghost gout = views(out@);
        let ghost gcur = cur@;
        if pat.len() <= n - i && match_at_chars(s, pat, i) {
            out.push(cur);
            proof {
                assert(views(out@) =~= gout.push(gcur));
                assert(gout.push(gcur) + split_from(s@, pat@, i + pat@.len(), Seq::<char>::empty())
                    =~= gout + (seq![gcur] + split_from(
                    s@,
                    pat@,
                    i + pat@.len(),
                    Seq::<char>::empty(),
                )));
            }
            cur = Vec::new();
            i += pat.len();
        } else {
            proof {
                if i + pat@.len() > s@.len() {
                    assert(gcur + s@.skip(i as int) =~= gcur.push(s@[i as int]) + s@.skip(i + 1));
                    assert(split_from(s@, pat@, i as int, gcur) == split_from(
                        s@,
                        pat@,
                        i + 1,
                        gcur.push(s@[i as int]),
                    ));
                }
            }
            cur.push(s[i]);
            i += 1;
        }
    }
    let ghost gout = views(out@);
    let ghost gcur = cur@;
    proof {
        assert(gcur + s@.skip(i as int) =~= gcur);
    }
    out.push(cur);
    proof {
        assert(views(out@) =~= gout.push(gcur));
        assert(gout.push(gcur) =~= gout + seq![gcur]);
        assert(split_pat(s@, pat@) =~= views(out@));
    }
    out
}

/// The elements of `parts` from position `i` on, each trimmed, with the
/// ones that trim to nothing dropped.
pub open spec fn trimmed_nonempty(parts: Seq<Seq<char>>, i: int) -> Seq<Seq<char>>
    decreases parts.len() - i,
    when 0 <= i <= parts.len()
{
    if i >= parts.len() {
        Seq::empty()
    } else if trim_spec(parts[i]).len() > 0 {
        seq![trim_spec(parts[i])] + trimmed_nonempty(parts, i + 1)
    } else {
        trimmed_nonempty(parts, i + 1)
    }
}

/// Trims every fragment and drops the empty ones.
pub fn trimmed_nonempty_chars(parts: &Vec<Vec<char>>) -> (r: Vec<Vec<char>>)
    ensures
        views(r@) == trimmed_nonempty(views(parts@), 0),
{
    let mut out: Vec<Vec<char>> = Vec::new();
    let mut i: usize = 0;
    while i < parts.len()
        invariant
            i <= parts@.len(),
            trimmed_nonempty(views(parts@), 0) == views(out@) + trimmed_nonempty(
                views(parts@),
                i as int,
            ),
        decreases parts@.len() - i,
    {
        let t = trim_chars(&parts[i]);
        let ghost gout = views(out@);
        if t.len() > 0 {
            out.push(t);
            proof {
                assert(views(parts@)[i as int] == parts@[i as int]@);
                assert(views(out@) =~= gout.push(trim_spec(views(parts@)[i as int])));
                assert(views(out@) + trimmed_nonempty(views(parts@), i + 1) =~= gout
                    + trimmed_nonempty(views(parts@), i as int));
            }
        } else {
            proof {
                assert(views(parts@)[i as int] == parts@[i as int]@);
            }
        }
        i += 1;
    }
    proof {
        assert(views(out@) + Seq::<Seq<char>>::empty() =~= views(out@));
    }
    out
}

/// The glue-together of the tail of `parts` from position `i`, each
/// element preceded by `sep`.
pub open spec fn join_rest(parts: Seq<Seq<char>>, sep: Seq<char>, i: int) -> Seq<char>
    decreases parts.len() - i,
    when 0 <= i
{
    if i >= parts.len() {
        Seq::empty()
    } else {
        sep + parts[i] + join_rest(parts, sep, i + 1)
    }
}

/// `parts` joined with `sep` between consecutive elements.
pub open spec fn join_with(parts: Seq<Seq<char>>, sep: Seq<char>) -> Seq<char> {
    if parts.len() == 0 {
        Seq::empty()
    } else {
        parts[0] + join_rest(parts, sep, 1)
    }
}

/// Joins the fragments with `sep` between consecutive ones.
pub fn join_chars(parts: &Vec<Vec<char>>, sep: &Vec<char>) -> (r: Vec<char>)
    ensures
        r@ == join_with(views(parts@), sep@),
{
    let mut out: Vec<char> = Vec::new();
    if parts.len() == 0 {
        return out;
    }
    append_chars(&mut out, &parts[0]);
    proof {
        assert(Seq::<char>::empty() + views(parts@)[0] =~= views(parts@)[0]);
    }
    let mut i: usize = 1;
    while i < parts.len()
        invariant
            1 <= i <= parts@.len(),
            join_with(views(parts@), sep@) == out@ + join_rest(views(parts@), sep@, i as int),
        decreases parts@.len() - i,
    {
        let ghost o0 = out@;
        append_chars(&mut out, sep);
        append_chars(&mut out, &parts[i]);
        proof {
            assert(out@ =~= o0 + (sep@ + views(parts@)[i as int]));
            assert(o0 + (sep@ + views(parts@)[i as int] + join_rest(views(parts@), sep@, i + 1))
                =~= out@ + join_rest(views(parts@), sep@, i + 1));
        }
        i += 1;
    }
    proof {
        assert(out@ + Seq::<char>::empty() =~= out@);
    }
    out
}

/// The line before position `i` stripped of one carriage return, as
/// `str::lines` strips it before each newline.
pub open spec fn strip_cr(l: Seq<char>) -> Seq<char> {
    if l.len() > 0 && l.last() == '\r' {
        l.drop_last()
    } else {
        l
    }
}

/// The physical lines of `s`, scanned from position `i` with `cur` the
/// line collected so far.
pub open spec fn lines_from(s: Seq<char>, i: int, cur: Seq<char>) -> Seq<Seq<char>>
    decreases s.len() - i,
    when 0 <= i <= s.len()
{
    if i >= s.len() {
        if cur.len() > 0 {
            seq![cur]
        } else {
            Seq::empty()
        }
    } else if s[i] == '\n' {
        seq![strip_cr(cur)] + lines_from(s, i + 1, Seq::empty())
    } else {
        lines_from(s, i + 1, cur.push(s[i]))
    }
}

/// The physical lines of `s`, as `str::lines` yields them.
pub open spec fn lines_spec(s: Seq<char>) -> Seq<Seq<char>> {
    lines_from(s, 0, Seq::empty())
}

/// Splits `s` into its physical lines.
pub fn lines_chars(s: &Vec<char>) -> (r: Vec<Vec<char>>)
    ensures
        views(r@) == lines_spec(s@),
{
    let mut out: Vec<Vec<char>> = Vec::new();
    let mut cur: Vec<char> = Vec::new();
    let mut i: usize = 0;
    while i < s.len()
        invariant
            i <= s@.len(),
            lines_spec(s@) == views(out@) + lines_from(s@, i as int, cur@),
        decreases s@.len() - i,
    {
        let ghost gout = views(out@);
        let ghost gcur = cur@;
        if s[i] == '\n' {
            let mut line = cur;
            if line.len() > 0 && line[line.len() - 1] == '\r' {
                line.pop();
                proof {
                    assert(line@ =~= strip_cr(gcur));
                }
            }
            out.push(line);
            proof {
                assert(line@ == strip_cr(gcur));
                assert(views(out@) =~= gout.push(strip_cr(gcur)));
                assert(gout.push(strip_cr(gcur)) + lines_from(s@, i + 1, Seq::<char>::empty())
                    =~= gout + (seq![strip_cr(gcur)] + lines_from(
                    s@,
                    i + 1,
                    Seq::<char>::empty(),
                )));
            }
            cur = Vec::new();
        } else {
            cur.push(s[i]);
        }
        i += 1;
    }
    let ghost gout = views(out@);
    let ghost gcur = cur@;
    if cur.len() > 0 {
        out.push(cur);
        proof {
            assert(views(out@) =~= gout.push(gcur));
            assert(gout.push(gcur) =~= gout + seq![gcur]);
            assert(lines_spec(s@) =~= views(out@));
        }
    } else {
        proof {
            assert(gout + Seq::<Seq<char>>::empty() =~= gout);
        }
    }
    out
}

} // verus!
