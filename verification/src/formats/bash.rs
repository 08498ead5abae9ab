//! The shell-script formatter: a single-pass, line-oriented
//! re-indentation and token-normalization engine.
//!
//! Every step of the rewrite is specified over `Seq<char>`; the public
//! `format` function's result is pinned to `bash_format_spec` exactly.

use vstd::prelude::*;

use crate::formats::FormatError;
use crate::formats::text::contains_pat;
use crate::formats::text::find_pat;
use crate::formats::text::has_prefix;
use crate::formats::text::has_suffix;
use crate::formats::text::is_space;
use crate::formats::text::lower_spec;
use crate::formats::text::trim_end_spec;
use crate::formats::text::trim_spec;
use crate::formats::text::trim_start_spec;
use crate::formats::text::contains_pat_chars;
use crate::formats::text::ends_with_chars;
use crate::formats::text::find_pat_chars;
use crate::formats::text::lower_chars;
use crate::formats::text::starts_with_chars;
use crate::formats::text::str_to_chars;
use crate::formats::text::trim_chars;
use crate::formats::text::trim_end_chars;
use crate::formats::text::trim_start_chars;
use crate::formats::text::views;

verus! {

/// Spaces per indentation level.
pub const INDENT: usize = 2;

/// One open `case … esac` block: the indent level of the line that
/// opened it.
#[derive(Debug, Clone, Copy)]
pub struct CaseState {
    pub base_indent: usize,
}

/// The indent levels of the open `case` frames, oldest first.
pub open spec fn frames_view(frames: Seq<CaseState>) -> Seq<int> {
    Seq::new(frames.len(), |i: int| frames[i].base_indent as int)
}

/// The first whitespace-delimited word of a line (empty when the line
/// holds none).
pub open spec fn leading_word(s: Seq<char>) -> Seq<char> {
    if crate::formats::text::tokens(s).len() > 0 {
        crate::formats::text::tokens(s)[0]
    } else {
        Seq::empty()
    }
}

/// The last whitespace-delimited word of a line (empty when the line
/// holds none).
pub open spec fn trailing_word(s: Seq<char>) -> Seq<char> {
    if crate::formats::text::tokens(s).len() > 0 {
        crate::formats::text::tokens(s).last()
    } else {
        Seq::empty()
    }
}

/// Is the line a case-pattern line: inside an open `case` block, not a
/// comment, ending with `)` and not itself beginning with `case `?
pub open spec fn is_case_pattern_spec(line: Seq<char>, stack_nonempty: bool) -> bool {
    let t = trim_spec(line);
    stack_nonempty && !has_prefix(t, "#"@) && has_suffix(t, ")"@) && !has_prefix(t, "case "@)
}

/// Runtime counterpart of `is_case_pattern_spec`.
pub fn is_case_pattern(line: &Vec<char>, case_stack: &Vec<CaseState>) -> (r: bool)
    ensures
        r == is_case_pattern_spec(line@, case_stack@.len() > 0),
{
    if case_stack.len() == 0 {
        return false;
    }
    let t = trim_chars(line);
    if starts_with_chars(&t, &str_to_chars("#")) {
        return false;
    }
    ends_with_chars(&t, &str_to_chars(")")) && !starts_with_chars(&t, &str_to_chars("case "))
}

/// Is the (lowercased) line a case-terminator line (`;;`, `;;&`, `;&`)?
pub open spec fn is_case_terminator_spec(lower: Seq<char>) -> bool {
    has_prefix(lower, ";;"@) || has_prefix(lower, ";;&"@) || has_prefix(lower, ";&"@)
}

/// Runtime counterpart of `is_case_terminator_spec`.
pub fn is_case_terminator(lower: &Vec<char>) -> (r: bool)
    ensures
        r == is_case_terminator_spec(lower@),
{
    starts_with_chars(lower, &str_to_chars(";;")) || starts_with_chars(lower, &str_to_chars(";;&"))
        || starts_with_chars(lower, &str_to_chars(";&"))
}

/// Does a `do`-loop opener head (`for `, `while `, …) match, with the
/// matching `do` somewhere on the same line?
pub open spec fn loop_head_with_do(low: Seq<char>, head: Seq<char>) -> bool {
    has_prefix(low, head) && (contains_pat(low, " do"@) || contains_pat(low, ";do"@) || has_suffix(
        low,
        "do"@,
    ))
}

/// Does the line open a block: a bare `then`/`do`, a one-line
/// `if … then` / loop … `do` header, or a line ending in `{`? Lines
/// carrying a trailing `fi`/`done` are closers, never openers.
pub open spec fn opens_block_spec(line: Seq<char>) -> bool {
    let t = trim_spec(line);
    let low = lower_spec(t);
    if low == "then"@ || low == "do"@ {
        true
    } else if trailing_word(low) == "fi"@ || trailing_word(low) == "done"@ {
        false
    } else if has_prefix(low, "if "@) && (contains_pat(low, " then"@) || contains_pat(
        low,
        ";then"@,
    ) || has_suffix(low, "then"@)) {
        true
    } else if loop_head_with_do(low, "for "@) {
        true
    } else if loop_head_with_do(low, "while "@) {
        true
    } else if loop_head_with_do(low, "until "@) {
        true
    } else if loop_head_with_do(low, "select "@) {
        true
    } else if has_prefix(low, "function "@) && has_suffix(t, "{"@) {
        true
    } else {
        has_suffix(t, "{"@)
    }
}

/// Runtime counterpart of `opens_block_spec`.
pub fn opens_block(line: &Vec<char>) -> (r: bool)
    ensures
        r == opens_block_spec(line@),
{
    let t = trim_chars(line);
    let low = lower_chars(&t);
    let p_do = str_to_chars("do");
    let p_then = str_to_chars("then");
    if eq_low(&low, &p_then) || eq_low(&low, &p_do) {
        return true;
    }
    let words = crate::formats::text::tokens_chars(&low);
    let tw: Vec<char> = if words.len() > 0 {
        crate::formats::text::copy_chars(&words[words.len() - 1])
    } else {
        Vec::new()
    };
    proof {
        if words@.len() > 0 {
            assert(views(words@)[words@.len() - 1] == words@[words@.len() - 1]@);
        }
        assert(tw@ == trailing_word(low@));
    }
    if eq_low(&tw, &str_to_chars("fi")) || eq_low(&tw, &str_to_chars("done")) {
        return false;
    }
    if starts_with_chars(&low, &str_to_chars("if ")) && (contains_pat_chars(
        &low,
        &str_to_chars(" then"),
    ) || contains_pat_chars(&low, &str_to_chars(";then")) || ends_with_chars(&low, &p_then)) {
        return true;
    }
    if loop_head_with_do_chars(&low, &str_to_chars("for ")) {
        return true;
    }
    if loop_head_with_do_chars(&low, &str_to_chars("while ")) {
        return true;
    }
    if loop_head_with_do_chars(&low, &str_to_chars("until ")) {
        return true;
    }
    if loop_head_with_do_chars(&low, &str_to_chars("select ")) {
        return true;
    }
    let brace = str_to_chars("{");
    if starts_with_chars(&low, &str_to_chars("function ")) && ends_with_chars(&t, &brace) {
        return true;
    }
    ends_with_chars(&t, &brace)
}

/// Equality of two character vectors, stated over their views.
fn eq_low(a: &Vec<char>, b: &Vec<char>) -> (r: bool)
    ensures
        r == (a@ == b@),
{
    crate::formats::text::eq_chars(a, b)
}

/// Runtime counterpart of `loop_head_with_do`.
fn loop_head_with_do_chars(low: &Vec<char>, head: &Vec<char>) -> (r: bool)
    ensures
        r == (has_prefix(low@, head@) && (contains_pat(low@, " do"@) || contains_pat(low@, ";do"@)
            || has_suffix(low@, "do"@))),
{
    starts_with_chars(low, head) && (contains_pat_chars(low, &str_to_chars(" do"))
        || contains_pat_chars(low, &str_to_chars(";do")) || ends_with_chars(
        low,
        &str_to_chars("do"),
    ))
}

/// The ASCII whitespace characters, as `u8::is_ascii_whitespace` takes
/// them.
pub open spec fn is_ascii_space(c: char) -> bool {
    c == ' ' || c == '\t' || c == '\n' || c == '\r' || c == '\u{c}'
}

/// The position of the first unquoted, whitespace-preceded `#` in the
/// line, scanning from `i` with the given quote states.
pub open spec fn find_comment_from(l: Seq<char>, i: int, in_s: bool, in_d: bool) -> Option<int>
    decreases l.len() - i,
    when 0 <= i <= l.len()
{
    if i >= l.len() {
        None
    } else if l[i] == '\'' && !in_d {
        find_comment_from(l, i + 1, !in_s, in_d)
    } else if l[i] == '"' && !in_s {
        find_comment_from(l, i + 1, in_s, !in_d)
    } else if l[i] == '#' && !in_s && !in_d && (i == 0 || is_ascii_space(l[i - 1])) {
        Some(i)
    } else {
        find_comment_from(l, i + 1, in_s, in_d)
    }
}

/// The code part of a line: everything before the trailing comment,
/// right-trimmed; the whole line right-trimmed when there is none.
pub open spec fn split_comment_code(l: Seq<char>) -> Seq<char> {
    match find_comment_from(l, 0, false, false) {
        Some(i) => trim_end_spec(l.take(i)),
        None => trim_end_spec(l),
    }
}

/// The trailing comment of a line, from its `#` to the end, if any.
pub open spec fn split_comment_comment(l: Seq<char>) -> Option<Seq<char>> {
    match find_comment_from(l, 0, false, false) {
        Some(i) => Some(l.skip(i)),
        None => None,
    }
}

/// Splits a line into its code part and its optional trailing comment,
/// tracking single- and double-quote state left to right.
pub fn split_comment(line: &Vec<char>) -> (r: (Vec<char>, Option<Vec<char>>))
    ensures
        r.0@ == split_comment_code(line@),
        match r.1 {
            Some(c) => split_comment_comment(line@) == Some(c@),
            None => split_comment_comment(line@) is None,
        },
{
    let mut in_single = false;
    let mut in_double = false;
    let mut i: usize = 0;
    while i < line.len()
        invariant
            i <= line@.len(),
            find_comment_from(line@, 0, false, false) == find_comment_from(
                line@,
                i as int,
                in_single,
                in_double,
            ),
        decreases line@.len() - i,
    {
        let c = line[i];
        if c == '\'' && !in_double {
            in_single = !in_single;
        } else if c == '"' && !in_single {
            in_double = !in_double;
        } else if c == '#' && !in_single && !in_double {
            let preceded = if i == 0 {
                true
            } else {
                let p = line[i - 1];
                p == ' ' || p == '\t' || p == '\n' || p == '\r' || p == '\u{c}'
            };
            if preceded {
                let code = trim_end_chars(&crate::formats::text::subvec(line, 0, i));
                let comment = crate::formats::text::subvec(line, i, line.len());
                proof {
                    assert(line@.subrange(0, i as int) =~= line@.take(i as int));
                    assert(line@.subrange(i as int, line@.len() as int) =~= line@.skip(i as int));
                }
                return (code, Some(comment));
            }
        }
        i += 1;
    }
    let code = trim_end_chars(line);
    (code, None)
}

/// `replace_all` never lengthens its input when the replacement is no
/// longer than the pattern.
pub proof fn lemma_replace_all_le(s: Seq<char>, pat: Seq<char>, rep: Seq<char>)
    requires
        rep.len() <= pat.len(),
    ensures
        crate::formats::text::replace_all(s, pat, rep).len() <= s.len(),
    decreases s.len(),
{
    if pat.len() == 0 || s.len() < pat.len() {
    } else if s.subrange(0, pat.len() as int) == pat {
        lemma_replace_all_le(s.skip(pat.len() as int), pat, rep);
    } else {
        lemma_replace_all_le(s.drop_first(), pat, rep);
    }
}

/// `replace_all` strictly shortens its input when the pattern occurs
/// and the replacement is shorter.
pub proof fn lemma_replace_all_shortens(s: Seq<char>, pat: Seq<char>, rep: Seq<char>)
    requires
        rep.len() < pat.len(),
        contains_pat(s, pat),
    ensures
        crate::formats::text::replace_all(s, pat, rep).len() < s.len(),
    decreases s.len(),
{
    let i = choose|i: int| crate::formats::text::match_at(s, pat, i);
    if s.len() < pat.len() {
        assert(false);
    } else if s.subrange(0, pat.len() as int) == pat {
        lemma_replace_all_le(s.skip(pat.len() as int), pat, rep);
    } else {
        assert(i != 0);
        let t = s.drop_first();
        assert(t.subrange(i - 1, i - 1 + pat.len()) =~= s.subrange(i, i + pat.len()));
        assert(crate::formats::text::match_at(t, pat, i - 1));
        lemma_replace_all_shortens(t, pat, rep);
    }
}

/// `s` with `pat` collapsed to `rep` over and over until no occurrence
/// remains.
pub open spec fn collapse_rep(s: Seq<char>, pat: Seq<char>, rep: Seq<char>) -> Seq<char>
    decreases s.len(),
    when rep.len() < pat.len()
{
    if contains_pat(s, pat) {
        proof {
            lemma_replace_all_shortens(s, pat, rep);
        }
        collapse_rep(crate::formats::text::replace_all(s, pat, rep), pat, rep)
    } else {
        s
    }
}

/// Replaces `pat` by `rep` repeatedly until no occurrence remains.
fn collapse_chars(s: Vec<char>, pat: &Vec<char>, rep: &Vec<char>) -> (r: Vec<char>)
    requires
        rep@.len() < pat@.len(),
    ensures
        r@ == collapse_rep(s@, pat@, rep@),
{
    let ghost s0 = s@;
    let mut cur = s;
    while contains_pat_chars(&cur, pat)
        invariant
            rep@.len() < pat@.len(),
            collapse_rep(s0, pat@, rep@) == collapse_rep(cur@, pat@, rep@),
        decreases cur@.len(),
    {
        proof {
            lemma_replace_all_shortens(cur@, pat@, rep@);
        }
        cur = crate::formats::text::replace_all_chars(&cur, pat, rep);
    }
    cur
}

/// A compact function definition `name(){…}` rewritten to `name() {`
/// with the remainder, if any, following on the same line.
pub open spec fn function_brace_spec(s: Seq<char>) -> Seq<char> {
    match find_pat(s, "(){"@) {
        None => s,
        Some(p) => {
            let name = trim_end_spec(s.take(p));
            let rest = trim_start_spec(s.skip(p + "(){"@.len()));
            if rest.len() == 0 {
                name + "() {"@
            } else {
                name + "() { "@ + rest
            }
        },
    }
}

/// Runtime counterpart of `function_brace_spec`.
pub fn normalize_function_brace(s: &Vec<char>) -> (r: Vec<char>)
    ensures
        r@ == function_brace_spec(s@),
{
    let pat = str_to_chars("(){");
    match find_pat_chars(s, &pat) {
        None => crate::formats::text::copy_chars(s),
        Some(p) => {
            proof {
                crate::formats::text::lemma_find_pat(s@, pat@);
                assert(s@.subrange(0, p as int) =~= s@.take(p as int));
                assert(s@.subrange(p + pat@.len(), s@.len() as int) =~= s@.skip(p + pat@.len()));
            }
            let n = s.len();
            proof {
                assert(p + pat@.len() <= n);
            }
            let name = trim_end_chars(&crate::formats::text::subvec(s, 0, p));
            let rest = trim_start_chars(&crate::formats::text::subvec(s, p + pat.len(), n));
            let mut out = name;
            if rest.len() == 0 {
                crate::formats::text::append_chars(&mut out, &str_to_chars("() {"));
            } else {
                crate::formats::text::append_chars(&mut out, &str_to_chars("() { "));
                let ghost mid = out@;
                crate::formats::text::append_chars(&mut out, &rest);
                proof {
                    assert(out@ =~= trim_end_spec(s@.take(p as int)) + "() { "@ + trim_start_spec(
                        s@.skip(p + "(){"@.len()),
                    ));
                }
            }
            out
        },
    }
}

/// One pass of binary-operator spacing: when `op` occurs, the line is
/// split on it, the fragments trimmed, empty ones dropped, and the rest
/// joined with `spaced` (the operator with one space on each side).
pub open spec fn rejoin_op(s: Seq<char>, op: Seq<char>, spaced: Seq<char>) -> Seq<char> {
    if contains_pat(s, op) {
        crate::formats::text::join_with(
            crate::formats::text::trimmed_nonempty(crate::formats::text::split_pat(s, op), 0),
            spaced,
        )
    } else {
        s
    }
}

/// Spacing of the binary operators `&&`, `||` and `|`, applied in that
/// order.
pub open spec fn binary_ops_spec(s: Seq<char>) -> Seq<char> {
    rejoin_op(rejoin_op(rejoin_op(s, "&&"@, " && "@), "||"@, " || "@), "|"@, " | "@)
}

/// Runtime counterpart of `rejoin_op`.
fn rejoin_op_chars(s: &Vec<char>, op: &Vec<char>, spaced: &Vec<char>) -> (r: Vec<char>)
    requires
        op@.len() >= 1,
    ensures
        r@ == rejoin_op(s@, op@, spaced@),
{
    if contains_pat_chars(s, op) {
        let parts = crate::formats::text::split_pat_chars(s, op);
        let kept = crate::formats::text::trimmed_nonempty_chars(&parts);
        crate::formats::text::join_chars(&kept, spaced)
    } else {
        crate::formats::text::copy_chars(s)
    }
}

/// Runtime counterpart of `binary_ops_spec`.
pub fn normalize_binary_ops(s: &Vec<char>) -> (r: Vec<char>)
    ensures
        r@ == binary_ops_spec(s@),
{
    proof {
        reveal_strlit("&&");
        reveal_strlit("||");
        reveal_strlit("|");
    }
    let t1 = rejoin_op_chars(s, &str_to_chars("&&"), &str_to_chars(" && "));
    let t2 = rejoin_op_chars(&t1, &str_to_chars("||"), &str_to_chars(" || "));
    rejoin_op_chars(&t2, &str_to_chars("|"), &str_to_chars(" | "))
}

/// Splits a token on the longest-first matching redirect operator:
/// the text before it, the operator, and the text after it.
pub open spec fn split_redirect_at(tok: Seq<char>, op: Seq<char>) -> Option<
    (Seq<char>, Seq<char>, Seq<char>),
> {
    match find_pat(tok, op) {
        Some(p) => Some((tok.take(p), op, tok.skip(p + op.len()))),
        None => None,
    }
}

/// The redirect split of a token, trying the operators in the fixed
/// order `<<<`, `<<-`, `<<`, `>>`, `>&`, `&>`, `<&`, `>`, `<`.
pub open spec fn split_redirect_spec(tok: Seq<char>) -> Option<(Seq<char>, Seq<char>, Seq<char>)> {
    if split_redirect_at(tok, "<<<"@) is Some {
        split_redirect_at(tok, "<<<"@)
    } else if split_redirect_at(tok, "<<-"@) is Some {
        split_redirect_at(tok, "<<-"@)
    } else if split_redirect_at(tok, "<<"@) is Some {
        split_redirect_at(tok, "<<"@)
    } else if split_redirect_at(tok, ">>"@) is Some {
        split_redirect_at(tok, ">>"@)
    } else if split_redirect_at(tok, ">&"@) is Some {
        split_redirect_at(tok, ">&"@)
    } else if split_redirect_at(tok, "&>"@) is Some {
        split_redirect_at(tok, "&>"@)
    } else if split_redirect_at(tok, "<&"@) is Some {
        split_redirect_at(tok, "<&"@)
    } else if split_redirect_at(tok, ">"@) is Some {
        split_redirect_at(tok, ">"@)
    } else if split_redirect_at(tok, "<"@) is Some {
        split_redirect_at(tok, "<"@)
    } else {
        None
    }
}

/// Splits one token on its redirect operator, if it carries one.
pub fn split_redirect(tok: &Vec<char>) -> (r: Option<(Vec<char>, Vec<char>, Vec<char>)>)
    ensures
        match r {
            Some((lhs, op, rhs)) => split_redirect_spec(tok@) == Some((lhs@, op@, rhs@)),
            None => split_redirect_spec(tok@) is None,
        },
{
    let mut r = split_redirect_try(tok, &str_to_chars("<<<"));
    if r.is_none() {
        r = split_redirect_try(tok, &str_to_chars("<<-"));
    }
    if r.is_none() {
        r = split_redirect_try(tok, &str_to_chars("<<"));
    }
    if r.is_none() {
        r = split_redirect_try(tok, &str_to_chars(">>"));
    }
    if r.is_none() {
        r = split_redirect_try(tok, &str_to_chars(">&"));
    }
    if r.is_none() {
        r = split_redirect_try(tok, &str_to_chars("&>"));
    }
    if r.is_none() {
        r = split_redirect_try(tok, &str_to_chars("<&"));
    }
    if r.is_none() {
        r = split_redirect_try(tok, &str_to_chars(">"));
    }
    if r.is_none() {
        r = split_redirect_try(tok, &str_to_chars("<"));
    }
    r
}

/// Runtime counterpart of `split_redirect_at`.
fn split_redirect_try(tok: &Vec<char>, op: &Vec<char>) -> (r: Option<
    (Vec<char>, Vec<char>, Vec<char>),
>)
    ensures
        match r {
            Some((lhs, o, rhs)) => split_redirect_at(tok@, op@) == Some((lhs@, o@, rhs@)),
            None => split_redirect_at(tok@, op@) is None,
        },
{
    match find_pat_chars(tok, op) {
        None => None,
        Some(p) => {
            proof {
                crate::formats::text::lemma_find_pat(tok@, op@);
                assert(tok@.subrange(0, p as int) =~= tok@.take(p as int));
                assert(tok@.subrange(p + op@.len(), tok@.len() as int) =~= tok@.skip(
                    p + op@.len(),
                ));
            }
            let n = tok.len();
            proof {
                assert(p + op@.len() <= n);
            }
            let lhs = crate::formats::text::subvec(tok, 0, p);
            let rhs = crate::formats::text::subvec(tok, p + op.len(), n);
            Some((lhs, crate::formats::text::copy_chars(op), rhs))
        },
    }
}

/// The space-joined parts each token of the list contributes after
/// redirect splitting: the sides when non-empty around the operator,
/// or the token itself.
pub open spec fn redirect_parts(toks: Seq<Seq<char>>, i: int) -> Seq<Seq<char>>
    decreases toks.len() - i,
    when 0 <= i
{
    if i >= toks.len() {
        Seq::empty()
    } else {
        (match split_redirect_spec(toks[i]) {
            Some((lhs, op, rhs)) => (if lhs.len() > 0 {
                seq![lhs]
            } else {
                Seq::empty()
            }) + seq![op] + (if rhs.len() > 0 {
                seq![rhs]
            } else {
                Seq::empty()
            }),
            None => seq![toks[i]],
        }) + redirect_parts(toks, i + 1)
    }
}

/// Redirect-operator spacing over the whitespace-split tokens.
pub open spec fn redirects_spec(s: Seq<char>) -> Seq<char> {
    crate::formats::text::join_with(
        redirect_parts(crate::formats::text::tokens(s), 0),
        " "@,
    )
}

/// Runtime counterpart of `redirects_spec`.
pub fn normalize_redirects(s: &Vec<char>) -> (r: Vec<char>)
    ensures
        r@ == redirects_spec(s@),
{
    let toks = crate::formats::text::tokens_chars(s);
    let ghost gt = crate::formats::text::tokens(s@);
    let mut parts: Vec<Vec<char>> = Vec::new();
    let mut i: usize = 0;
    while i < toks.len()
        invariant
            i <= toks@.len(),
            views(toks@) == gt,
            redirect_parts(gt, 0) == views(parts@) + redirect_parts(gt, i as int),
        decreases toks@.len() - i,
    {
        let ghost gparts = views(parts@);
        proof {
            assert(gt[i as int] == toks@[i as int]@);
        }
        match split_redirect(&toks[i]) {
            Some((lhs, op, rhs)) => {
                let ghost chunk = (if lhs@.len() > 0 {
                    seq![lhs@]
                } else {
                    Seq::<Seq<char>>::empty()
                }) + seq![op@] + (if rhs@.len() > 0 {
                    seq![rhs@]
                } else {
                    Seq::<Seq<char>>::empty()
                });
                if lhs.len() > 0 {
                    parts.push(lhs);
                }
                parts.push(op);
                if rhs.len() > 0 {
                    parts.push(rhs);
                }
                proof {
                    assert(views(parts@) =~= gparts + chunk);
                    assert(gparts + chunk + redirect_parts(gt, i + 1) =~= gparts + (chunk
                        + redirect_parts(gt, i + 1)));
                }
            },
            None => {
                parts.push(crate::formats::text::copy_chars(&toks[i]));
                proof {
                    assert(views(parts@) =~= gparts.push(gt[i as int]));
                    assert(gparts.push(gt[i as int]) + redirect_parts(gt, i + 1) =~= gparts + (
                    seq![gt[i as int]] + redirect_parts(gt, i + 1)));
                }
            },
        }
        i += 1;
    }
    proof {
        assert(views(parts@) + Seq::<Seq<char>>::empty() =~= views(parts@));
    }
    crate::formats::text::join_chars(&parts, &str_to_chars(" "))
}

/// Adjacent `>` `<` `!` tokens followed by a bare `=` token merged into
/// `>=` `<=` `!=`, from position `i` on.
pub open spec fn comparator_merge(toks: Seq<Seq<char>>, i: int) -> Seq<Seq<char>>
    decreases toks.len() - i,
    when 0 <= i
{
    if i >= toks.len() {
        Seq::empty()
    } else if i + 1 < toks.len() && (toks[i] == ">"@ || toks[i] == "<"@ || toks[i] == "!"@)
        && toks[i + 1] == "="@ {
        seq![toks[i] + "="@] + comparator_merge(toks, i + 2)
    } else {
        seq![toks[i]] + comparator_merge(toks, i + 1)
    }
}

/// Comparison-operator merging over the whitespace-split tokens.
pub open spec fn comparators_spec(s: Seq<char>) -> Seq<char> {
    crate::formats::text::join_with(
        comparator_merge(crate::formats::text::tokens(s), 0),
        " "@,
    )
}

/// Runtime counterpart of `comparators_spec`.
pub fn normalize_comparators(s: &Vec<char>) -> (r: Vec<char>)
    ensures
        r@ == comparators_spec(s@),
{
    let toks = crate::formats::text::tokens_chars(s);
    let ghost gt = crate::formats::text::tokens(s@);
    let p_gt = str_to_chars(">");
    let p_lt = str_to_chars("<");
    let p_bang = str_to_chars("!");
    let p_eq = str_to_chars("=");
    let mut parts: Vec<Vec<char>> = Vec::new();
    let mut i: usize = 0;
    while i < toks.len()
        invariant
            i <= toks@.len(),
            views(toks@) == gt,
            p_gt@ == ">"@ && p_lt@ == "<"@ && p_bang@ == "!"@ && p_eq@ == "="@,
            comparator_merge(gt, 0) == views(parts@) + comparator_merge(gt, i as int),
        decreases toks@.len() - i,
    {
        let ghost gparts = views(parts@);
        proof {
            assert(gt[i as int] == toks@[i as int]@);
            if i + 1 < toks@.len() {
                assert(gt[i + 1] == toks@[i + 1]@);
            }
        }
        let is_cmp = eq_low(&toks[i], &p_gt) || eq_low(&toks[i], &p_lt) || eq_low(
            &toks[i],
            &p_bang,
        );
        if i + 1 < toks.len() && is_cmp && eq_low(&toks[i + 1], &p_eq) {
            let mut merged = crate::formats::text::copy_chars(&toks[i]);
            crate::formats::text::append_chars(&mut merged, &p_eq);
            parts.push(merged);
            proof {
                assert(views(parts@) =~= gparts.push(gt[i as int] + "="@));
                assert(gparts.push(gt[i as int] + "="@) + comparator_merge(gt, i + 2) =~= gparts
                    + (seq![gt[i as int] + "="@] + comparator_merge(gt, i + 2)));
            }
            i += 2;
        } else {
            parts.push(crate::formats::text::copy_chars(&toks[i]));
            proof {
                assert(views(parts@) =~= gparts.push(gt[i as int]));
                assert(gparts.push(gt[i as int]) + comparator_merge(gt, i + 1) =~= gparts + (
                seq![gt[i as int]] + comparator_merge(gt, i + 1)));
            }
            i += 1;
        }
    }
    proof {
        assert(views(parts@) + Seq::<Seq<char>>::empty() =~= views(parts@));
    }
    crate::formats::text::join_chars(&parts, &str_to_chars(" "))
}

/// The whole token-normalization pipeline over one code segment, in
/// order: tab expansion, `;then`/`;do`/`;else` spacing, collapse of
/// split comparison operators, keyword-`[` spacing, function-brace
/// collapsing, binary-operator spacing, redirect spacing, comparison
/// merging, and a final trim.
pub open spec fn normalize_tokens_spec(input: Seq<char>) -> Seq<char> {
    let t1 = crate::formats::text::replace_all(input, "\t"@, "    "@);
    let t2 = crate::formats::text::replace_all(t1, ";then"@, "; then"@);
    let t3 = crate::formats::text::replace_all(t2, ";do"@, "; do"@);
    let t4 = crate::formats::text::replace_all(t3, ";else"@, "; else"@);
    let t5 = collapse_rep(t4, "> ="@, ">="@);
    let t6 = collapse_rep(t5, "< ="@, "<="@);
    let t7 = collapse_rep(t6, "! ="@, "!="@);
    let t8 = crate::formats::text::replace_all(t7, "if["@, "if ["@);
    let t9 = crate::formats::text::replace_all(t8, "while["@, "while ["@);
    let t10 = crate::formats::text::replace_all(t9, "for["@, "for ["@);
    let t11 = crate::formats::text::replace_all(t10, "until["@, "until ["@);
    let t12 = crate::formats::text::replace_all(t11, "select["@, "select ["@);
    let t13 = function_brace_spec(t12);
    let t14 = binary_ops_spec(t13);
    let t15 = redirects_spec(t14);
    let t16 = comparators_spec(t15);
    trim_spec(t16)
}

/// Runtime counterpart of `normalize_tokens_spec`.
pub fn normalize_tokens(input: &Vec<char>) -> (r: Vec<char>)
    ensures
        r@ == normalize_tokens_spec(input@),
{
    proof {
        reveal_strlit("> =");
        reveal_strlit(">=");
        reveal_strlit("< =");
        reveal_strlit("<=");
        reveal_strlit("! =");
        reveal_strlit("!=");
    }
    let rep = crate::formats::text::replace_all_chars;
    let t1 = rep(input, &str_to_chars("\t"), &str_to_chars("    "));
    let t2 = rep(&t1, &str_to_chars(";then"), &str_to_chars("; then"));
    let t3 = rep(&t2, &str_to_chars(";do"), &str_to_chars("; do"));
    let t4 = rep(&t3, &str_to_chars(";else"), &str_to_chars("; else"));
    let t5 = collapse_chars(t4, &str_to_chars("> ="), &str_to_chars(">="));
    let t6 = collapse_chars(t5, &str_to_chars("< ="), &str_to_chars("<="));
    let t7 = collapse_chars(t6, &str_to_chars("! ="), &str_to_chars("!="));
    let t8 = rep(&t7, &str_to_chars("if["), &str_to_chars("if ["));
    let t9 = rep(&t8, &str_to_chars("while["), &str_to_chars("while ["));
    let t10 = rep(&t9, &str_to_chars("for["), &str_to_chars("for ["));
    let t11 = rep(&t10, &str_to_chars("until["), &str_to_chars("until ["));
    let t12 = rep(&t11, &str_to_chars("select["), &str_to_chars("select ["));
    let t13 = normalize_function_brace(&t12);
    let t14 = normalize_binary_ops(&t13);
    let t15 = normalize_redirects(&t14);
    let t16 = normalize_comparators(&t15);
    trim_chars(&t16)
}

/// The indentation prefix for one level: `INDENT` spaces per level.
pub fn indent_str(level: usize) -> (r: Vec<char>)
    ensures
        r@ == crate::formats::text::spaces(INDENT * level),
{
    let mut v: Vec<char> = Vec::new();
    crate::formats::text::push_spaces(&mut v, INDENT, level);
    proof {
        assert(v@ =~= crate::formats::text::spaces(INDENT * level));
    }
    v
}

/// One line rendered at its indent level: the indentation, the
/// normalized code, and the trailing comment two spaces after the code
/// (or alone when the code normalizes to nothing).
pub open spec fn normalize_line_spec(line: Seq<char>, level: int) -> Seq<char> {
    let code = split_comment_code(line);
    let cp = normalize_tokens_spec(code);
    let ind = crate::formats::text::spaces(INDENT * level);
    match split_comment_comment(line) {
        Some(c) => if cp.len() == 0 {
            ind + c
        } else {
            ind + cp + "  "@ + c
        },
        None => ind + cp,
    }
}

/// Runtime counterpart of `normalize_line_spec`.
pub fn normalize_line(line: &Vec<char>, indent_level: usize) -> (r: Vec<char>)
    ensures
        r@ == normalize_line_spec(line@, indent_level as int),
{
    let (code, comment) = split_comment(line);
    let code_part = normalize_tokens(&code);
    let mut out = indent_str(indent_level);
    let ghost ind = out@;
    match comment {
        Some(c) => {
            if code_part.len() == 0 {
                crate::formats::text::append_chars(&mut out, &c);
            } else {
                crate::formats::text::append_chars(&mut out, &code_part);
                crate::formats::text::append_chars(&mut out, &str_to_chars("  "));
                crate::formats::text::append_chars(&mut out, &c);
                proof {
                    assert(out@ =~= ind + code_part@ + "  "@ + c@);
                }
            }
        },
        None => {
            crate::formats::text::append_chars(&mut out, &code_part);
        },
    }
    out
}

/// Saturating increment within the machine's index range.
pub open spec fn sat_inc(i: int) -> int {
    if i < usize::MAX {
        i + 1
    } else {
        i
    }
}

/// Saturating decrement, stopping at zero.
pub open spec fn sat_dec(i: int) -> int {
    if i > 0 {
        i - 1
    } else {
        0
    }
}

/// Saturating increment by two within the machine's index range.
pub open spec fn sat_inc2(i: int) -> int {
    if i + 2 <= usize::MAX {
        i + 2
    } else {
        usize::MAX as int
    }
}

/// Runtime counterpart of `sat_inc`.
fn sat_inc_u(x: usize) -> (r: usize)
    ensures
        r as int == sat_inc(x as int),
{
    if x < usize::MAX {
        x + 1
    } else {
        x
    }
}

/// Runtime counterpart of `sat_dec`.
fn sat_dec_u(x: usize) -> (r: usize)
    ensures
        r as int == sat_dec(x as int),
{
    if x > 0 {
        x - 1
    } else {
        0
    }
}

/// Runtime counterpart of `sat_inc2`.
fn sat_inc2_u(x: usize) -> (r: usize)
    ensures
        r as int == sat_inc2(x as int),
{
    if x <= usize::MAX - 2 {
        x + 2
    } else {
        usize::MAX
    }
}

/// The number of backslashes at the end of the line.
pub open spec fn trailing_backslashes(s: Seq<char>) -> int
    decreases s.len(),
{
    if s.len() > 0 && s.last() == '\\' {
        1 + trailing_backslashes(s.drop_last())
    } else {
        0
    }
}

/// Does the line end with an unescaped backslash: an odd run of them?
pub open spec fn ends_unescaped_backslash(s: Seq<char>) -> bool {
    trailing_backslashes(s) % 2 == 1
}

/// Counts the trailing backslashes and reports whether the run is odd.
fn ends_backslash_odd(s: &Vec<char>) -> (r: bool)
    ensures
        r == ends_unescaped_backslash(s@),
{
    let len0 = s.len();
    let mut n = len0;
    let mut cnt: usize = 0;
    proof {
        assert(s@.take(n as int) =~= s@);
    }
    while n > 0 && s[n - 1] == '\\'
        invariant
            n <= len0,
            len0 == s@.len(),
            cnt == len0 - n,
            trailing_backslashes(s@) == cnt + trailing_backslashes(s@.take(n as int)),
        decreases n,
    {
        proof {
            assert(s@.take(n as int).drop_last() =~= s@.take(n - 1));
        }
        n -= 1;
        cnt += 1;
    }
    proof {
        assert(trailing_backslashes(s@.take(n as int)) == 0);
    }
    cnt % 2 == 1
}

/// Do the pre-dedent closers apply: the line's leading word is `fi`,
/// `done`, `}` or `esac`?
pub open spec fn dedent_closer(lower: Seq<char>) -> bool {
    leading_word(lower) == "fi"@ || leading_word(lower) == "done"@ || leading_word(lower) == "}"@
        || leading_word(lower) == "esac"@
}

/// Is the line's leading word `elif` or `else`?
pub open spec fn is_elif_else(lower: Seq<char>) -> bool {
    leading_word(lower) == "elif"@ || leading_word(lower) == "else"@
}

/// Is the line's leading word `esac`?
pub open spec fn is_esac(lower: Seq<char>) -> bool {
    leading_word(lower) == "esac"@
}

/// The formatting context threaded across lines: the ambient indent
/// level, whether the previous line continued onto this one, whether
/// the previous emitted line was blank, and the open `case` frames.
pub struct BashState {
    pub indent: int,
    pub continuation: bool,
    pub last_blank: bool,
    pub frames: Seq<int>,
}

/// The state a format call starts from.
pub open spec fn bash_init() -> BashState {
    BashState { indent: 0, continuation: false, last_blank: false, frames: Seq::empty() }
}

/// One line's step of the indentation state machine: what the line
/// emits and the state the next line starts from.
pub open spec fn bash_step(raw: Seq<char>, st: BashState) -> (BashState, Seq<char>) {
    let lt = trim_end_spec(raw);
    if trim_spec(lt).len() == 0 {
        if st.last_blank {
            (st, Seq::empty())
        } else {
            (
                BashState {
                    indent: st.indent,
                    continuation: st.continuation,
                    last_blank: true,
                    frames: st.frames,
                },
                seq!['\n'],
            )
        }
    } else {
        let trimmed = trim_start_spec(lt);
        let lower = lower_spec(trimmed);
        let i1 = if dedent_closer(lower) {
            sat_dec(st.indent)
        } else {
            st.indent
        };
        let i2 = if is_elif_else(lower) {
            sat_dec(i1)
        } else {
            i1
        };
        let pat = is_case_pattern_spec(trimmed, st.frames.len() > 0);
        let term = is_case_terminator_spec(lower);
        let base = if (pat || term) && st.frames.len() > 0 {
            sat_inc(st.frames.last())
        } else {
            i2
        };
        let lvl = if st.continuation {
            sat_inc(base)
        } else {
            base
        };
        let emitted = normalize_line_spec(trimmed, lvl).push('\n');
        let i3 = if has_prefix(lower, "case "@) {
            sat_inc(i2)
        } else if pat {
            if st.frames.len() > 0 {
                sat_inc2(st.frames.last())
            } else {
                sat_inc(i2)
            }
        } else if term {
            if st.frames.len() > 0 {
                sat_inc(st.frames.last())
            } else {
                sat_dec(i2)
            }
        } else if is_elif_else(lower) {
            sat_inc(i2)
        } else {
            i2
        };
        let f1 = if has_prefix(lower, "case "@) {
            st.frames.push(i2)
        } else {
            st.frames
        };
        let i4 = if opens_block_spec(trimmed) {
            sat_inc(i3)
        } else {
            i3
        };
        let i5 = if is_esac(lower) && f1.len() > 0 {
            f1.last()
        } else {
            i4
        };
        let f2 = if is_esac(lower) && f1.len() > 0 {
            f1.drop_last()
        } else {
            f1
        };
        let cont = ends_unescaped_backslash(trim_end_spec(lt));
        (
            BashState { indent: i5, continuation: cont, last_blank: false, frames: f2 },
            emitted,
        )
    }
}

/// The buffer the state machine has assembled once the lines from
/// position `i` on have been folded into state `st` and buffer `acc`.
pub open spec fn bash_run(lines: Seq<Seq<char>>, i: int, st: BashState, acc: Seq<char>) -> Seq<
    char,
>
    decreases lines.len() - i,
    when 0 <= i
{
    if i >= lines.len() {
        acc
    } else {
        bash_run(lines, i + 1, bash_step(lines[i], st).0, acc + bash_step(lines[i], st).1)
    }
}

/// The assembled buffer for the whole input, before the final fix-ups.
pub open spec fn bash_body_spec(text: Seq<char>) -> Seq<char> {
    bash_run(crate::formats::text::lines_spec(text), 0, bash_init(), Seq::empty())
}

/// What formatting produces for the given input text: the assembled
/// buffer, a guaranteed trailing newline, and one defensive global pass
/// collapsing split comparison operators.
pub open spec fn bash_format_spec(text: Seq<char>) -> Seq<char> {
    let r1 = crate::formats::ensure_newline_spec(bash_body_spec(text));
    let r2 = crate::formats::text::replace_all(r1, "> ="@, ">="@);
    let r3 = crate::formats::text::replace_all(r2, "< ="@, "<="@);
    crate::formats::text::replace_all(r3, "! ="@, "!="@)
}

/// Folds one physical line into the formatting context and the output
/// buffer, exactly as `bash_step` describes.
fn run_line(
    line: &Vec<char>,
    indent: &mut usize,
    continuation: &mut bool,
    last_blank: &mut bool,
    case_stack: &mut Vec<CaseState>,
    out: &mut Vec<char>,
)
    ensures
        ({
            let st = BashState {
                indent: *old(indent) as int,
                continuation: *old(continuation),
                last_blank: *old(last_blank),
                frames: frames_view(old(case_stack)@),
            };
            &&& *final(indent) as int == bash_step(line@, st).0.indent
            &&& *final(continuation) == bash_step(line@, st).0.continuation
            &&& *final(last_blank) == bash_step(line@, st).0.last_blank
            &&& frames_view(final(case_stack)@) == bash_step(line@, st).0.frames
            &&& final(out)@ == old(out)@ + bash_step(line@, st).1
        }),
{
    let ghost st = BashState {
        indent: *indent as int,
        continuation: *continuation,
        last_blank: *last_blank,
        frames: frames_view(case_stack@),
    };
    let lt = trim_end_chars(line);
    let t = trim_chars(&lt);
    if t.len() == 0 {
        if !*last_blank {
            out.push('\n');
            *last_blank = true;
            proof {
                assert(out@ =~= old(out)@ + seq!['\n']);
            }
        } else {
            proof {
                assert(out@ =~= old(out)@ + Seq::<char>::empty());
            }
        }
        return ;
    }
    *last_blank = false;
    let trimmed = trim_start_chars(&lt);
    let lower = lower_chars(&trimmed);
    let words = crate::formats::text::tokens_chars(&lower);
    let lw: Vec<char> = if words.len() > 0 {
        crate::formats::text::copy_chars(&words[0])
    } else {
        Vec::new()
    };
    proof {
        if words@.len() > 0 {
            assert(views(words@)[0] == words@[0]@);
        }
        assert(lw@ == leading_word(lower@));
    }
    let p_fi = str_to_chars("fi");
    let p_done = str_to_chars("done");
    let p_closing = str_to_chars("}");
    let p_esac = str_to_chars("esac");
    let p_elif = str_to_chars("elif");
    let p_else = str_to_chars("else");
    let p_case = str_to_chars("case ");
    if eq_low(&lw, &p_fi) || eq_low(&lw, &p_done) || eq_low(&lw, &p_closing) || eq_low(
        &lw,
        &p_esac,
    ) {
        *indent = sat_dec_u(*indent);
    }
    if eq_low(&lw, &p_elif) || eq_low(&lw, &p_else) {
        *indent = sat_dec_u(*indent);
    }
    let ghost i2 = *indent as int;
    let is_pat = is_case_pattern(&trimmed, case_stack);
    let is_term = is_case_terminator(&lower);
    let base: usize = if (is_pat || is_term) && case_stack.len() > 0 {
        sat_inc_u(case_stack[case_stack.len() - 1].base_indent)
    } else {
        *indent
    };
    let lvl = if *continuation {
        sat_inc_u(base)
    } else {
        base
    };
    let formatted = normalize_line(&trimmed, lvl);
    let ghost out_before = out@;
    crate::formats::text::append_chars(out, &formatted);
    out.push('\n');
    proof {
        assert(out@ =~= old(out)@ + normalize_line_spec(trimmed@, lvl as int).push('\n'));
    }
    let ghost frames0 = frames_view(case_stack@);
    if starts_with_chars(&lower, &p_case) {
        let b = *indent;
        case_stack.push(CaseState { base_indent: b });
        *indent = sat_inc_u(b);
        proof {
            assert(frames_view(case_stack@) =~= frames0.push(b as int));
        }
    } else if is_pat {
        if case_stack.len() > 0 {
            *indent = sat_inc2_u(case_stack[case_stack.len() - 1].base_indent);
        } else {
            *indent = sat_inc_u(*indent);
        }
    } else if is_term {
        if case_stack.len() > 0 {
            *indent = sat_inc_u(case_stack[case_stack.len() - 1].base_indent);
        } else {
            *indent = sat_dec_u(*indent);
        }
    } else if eq_low(&lw, &p_elif) || eq_low(&lw, &p_else) {
        *indent = sat_inc_u(*indent);
    }
    if opens_block(&trimmed) {
        *indent = sat_inc_u(*indent);
    }
    if eq_low(&lw, &p_esac) && case_stack.len() > 0 {
        let ghost frames1 = frames_view(case_stack@);
        let f = case_stack[case_stack.len() - 1];
        case_stack.pop();
        *indent = f.base_indent;
        proof {
            assert(frames_view(case_stack@) =~= frames1.drop_last());
        }
    }
    let lt2 = trim_end_chars(&lt);
    *continuation = ends_backslash_odd(&lt2);
}

/// Formats shell-script source text.
///
/// The heuristic rewrite always succeeds: the result is `Ok(None)` when
/// the input is empty or already canonical, and otherwise `Ok` of the
/// rewritten buffer, which is exactly `bash_format_spec` of the input.
/// The path hint takes no part in the rewrite.
pub open spec fn format_post(text: Seq<char>, r: Result<Option<String>, FormatError>) -> bool {
    &&& text.len() == 0 ==> (r matches Ok(o) && o is None)
    &&& text.len() > 0 && bash_format_spec(text) == text ==> (r matches Ok(o) && o is None)
    &&& text.len() > 0 && bash_format_spec(text) != text ==> (r matches Ok(o) && (o matches Some(s)
        && s@ == bash_format_spec(text)))
}

pub fn format(_path: &str, text: &str) -> (r: Result<Option<String>, FormatError>)
    ensures
        format_post(text@, r),
{
    let chars = str_to_chars(text);
    if chars.len() == 0 {
        return Ok(None);
    }
    let lines = crate::formats::text::lines_chars(&chars);
    let mut out: Vec<char> = Vec::new();
    let mut indent: usize = 0;
    let mut continuation = false;
    let mut last_blank = false;
    let mut case_stack: Vec<CaseState> = Vec::new();
    let mut li: usize = 0;
    proof {
        assert(frames_view(case_stack@) =~= Seq::<int>::empty());
        assert(BashState {
            indent: indent as int,
            continuation: continuation,
            last_blank: last_blank,
            frames: frames_view(case_stack@),
        } == bash_init());
    }
    while li < lines.len()
        invariant
            li <= lines@.len(),
            views(lines@) == crate::formats::text::lines_spec(text@),
            bash_body_spec(text@) == bash_run(
                views(lines@),
                li as int,
                BashState {
                    indent: indent as int,
                    continuation: continuation,
                    last_blank: last_blank,
                    frames: frames_view(case_stack@),
                },
                out@,
            ),
        decreases lines@.len() - li,
    {
        proof {
            assert(views(lines@)[li as int] == lines@[li as int]@);
        }
        run_line(&lines[li], &mut indent, &mut continuation, &mut last_blank, &mut case_stack,
            &mut out);
        li += 1;
    }
    let mut result = out;
    if result.len() == 0 || result[result.len() - 1] != '\n' {
        result.push('\n');
    }
    proof {
        assert(result@ == crate::formats::ensure_newline_spec(bash_body_spec(text@)));
    }
    let r2 = crate::formats::text::replace_all_chars(
        &result,
        &str_to_chars("> ="),
        &str_to_chars(">="),
    );
    let r3 = crate::formats::text::replace_all_chars(
        &r2,
        &str_to_chars("< ="),
        &str_to_chars("<="),
    );
    let r4 = crate::formats::text::replace_all_chars(
        &r3,
        &str_to_chars("! ="),
        &str_to_chars("!="),
    );
    if crate::formats::text::eq_chars(&r4, &chars) {
        Ok(None)
    } else {
        Ok(Some(crate::formats::text::chars_to_string(&r4)))
    }
}

/// Does the text end with exactly one newline: at least one, and no
/// second one right before it?
pub open spec fn exactly_one_trailing(s: Seq<char>) -> bool {
    s.len() >= 1 && s.last() == '\n' && (s.len() == 1 || s[s.len() - 2] != '\n')
}

/// A newline-free replacement keeps a trailing newline in place.
proof fn lemma_replace_trailing_nl(s: Seq<char>, pat: Seq<char>, rep: Seq<char>)
    requires
        !pat.contains('\n'),
        s.len() >= 1,
        s.last() == '\n',
    ensures
        crate::formats::text::replace_all(s, pat, rep).len() >= 1,
        crate::formats::text::replace_all(s, pat, rep).last() == '\n',
    decreases s.len(),
{
    if pat.len() == 0 || s.len() < pat.len() {
    } else if s.subrange(0, pat.len() as int) == pat {
        if s.len() == pat.len() {
            assert(s.take(pat.len() as int) =~= s);
            assert(pat.contains('\n')) by {
                assert(pat[pat.len() - 1] == '\n');
            }
        }
        lemma_replace_trailing_nl(s.skip(pat.len() as int), pat, rep);
    } else {
        if s.len() == 1 {
            assert(s.drop_first().len() == 0);
        } else {
            lemma_replace_trailing_nl(s.drop_first(), pat, rep);
        }
    }
}

/// A newline-free, non-empty replacement keeps "exactly one trailing
/// newline" in place, and never shrinks a two-character text to one.
proof fn lemma_replace_exactly_one(s: Seq<char>, pat: Seq<char>, rep: Seq<char>)
    requires
        !pat.contains('\n'),
        !rep.contains('\n'),
        rep.len() >= 1,
        exactly_one_trailing(s),
    ensures
        exactly_one_trailing(crate::formats::text::replace_all(s, pat, rep)),
        s.len() >= 2 ==> crate::formats::text::replace_all(s, pat, rep).len() >= 2,
    decreases s.len(),
{
    let result = crate::formats::text::replace_all(s, pat, rep);
    if pat.len() == 0 || s.len() < pat.len() {
    } else if s.subrange(0, pat.len() as int) == pat {
        if s.len() == pat.len() {
            assert(s.take(pat.len() as int) =~= s);
            assert(pat.contains('\n')) by {
                assert(pat[pat.len() - 1] == '\n');
            }
        }
        let sk = s.skip(pat.len() as int);
        assert(sk.len() >= 1);
        assert(exactly_one_trailing(sk));
        lemma_replace_exactly_one(sk, pat, rep);
        let rr = crate::formats::text::replace_all(sk, pat, rep);
        assert(result == rep + rr);
        if rr.len() == 1 {
            assert(rep.last() != '\n') by {
                if rep.last() == '\n' {
                    assert(rep.contains('\n')) by {
                        assert(rep[rep.len() - 1] == '\n');
                    }
                }
            }
        }
    } else {
        if s.len() == 1 {
        } else {
            let d = s.drop_first();
            assert(exactly_one_trailing(d));
            lemma_replace_exactly_one(d, pat, rep);
            let rr = crate::formats::text::replace_all(d, pat, rep);
            assert(result == seq![s[0]] + rr);
            if rr.len() == 1 {
                assert(d.len() == 1);
                assert(s[0] == s[s.len() - 2]);
            }
        }
    }
}

/// Law (trailing newline): every rewritten shell buffer ends with a
/// newline; and whenever the assembled body, once a newline is
/// guaranteed, ends with exactly one, the final comparison-operator
/// fix-ups keep it at exactly one. (The qualification is needed
/// because an input whose last lines are blank — `"a\n\n\n"` — yields
/// a buffer that itself ends in a blank line.)
pub proof fn lemma_trailing_newline(text: Seq<char>)
    ensures
        bash_format_spec(text).len() >= 1,
        bash_format_spec(text).last() == '\n',
        exactly_one_trailing(crate::formats::ensure_newline_spec(bash_body_spec(text)))
            ==> exactly_one_trailing(bash_format_spec(text)),
{
    reveal_strlit("> =");
    reveal_strlit(">=");
    reveal_strlit("< =");
    reveal_strlit("<=");
    reveal_strlit("! =");
    reveal_strlit("!=");
    let r1 = crate::formats::ensure_newline_spec(bash_body_spec(text));
    assert(r1.len() >= 1 && r1.last() == '\n');
    let r2 = crate::formats::text::replace_all(r1, "> ="@, ">="@);
    let r3 = crate::formats::text::replace_all(r2, "< ="@, "<="@);
    assert(!"> ="@.contains('\n')) by {
        assert(forall|i: int| 0 <= i < "> ="@.len() ==> "> ="@[i] != '\n');
    }
    assert(!"< ="@.contains('\n')) by {
        assert(forall|i: int| 0 <= i < "< ="@.len() ==> "< ="@[i] != '\n');
    }
    assert(!"! ="@.contains('\n')) by {
        assert(forall|i: int| 0 <= i < "! ="@.len() ==> "! ="@[i] != '\n');
    }
    assert(!">="@.contains('\n')) by {
        assert(forall|i: int| 0 <= i < ">="@.len() ==> ">="@[i] != '\n');
    }
    assert(!"<="@.contains('\n')) by {
        assert(forall|i: int| 0 <= i < "<="@.len() ==> "<="@[i] != '\n');
    }
    assert(!"!="@.contains('\n')) by {
        assert(forall|i: int| 0 <= i < "!="@.len() ==> "!="@[i] != '\n');
    }
    lemma_replace_trailing_nl(r1, "> ="@, ">="@);
    lemma_replace_trailing_nl(r2, "< ="@, "<="@);
    lemma_replace_trailing_nl(r3, "! ="@, "!="@);
    if exactly_one_trailing(r1) {
        lemma_replace_exactly_one(r1, "> ="@, ">="@);
        lemma_replace_exactly_one(r2, "< ="@, "<="@);
        lemma_replace_exactly_one(r3, "! ="@, "!="@);
    }
}

/// Law (idempotence, collapse passes): collapsing a pattern leaves no
/// occurrence of it behind, so a second pass changes nothing.
pub proof fn lemma_collapse_fixed_point(s: Seq<char>, pat: Seq<char>, rep: Seq<char>)
    requires
        rep.len() < pat.len(),
    ensures
        !contains_pat(collapse_rep(s, pat, rep), pat),
        collapse_rep(collapse_rep(s, pat, rep), pat, rep) == collapse_rep(s, pat, rep),
    decreases s.len(),
{
    if contains_pat(s, pat) {
        lemma_replace_all_shortens(s, pat, rep);
        lemma_collapse_fixed_point(crate::formats::text::replace_all(s, pat, rep), pat, rep);
    }
}

/// The start-and-end-trimmed form of a physical line, as the state
/// machine classifies it.
pub open spec fn step_trimmed(raw: Seq<char>) -> Seq<char> {
    trim_start_spec(trim_end_spec(raw))
}

/// The lowercased trimmed form of a physical line.
pub open spec fn step_lower(raw: Seq<char>) -> Seq<char> {
    lower_spec(step_trimmed(raw))
}

/// Is the line blank once trimmed?
pub open spec fn step_blank(raw: Seq<char>) -> bool {
    trim_spec(trim_end_spec(raw)).len() == 0
}

/// None of the special classifications applies to the line: it is not
/// blank, opens nothing, closes nothing, and is no `case` machinery.
pub open spec fn plain_line(raw: Seq<char>, st: BashState) -> bool {
    &&& !step_blank(raw)
    &&& !dedent_closer(step_lower(raw))
    &&& !is_elif_else(step_lower(raw))
    &&& !is_case_pattern_spec(step_trimmed(raw), st.frames.len() > 0)
    &&& !is_case_terminator_spec(step_lower(raw))
    &&& !has_prefix(step_lower(raw), "case "@)
    &&& !is_esac(step_lower(raw))
    &&& !opens_block_spec(step_trimmed(raw))
}

/// Law (control-block indent, body): a plain line is emitted at the
/// ambient indent and leaves the whole context unchanged, except that
/// a trailing backslash opens a continuation.
pub proof fn lemma_plain_line_keeps_indent(raw: Seq<char>, st: BashState)
    requires
        plain_line(raw, st),
        !st.continuation,
    ensures
        bash_step(raw, st).1 == normalize_line_spec(step_trimmed(raw), st.indent).push('\n'),
        bash_step(raw, st).0.indent == st.indent,
        bash_step(raw, st).0.frames == st.frames,
        bash_step(raw, st).0.continuation == ends_unescaped_backslash(
            trim_end_spec(trim_end_spec(raw)),
        ),
{
}

/// Law (control-block indent, header): a line that opens a block — a
/// one-line `if … then` or loop header, a bare `then`/`do`, or a line
/// ending in `{` — is emitted at the ambient indent and indents the
/// following body one level deeper.
pub proof fn lemma_opener_indents_body(raw: Seq<char>, st: BashState)
    requires
        !step_blank(raw),
        !st.continuation,
        opens_block_spec(step_trimmed(raw)),
        !dedent_closer(step_lower(raw)),
        !is_elif_else(step_lower(raw)),
        !is_case_pattern_spec(step_trimmed(raw), st.frames.len() > 0),
        !is_case_terminator_spec(step_lower(raw)),
        !has_prefix(step_lower(raw), "case "@),
        !is_esac(step_lower(raw)),
    ensures
        bash_step(raw, st).1 == normalize_line_spec(step_trimmed(raw), st.indent).push('\n'),
        bash_step(raw, st).0.indent == sat_inc(st.indent),
        bash_step(raw, st).0.frames == st.frames,
{
}

/// Law (control-block indent, closer): a line beginning with `fi`,
/// `done` or `}` is emitted one level back — aligned with the header
/// whose body sat one deeper — and the ambient indent stays there.
pub proof fn lemma_closer_rejoins_header(raw: Seq<char>, st: BashState)
    requires
        !step_blank(raw),
        !st.continuation,
        dedent_closer(step_lower(raw)),
        !is_esac(step_lower(raw)),
        !is_elif_else(step_lower(raw)),
        !is_case_pattern_spec(step_trimmed(raw), st.frames.len() > 0),
        !is_case_terminator_spec(step_lower(raw)),
        !has_prefix(step_lower(raw), "case "@),
        !opens_block_spec(step_trimmed(raw)),
    ensures
        bash_step(raw, st).1 == normalize_line_spec(step_trimmed(raw), sat_dec(st.indent)).push(
            '\n',
        ),
        bash_step(raw, st).0.indent == sat_dec(st.indent),
        bash_step(raw, st).0.frames == st.frames,
{
}

/// Law (control-block indent, `else`/`elif`): such a line dedents
/// itself to the originating `if`'s level and indents the branch body
/// one level again.
pub proof fn lemma_else_aligns_with_if(raw: Seq<char>, st: BashState)
    requires
        !step_blank(raw),
        !st.continuation,
        is_elif_else(step_lower(raw)),
        !dedent_closer(step_lower(raw)),
        !is_case_pattern_spec(step_trimmed(raw), st.frames.len() > 0),
        !is_case_terminator_spec(step_lower(raw)),
        !has_prefix(step_lower(raw), "case "@),
        !is_esac(step_lower(raw)),
        !opens_block_spec(step_trimmed(raw)),
    ensures
        bash_step(raw, st).1 == normalize_line_spec(step_trimmed(raw), sat_dec(st.indent)).push(
            '\n',
        ),
        bash_step(raw, st).0.indent == sat_inc(sat_dec(st.indent)),
        bash_step(raw, st).0.frames == st.frames,
{
}

/// Law (case nesting, opening): a `case` line is emitted at the
/// ambient indent, records that indent in a new frame, and indents
/// what follows one level.
pub proof fn lemma_case_opens_frame(raw: Seq<char>, st: BashState)
    requires
        !step_blank(raw),
        !st.continuation,
        has_prefix(step_lower(raw), "case "@),
        !dedent_closer(step_lower(raw)),
        !is_elif_else(step_lower(raw)),
        !is_case_pattern_spec(step_trimmed(raw), st.frames.len() > 0),
        !is_case_terminator_spec(step_lower(raw)),
        !opens_block_spec(step_trimmed(raw)),
    ensures
        bash_step(raw, st).1 == normalize_line_spec(step_trimmed(raw), st.indent).push('\n'),
        bash_step(raw, st).0.indent == sat_inc(st.indent),
        bash_step(raw, st).0.frames == st.frames.push(st.indent),
{
}

/// Law (case nesting, pattern arm): inside an open `case` block, a
/// pattern-arm line is emitted one level deeper than the line that
/// opened the block, and the arm's body is set one level deeper than
/// the pattern itself.
pub proof fn lemma_case_pattern_indent(raw: Seq<char>, st: BashState)
    requires
        !step_blank(raw),
        !st.continuation,
        st.frames.len() > 0,
        is_case_pattern_spec(step_trimmed(raw), st.frames.len() > 0),
        !has_prefix(step_lower(raw), "case "@),
        !is_esac(step_lower(raw)),
        !dedent_closer(step_lower(raw)),
        !is_elif_else(step_lower(raw)),
        !opens_block_spec(step_trimmed(raw)),
    ensures
        bash_step(raw, st).1 == normalize_line_spec(
            step_trimmed(raw),
            sat_inc(st.frames.last()),
        ).push('\n'),
        bash_step(raw, st).0.indent == sat_inc2(st.frames.last()),
        bash_step(raw, st).0.frames == st.frames,
{
}

/// Law (case nesting, terminator): a `;;`/`;;&`/`;&` line aligns with
/// the pattern — one level deeper than the `case` line — and sets the
/// ambient indent back there for the next arm.
pub proof fn lemma_case_terminator_indent(raw: Seq<char>, st: BashState)
    requires
        !step_blank(raw),
        !st.continuation,
        st.frames.len() > 0,
        is_case_terminator_spec(step_lower(raw)),
        !is_case_pattern_spec(step_trimmed(raw), st.frames.len() > 0),
        !has_prefix(step_lower(raw), "case "@),
        !is_esac(step_lower(raw)),
        !dedent_closer(step_lower(raw)),
        !is_elif_else(step_lower(raw)),
        !opens_block_spec(step_trimmed(raw)),
    ensures
        bash_step(raw, st).1 == normalize_line_spec(
            step_trimmed(raw),
            sat_inc(st.frames.last()),
        ).push('\n'),
        bash_step(raw, st).0.indent == sat_inc(st.frames.last()),
        bash_step(raw, st).0.frames == st.frames,
{
}

/// Law (case nesting, closing): an `esac` line is emitted one level
/// back and resets the ambient indent to the level recorded when its
/// `case` opened, discarding the frame.
pub proof fn lemma_esac_restores_level(raw: Seq<char>, st: BashState)
    requires
        !step_blank(raw),
        !st.continuation,
        st.frames.len() > 0,
        is_esac(step_lower(raw)),
        !is_case_pattern_spec(step_trimmed(raw), st.frames.len() > 0),
        !is_case_terminator_spec(step_lower(raw)),
        !has_prefix(step_lower(raw), "case "@),
        !is_elif_else(step_lower(raw)),
        !opens_block_spec(step_trimmed(raw)),
    ensures
        bash_step(raw, st).1 == normalize_line_spec(step_trimmed(raw), sat_dec(st.indent)).push(
            '\n',
        ),
        bash_step(raw, st).0.indent == st.frames.last(),
        bash_step(raw, st).0.frames == st.frames.drop_last(),
{
    assert(dedent_closer(step_lower(raw)));
}

/// Law (blank-run collapse, step form): a blank line emits one bare
/// newline when the previously emitted line was not blank, and nothing
/// at all when it was; the rest of the context never moves.
pub proof fn lemma_blank_line_collapses(raw: Seq<char>, st: BashState)
    requires
        step_blank(raw),
    ensures
        st.last_blank ==> bash_step(raw, st) == (st, Seq::<char>::empty()),
        !st.last_blank ==> bash_step(raw, st).1 == seq!['\n'],
        !st.last_blank ==> bash_step(raw, st).0 == (BashState {
            indent: st.indent,
            continuation: st.continuation,
            last_blank: true,
            frames: st.frames,
        }),
{
}

/// Law (blank-run collapse, composed): a stretch of one or more
/// consecutive blank input lines, entered right after a non-blank
/// line, emits exactly one blank output line; every further blank
/// line of the stretch is dropped.
pub proof fn lemma_blank_run_emits_one(
    lines: Seq<Seq<char>>,
    i: int,
    b: int,
    st: BashState,
    acc: Seq<char>,
)
    requires
        0 <= i < b <= lines.len(),
        !st.last_blank,
        forall|m: int| i <= m < b ==> step_blank(#[trigger] lines[m]),
    ensures
        bash_run(lines, i, st, acc) == (bash_run(
            lines,
            b,
            BashState {
                indent: st.indent,
                continuation: st.continuation,
                last_blank: true,
                frames: st.frames,
            },
            acc + seq!['\n'],
        )),
    decreases b - i,
{
    let st2 = BashState {
        indent: st.indent,
        continuation: st.continuation,
        last_blank: true,
        frames: st.frames,
    };
    lemma_blank_line_collapses(lines[i], st);
    if i + 1 < b {
        lemma_blank_tail_drops(lines, i + 1, b, st2, acc + seq!['\n']);
    }
}

/// Blank lines met while the previous emitted line is already blank
/// add nothing to the buffer.
proof fn lemma_blank_tail_drops(
    lines: Seq<Seq<char>>,
    i: int,
    b: int,
    st: BashState,
    acc: Seq<char>,
)
    requires
        0 <= i <= b <= lines.len(),
        st.last_blank,
        forall|m: int| i <= m < b ==> step_blank(#[trigger] lines[m]),
    ensures
        bash_run(lines, i, st, acc) == bash_run(lines, b, st, acc),
    decreases b - i,
{
    if i < b {
        lemma_blank_line_collapses(lines[i], st);
        assert(acc + Seq::<char>::empty() =~= acc);
        lemma_blank_tail_drops(lines, i + 1, b, st, acc);
    }
}

/// `k` newlines in a row (none when `k` is negative).
pub open spec fn newlines(k: int) -> Seq<char> {
    Seq::new(
        if k >= 0 {
            k as nat
        } else {
            0
        },
        |i: int| '\n',
    )
}

/// No three consecutive newlines anywhere in the text: no two adjacent
/// empty lines.
pub open spec fn no_triple_newline(s: Seq<char>) -> bool {
    forall|k: int|
        0 <= k && k + 3 <= s.len() ==> !(#[trigger] s[k] == '\n' && s[k + 1] == '\n' && s[k + 2]
            == '\n')
}

/// Does the text contain no newline at all?
pub open spec fn no_nl(s: Seq<char>) -> bool {
    forall|k: int| 0 <= k < s.len() ==> s[k] != '\n'
}

/// A replacement of one newline-free pattern by a non-empty
/// newline-free replacement cannot bring two empty lines together,
/// even right after `pre` pending newlines.
proof fn lemma_replace_no_triple(s: Seq<char>, pat: Seq<char>, rep: Seq<char>, pre: int)
    requires
        no_nl(pat),
        no_nl(rep),
        rep.len() >= 1,
        0 <= pre <= 2,
        no_triple_newline(newlines(pre) + s),
    ensures
        no_triple_newline(newlines(pre) + crate::formats::text::replace_all(s, pat, rep)),
    decreases s.len(),
{
    let result = crate::formats::text::replace_all(s, pat, rep);
    if pat.len() == 0 || s.len() < pat.len() {
    } else if s.subrange(0, pat.len() as int) == pat {
        let sk = s.skip(pat.len() as int);
        assert(no_triple_newline(newlines(0) + sk)) by {
            assert forall|k: int|
                0 <= k && k + 3 <= (newlines(0) + sk).len() implies !(#[trigger] (newlines(0)
                + sk)[k] == '\n' && (newlines(0) + sk)[k + 1] == '\n' && (newlines(0) + sk)[k + 2]
                == '\n') by {
                let shift = pre + pat.len();
                assert((newlines(pre) + s)[k + shift] == (newlines(0) + sk)[k]);
                assert((newlines(pre) + s)[k + shift + 1] == (newlines(0) + sk)[k + 1]);
                assert((newlines(pre) + s)[k + shift + 2] == (newlines(0) + sk)[k + 2]);
            }
        }
        lemma_replace_no_triple(sk, pat, rep, 0);
        let rr = crate::formats::text::replace_all(sk, pat, rep);
        assert(result == rep + rr);
        assert(no_triple_newline(newlines(pre) + result)) by {
            let whole = newlines(pre) + result;
            assert forall|k: int|
                0 <= k && k + 3 <= whole.len() implies !(#[trigger] whole[k] == '\n' && whole[k
                + 1] == '\n' && whole[k + 2] == '\n') by {
                if k + 3 <= pre + rep.len() {
                    // the window touches the replacement text, which
                    // holds no newline
                    assert(whole[k + 2] == (if k + 2 < pre {
                        '\n'
                    } else {
                        rep[k + 2 - pre]
                    }));
                    if k + 2 >= pre {
                        assert(rep[k + 2 - pre] != '\n');
                    }
                } else if k < pre + rep.len() {
                    // the window straddles the replacement's last
                    // character or later replacement text
                    if k + 2 - pre < rep.len() {
                        assert(whole[k + 2] == rep[k + 2 - pre]);
                    } else if k + 1 - pre < rep.len() && k + 1 - pre >= 0 {
                        assert(whole[k + 1] == rep[k + 1 - pre]);
                    } else {
                        assert(whole[k] == rep[k - pre]);
                    }
                } else {
                    // the window sits inside the recursive result
                    let k2 = k - pre - rep.len();
                    assert(whole[k] == (newlines(0) + rr)[k2]);
                    assert(whole[k + 1] == (newlines(0) + rr)[k2 + 1]);
                    assert(whole[k + 2] == (newlines(0) + rr)[k2 + 2]);
                }
            }
        }
    } else {
        let d = s.drop_first();
        if s[0] == '\n' {
            assert(pre < 2) by {
                if pre >= 2 {
                    assert((newlines(pre) + s)[0] == '\n');
                    assert((newlines(pre) + s)[1] == '\n');
                    assert((newlines(pre) + s)[2] == '\n');
                }
            }
            assert(newlines(pre + 1) + d =~= newlines(pre) + s);
            lemma_replace_no_triple(d, pat, rep, pre + 1);
            let rr = crate::formats::text::replace_all(d, pat, rep);
            assert(result == seq![s[0]] + rr);
            assert(newlines(pre) + result =~= newlines(pre + 1) + rr);
        } else {
            assert(no_triple_newline(newlines(0) + d)) by {
                assert forall|k: int|
                    0 <= k && k + 3 <= (newlines(0) + d).len() implies !(#[trigger] (newlines(0)
                    + d)[k] == '\n' && (newlines(0) + d)[k + 1] == '\n' && (newlines(0) + d)[k + 2]
                    == '\n') by {
                    assert((newlines(pre) + s)[k + pre + 1] == (newlines(0) + d)[k]);
                    assert((newlines(pre) + s)[k + pre + 2] == (newlines(0) + d)[k + 1]);
                    assert((newlines(pre) + s)[k + pre + 3] == (newlines(0) + d)[k + 2]);
                }
            }
            lemma_replace_no_triple(d, pat, rep, 0);
            let rr = crate::formats::text::replace_all(d, pat, rep);
            assert(result == seq![s[0]] + rr);
            assert(no_triple_newline(newlines(pre) + result)) by {
                let whole = newlines(pre) + result;
                assert forall|k: int|
                    0 <= k && k + 3 <= whole.len() implies !(#[trigger] whole[k] == '\n'
                    && whole[k + 1] == '\n' && whole[k + 2] == '\n') by {
                    if k <= pre && pre <= k + 2 {
                        // the window crosses the kept character s[0]
                        assert(whole[pre] == s[0]);
                    } else if k < pre {
                    } else {
                        let k2 = k - pre - 1;
                        assert(whole[k] == (newlines(0) + rr)[k2]);
                        assert(whole[k + 1] == (newlines(0) + rr)[k2 + 1]);
                        assert(whole[k + 2] == (newlines(0) + rr)[k2 + 2]);
                    }
                }
            }
        }
    }
}

/// Concatenation keeps newline-freedom.
proof fn lemma_no_nl_concat(a: Seq<char>, b: Seq<char>)
    requires
        no_nl(a),
        no_nl(b),
    ensures
        no_nl(a + b),
{
    assert forall|k: int| 0 <= k < (a + b).len() implies (a + b)[k] != '\n' by {
        if k < a.len() {
            assert((a + b)[k] == a[k]);
        } else {
            assert((a + b)[k] == b[k - a.len()]);
        }
    }
}

/// Any subrange of a newline-free text is newline-free.
proof fn lemma_no_nl_sub(s: Seq<char>, a: int, b: int)
    requires
        no_nl(s),
        0 <= a <= b <= s.len(),
    ensures
        no_nl(s.subrange(a, b)),
{
}

/// `replace_all` with a newline-free replacement keeps newline-freedom.
proof fn lemma_replace_all_no_nl(s: Seq<char>, pat: Seq<char>, rep: Seq<char>)
    requires
        no_nl(s),
        no_nl(rep),
    ensures
        no_nl(crate::formats::text::replace_all(s, pat, rep)),
    decreases s.len(),
{
    if pat.len() == 0 || s.len() < pat.len() {
    } else if s.subrange(0, pat.len() as int) == pat {
        lemma_no_nl_sub(s, pat.len() as int, s.len() as int);
        lemma_replace_all_no_nl(s.skip(pat.len() as int), pat, rep);
        lemma_no_nl_concat(rep, crate::formats::text::replace_all(s.skip(pat.len() as int), pat, rep));
    } else {
        lemma_no_nl_sub(s, 1, s.len() as int);
        lemma_replace_all_no_nl(s.drop_first(), pat, rep);
        lemma_no_nl_concat(seq![s[0]], crate::formats::text::replace_all(s.drop_first(), pat, rep));
    }
}

/// `collapse_rep` with a newline-free replacement keeps
/// newline-freedom.
proof fn lemma_collapse_no_nl(s: Seq<char>, pat: Seq<char>, rep: Seq<char>)
    requires
        no_nl(s),
        no_nl(rep),
        rep.len() < pat.len(),
    ensures
        no_nl(collapse_rep(s, pat, rep)),
    decreases s.len(),
{
    if contains_pat(s, pat) {
        lemma_replace_all_shortens(s, pat, rep);
        lemma_replace_all_no_nl(s, pat, rep);
        lemma_collapse_no_nl(crate::formats::text::replace_all(s, pat, rep), pat, rep);
    }
}

/// Every fragment of a fragment list is newline-free.
pub open spec fn all_no_nl(parts: Seq<Seq<char>>) -> bool {
    forall|k: int| 0 <= k < parts.len() ==> no_nl(#[trigger] parts[k])
}

/// Concatenating newline-free fragment lists keeps every fragment
/// newline-free.
proof fn lemma_elems_concat(a: Seq<Seq<char>>, b: Seq<Seq<char>>)
    requires
        all_no_nl(a),
        all_no_nl(b),
    ensures
        all_no_nl(a + b),
{
    assert forall|k: int| 0 <= k < (a + b).len() implies no_nl(#[trigger] (a + b)[k]) by {
        if k < a.len() {
            assert((a + b)[k] == a[k]);
        } else {
            assert((a + b)[k] == b[k - a.len()]);
        }
    }
}

/// End-trimming keeps newline-freedom.
proof fn lemma_trim_end_no_nl(s: Seq<char>)
    requires
        no_nl(s),
    ensures
        no_nl(trim_end_spec(s)),
    decreases s.len(),
{
    if s.len() > 0 && is_space(s.last()) {
        lemma_no_nl_sub(s, 0, s.len() - 1);
        lemma_trim_end_no_nl(s.drop_last());
    }
}

/// Start-trimming keeps newline-freedom.
proof fn lemma_trim_start_no_nl(s: Seq<char>)
    requires
        no_nl(s),
    ensures
        no_nl(trim_start_spec(s)),
    decreases s.len(),
{
    if s.len() > 0 && is_space(s.first()) {
        lemma_no_nl_sub(s, 1, s.len() as int);
        lemma_trim_start_no_nl(s.drop_first());
    }
}

/// Trimming keeps newline-freedom.
proof fn lemma_trim_no_nl(s: Seq<char>)
    requires
        no_nl(s),
    ensures
        no_nl(trim_end_spec(s)),
        no_nl(trim_start_spec(s)),
        no_nl(trim_spec(s)),
{
    lemma_trim_end_no_nl(s);
    lemma_trim_start_no_nl(s);
    lemma_trim_start_no_nl(trim_end_spec(s));
}

/// Every whitespace-split token of a newline-free text is
/// newline-free.
proof fn lemma_tokens_no_nl(s: Seq<char>, i: int, cur: Seq<char>)
    requires
        0 <= i <= s.len(),
        no_nl(s),
        no_nl(cur),
    ensures
        all_no_nl(crate::formats::text::tokens_from(s, i, cur)),
    decreases s.len() - i,
{
    if i >= s.len() {
    } else if is_space(s[i]) {
        lemma_tokens_no_nl(s, i + 1, Seq::empty());
        let head: Seq<Seq<char>> = if cur.len() > 0 {
            seq![cur]
        } else {
            Seq::empty()
        };
        lemma_elems_concat(head, crate::formats::text::tokens_from(s, i + 1, Seq::empty()));
    } else {
        assert(no_nl(cur.push(s[i]))) by {
            assert(forall|k: int|
                0 <= k < cur.push(s[i]).len() ==> #[trigger] cur.push(s[i])[k] != '\n');
        }
        lemma_tokens_no_nl(s, i + 1, cur.push(s[i]));
    }
}

/// Every fragment of a pattern split of a newline-free text is
/// newline-free.
proof fn lemma_split_no_nl(s: Seq<char>, pat: Seq<char>, i: int, cur: Seq<char>)
    requires
        0 <= i <= s.len(),
        pat.len() >= 1,
        no_nl(s),
        no_nl(cur),
    ensures
        all_no_nl(crate::formats::text::split_from(s, pat, i, cur)),
    decreases s.len() - i,
{
    if i + pat.len() > s.len() {
        lemma_no_nl_sub(s, i, s.len() as int);
        lemma_no_nl_concat(cur, s.skip(i));
    } else if s.subrange(i, i + pat.len()) == pat {
        lemma_split_no_nl(s, pat, i + pat.len(), Seq::empty());
        lemma_elems_concat(
            seq![cur],
            crate::formats::text::split_from(s, pat, i + pat.len(), Seq::empty()),
        );
    } else {
        assert(no_nl(cur.push(s[i]))) by {
            assert(forall|k: int|
                0 <= k < cur.push(s[i]).len() ==> #[trigger] cur.push(s[i])[k] != '\n');
        }
        lemma_split_no_nl(s, pat, i + 1, cur.push(s[i]));
    }
}

/// Trimming and dropping fragments keeps the remaining ones
/// newline-free.
proof fn lemma_trimmed_nonempty_no_nl(parts: Seq<Seq<char>>, i: int)
    requires
        0 <= i <= parts.len(),
        all_no_nl(parts),
    ensures
        all_no_nl(crate::formats::text::trimmed_nonempty(parts, i)),
    decreases parts.len() - i,
{
    if i < parts.len() {
        lemma_trim_no_nl(parts[i]);
        lemma_trimmed_nonempty_no_nl(parts, i + 1);
        if trim_spec(parts[i]).len() > 0 {
            lemma_elems_concat(
                seq![trim_spec(parts[i])],
                crate::formats::text::trimmed_nonempty(parts, i + 1),
            );
        }
    }
}

/// Joining newline-free fragments with a newline-free separator gives
/// a newline-free text.
proof fn lemma_join_no_nl(parts: Seq<Seq<char>>, sep: Seq<char>)
    requires
        all_no_nl(parts),
        no_nl(sep),
    ensures
        no_nl(crate::formats::text::join_with(parts, sep)),
{
    if parts.len() > 0 {
        lemma_join_rest_no_nl(parts, sep, 1);
        lemma_no_nl_concat(parts[0], crate::formats::text::join_rest(parts, sep, 1));
    }
}

/// The tail part of a join is newline-free.
proof fn lemma_join_rest_no_nl(parts: Seq<Seq<char>>, sep: Seq<char>, i: int)
    requires
        0 <= i,
        all_no_nl(parts),
        no_nl(sep),
    ensures
        no_nl(crate::formats::text::join_rest(parts, sep, i)),
    decreases parts.len() - i,
{
    if i < parts.len() {
        lemma_join_rest_no_nl(parts, sep, i + 1);
        lemma_no_nl_concat(sep, parts[i]);
        lemma_no_nl_concat(sep + parts[i], crate::formats::text::join_rest(parts, sep, i + 1));
    }
}

/// The replacement texts and glue the token normalizer emits hold no
/// newline.
proof fn lemma_normalizer_literals_no_nl()
    ensures
        no_nl("    "@),
        no_nl("; then"@),
        no_nl("; do"@),
        no_nl("; else"@),
        no_nl(">="@),
        no_nl("<="@),
        no_nl("!="@),
        no_nl("if ["@),
        no_nl("while ["@),
        no_nl("for ["@),
        no_nl("until ["@),
        no_nl("select ["@),
        no_nl("() {"@),
        no_nl("() { "@),
        no_nl(" && "@),
        no_nl(" || "@),
        no_nl(" | "@),
        no_nl("<<<"@),
        no_nl("<<-"@),
        no_nl("<<"@),
        no_nl(">>"@),
        no_nl(">&"@),
        no_nl("&>"@),
        no_nl("<&"@),
        no_nl(">"@),
        no_nl("<"@),
        no_nl("="@),
        no_nl(" "@),
        no_nl("  "@),
{
    reveal_strlit("    ");
    reveal_strlit("; then");
    reveal_strlit("; do");
    reveal_strlit("; else");
    reveal_strlit(">=");
    reveal_strlit("<=");
    reveal_strlit("!=");
    reveal_strlit("if [");
    reveal_strlit("while [");
    reveal_strlit("for [");
    reveal_strlit("until [");
    reveal_strlit("select [");
    reveal_strlit("() {");
    reveal_strlit("() { ");
    reveal_strlit(" && ");
    reveal_strlit(" || ");
    reveal_strlit(" | ");
    reveal_strlit("<<<");
    reveal_strlit("<<-");
    reveal_strlit("<<");
    reveal_strlit(">>");
    reveal_strlit(">&");
    reveal_strlit("&>");
    reveal_strlit("<&");
    reveal_strlit(">");
    reveal_strlit("<");
    reveal_strlit("=");
    reveal_strlit(" ");
    reveal_strlit("  ");
}

/// One binary-operator pass keeps newline-freedom.
proof fn lemma_rejoin_no_nl(s: Seq<char>, op: Seq<char>, spaced: Seq<char>)
    requires
        no_nl(s),
        no_nl(spaced),
        op.len() >= 1,
    ensures
        no_nl(rejoin_op(s, op, spaced)),
{
    if contains_pat(s, op) {
        lemma_split_no_nl(s, op, 0, Seq::empty());
        lemma_trimmed_nonempty_no_nl(crate::formats::text::split_pat(s, op), 0);
        lemma_join_no_nl(
            crate::formats::text::trimmed_nonempty(crate::formats::text::split_pat(s, op), 0),
            spaced,
        );
    }
}

/// The redirect re-emission keeps newline-freedom.
proof fn lemma_redirect_parts_no_nl(toks: Seq<Seq<char>>, i: int)
    requires
        0 <= i <= toks.len(),
        all_no_nl(toks),
    ensures
        all_no_nl(redirect_parts(toks, i)),
    decreases toks.len() - i,
{
    lemma_normalizer_literals_no_nl();
    if i < toks.len() {
        lemma_redirect_parts_no_nl(toks, i + 1);
        let chunk: Seq<Seq<char>> = match split_redirect_spec(toks[i]) {
            Some((lhs, op, rhs)) => (if lhs.len() > 0 {
                seq![lhs]
            } else {
                Seq::empty()
            }) + seq![op] + (if rhs.len() > 0 {
                seq![rhs]
            } else {
                Seq::empty()
            }),
            None => seq![toks[i]],
        };
        assert(all_no_nl(chunk)) by {
            lemma_split_redirect_sides_no_nl(toks[i]);
        }
        lemma_elems_concat(chunk, redirect_parts(toks, i + 1));
    }
}

/// The sides a redirect split produces are newline-free when the token
/// is.
proof fn lemma_split_redirect_sides_no_nl(tok: Seq<char>)
    requires
        no_nl(tok),
    ensures
        match split_redirect_spec(tok) {
            Some((lhs, op, rhs)) => no_nl(lhs) && no_nl(op) && no_nl(rhs),
            None => true,
        },
{
    lemma_normalizer_literals_no_nl();
    lemma_split_at_no_nl(tok, "<<<"@);
    lemma_split_at_no_nl(tok, "<<-"@);
    lemma_split_at_no_nl(tok, "<<"@);
    lemma_split_at_no_nl(tok, ">>"@);
    lemma_split_at_no_nl(tok, ">&"@);
    lemma_split_at_no_nl(tok, "&>"@);
    lemma_split_at_no_nl(tok, "<&"@);
    lemma_split_at_no_nl(tok, ">"@);
    lemma_split_at_no_nl(tok, "<"@);
}

/// One redirect-operator attempt yields newline-free sides when the
/// token and the operator are newline-free.
proof fn lemma_split_at_no_nl(tok: Seq<char>, op: Seq<char>)
    requires
        no_nl(tok),
        no_nl(op),
    ensures
        match split_redirect_at(tok, op) {
            Some((lhs, o, rhs)) => no_nl(lhs) && no_nl(o) && no_nl(rhs),
            None => true,
        },
{
    match find_pat(tok, op) {
        None => {},
        Some(p) => {
            crate::formats::text::lemma_find_pat(tok, op);
            assert(tok.take(p) =~= tok.subrange(0, p));
            assert(tok.skip(p + op.len()) =~= tok.subrange(p + op.len(), tok.len() as int));
            lemma_no_nl_sub(tok, 0, p);
            lemma_no_nl_sub(tok, p + op.len(), tok.len() as int);
        },
    }
}

/// The comparator merge keeps newline-freedom.
proof fn lemma_comparator_merge_no_nl(toks: Seq<Seq<char>>, i: int)
    requires
        0 <= i <= toks.len(),
        all_no_nl(toks),
    ensures
        all_no_nl(comparator_merge(toks, i)),
    decreases toks.len() - i,
{
    lemma_normalizer_literals_no_nl();
    if i < toks.len() {
        if i + 1 < toks.len() && (toks[i] == ">"@ || toks[i] == "<"@ || toks[i] == "!"@) && toks[i
            + 1] == "="@ {
            lemma_comparator_merge_no_nl(toks, i + 2);
            lemma_no_nl_concat(toks[i], "="@);
            lemma_elems_concat(seq![toks[i] + "="@], comparator_merge(toks, i + 2));
        } else {
            lemma_comparator_merge_no_nl(toks, i + 1);
            lemma_elems_concat(seq![toks[i]], comparator_merge(toks, i + 1));
        }
    }
}

/// The whole token normalizer keeps newline-freedom: a code segment
/// without newlines is rewritten to one without newlines.
proof fn lemma_normalize_tokens_no_nl(code: Seq<char>)
    requires
        no_nl(code),
    ensures
        no_nl(normalize_tokens_spec(code)),
{
    lemma_normalizer_literals_no_nl();
    let t1 = crate::formats::text::replace_all(code, "\t"@, "    "@);
    lemma_replace_all_no_nl(code, "\t"@, "    "@);
    let t2 = crate::formats::text::replace_all(t1, ";then"@, "; then"@);
    lemma_replace_all_no_nl(t1, ";then"@, "; then"@);
    let t3 = crate::formats::text::replace_all(t2, ";do"@, "; do"@);
    lemma_replace_all_no_nl(t2, ";do"@, "; do"@);
    let t4 = crate::formats::text::replace_all(t3, ";else"@, "; else"@);
    lemma_replace_all_no_nl(t3, ";else"@, "; else"@);
    reveal_strlit("> =");
    reveal_strlit("< =");
    reveal_strlit("! =");
    reveal_strlit(">=");
    reveal_strlit("<=");
    reveal_strlit("!=");
    let t5 = collapse_rep(t4, "> ="@, ">="@);
    lemma_collapse_no_nl(t4, "> ="@, ">="@);
    let t6 = collapse_rep(t5, "< ="@, "<="@);
    lemma_collapse_no_nl(t5, "< ="@, "<="@);
    let t7 = collapse_rep(t6, "! ="@, "!="@);
    lemma_collapse_no_nl(t6, "! ="@, "!="@);
    let t8 = crate::formats::text::replace_all(t7, "if["@, "if ["@);
    lemma_replace_all_no_nl(t7, "if["@, "if ["@);
    let t9 = crate::formats::text::replace_all(t8, "while["@, "while ["@);
    lemma_replace_all_no_nl(t8, "while["@, "while ["@);
    let t10 = crate::formats::text::replace_all(t9, "for["@, "for ["@);
    lemma_replace_all_no_nl(t9, "for["@, "for ["@);
    let t11 = crate::formats::text::replace_all(t10, "until["@, "until ["@);
    lemma_replace_all_no_nl(t10, "until["@, "until ["@);
    let t12 = crate::formats::text::replace_all(t11, "select["@, "select ["@);
    lemma_replace_all_no_nl(t11, "select["@, "select ["@);
    let t13 = function_brace_spec(t12);
    assert(no_nl(t13)) by {
        match find_pat(t12, "(){"@) {
            None => {},
            Some(p) => {
                crate::formats::text::lemma_find_pat(t12, "(){"@);
                lemma_no_nl_sub(t12, 0, p);
                lemma_no_nl_sub(t12, p + "(){"@.len(), t12.len() as int);
                lemma_trim_no_nl(t12.take(p));
                lemma_trim_no_nl(t12.skip(p + "(){"@.len()));
                lemma_no_nl_concat(trim_end_spec(t12.take(p)), "() {"@);
                lemma_no_nl_concat(trim_end_spec(t12.take(p)), "() { "@);
                lemma_no_nl_concat(
                    trim_end_spec(t12.take(p)) + "() { "@,
                    trim_start_spec(t12.skip(p + "(){"@.len())),
                );
            },
        }
    }
    let t14 = binary_ops_spec(t13);
    assert(no_nl(t14)) by {
        reveal_strlit("&&");
        reveal_strlit("||");
        reveal_strlit("|");
        lemma_rejoin_no_nl(t13, "&&"@, " && "@);
        lemma_rejoin_no_nl(rejoin_op(t13, "&&"@, " && "@), "||"@, " || "@);
        lemma_rejoin_no_nl(rejoin_op(rejoin_op(t13, "&&"@, " && "@), "||"@, " || "@), "|"@, " | "@);
    }
    let t15 = redirects_spec(t14);
    assert(no_nl(t15)) by {
        lemma_tokens_no_nl(t14, 0, Seq::empty());
        lemma_redirect_parts_no_nl(crate::formats::text::tokens(t14), 0);
        lemma_join_no_nl(redirect_parts(crate::formats::text::tokens(t14), 0), " "@);
    }
    let t16 = comparators_spec(t15);
    assert(no_nl(t16)) by {
        lemma_tokens_no_nl(t15, 0, Seq::empty());
        lemma_comparator_merge_no_nl(crate::formats::text::tokens(t15), 0);
        lemma_join_no_nl(comparator_merge(crate::formats::text::tokens(t15), 0), " "@);
    }
    lemma_trim_no_nl(t16);
}

/// A found comment opener lies inside the line, at or after the scan
/// position.
proof fn lemma_find_comment_bounds(l: Seq<char>, i: int, in_s: bool, in_d: bool)
    requires
        0 <= i <= l.len(),
    ensures
        match find_comment_from(l, i, in_s, in_d) {
            Some(p) => i <= p < l.len(),
            None => true,
        },
    decreases l.len() - i,
{
    if i < l.len() {
        if l[i] == '\'' && !in_d {
            lemma_find_comment_bounds(l, i + 1, !in_s, in_d);
        } else if l[i] == '"' && !in_s {
            lemma_find_comment_bounds(l, i + 1, in_s, !in_d);
        } else if l[i] == '#' && !in_s && !in_d && (i == 0 || is_ascii_space(l[i - 1])) {
        } else {
            lemma_find_comment_bounds(l, i + 1, in_s, in_d);
        }
    }
}

/// Does the line still show something once rewritten: a trailing
/// comment, or code that does not normalize away to nothing?
pub open spec fn renders_visible(raw: Seq<char>) -> bool {
    split_comment_comment(step_trimmed(raw)) is Some || normalize_tokens_spec(
        split_comment_code(step_trimmed(raw)),
    ).len() > 0
}

/// A newline-free line is rendered without newlines, and a visible one
/// is rendered non-empty.
proof fn lemma_emission_shape(line: Seq<char>, lvl: int)
    requires
        no_nl(line),
    ensures
        no_nl(normalize_line_spec(line, lvl)),
        (split_comment_comment(line) is Some || normalize_tokens_spec(
            split_comment_code(line),
        ).len() > 0) ==> normalize_line_spec(line, lvl).len() >= 1,
{
    lemma_normalizer_literals_no_nl();
    let ind = crate::formats::text::spaces(INDENT * lvl);
    assert(no_nl(ind)) by {
        assert(forall|k: int| 0 <= k < ind.len() ==> #[trigger] ind[k] != '\n');
    }
    let code = split_comment_code(line);
    assert(no_nl(code)) by {
        match find_comment_from(line, 0, false, false) {
            Some(p) => {
                lemma_find_comment_bounds(line, 0, false, false);
                lemma_no_nl_sub(line, 0, p);
                assert(line.take(p) =~= line.subrange(0, p));
                lemma_trim_end_no_nl(line.take(p));
            },
            None => {
                lemma_trim_end_no_nl(line);
            },
        }
    }
    let cp = normalize_tokens_spec(code);
    lemma_normalize_tokens_no_nl(code);
    match split_comment_comment(line) {
        Some(c) => {
            lemma_find_comment_bounds(line, 0, false, false);
            assert(no_nl(c)) by {
                let p = match find_comment_from(line, 0, false, false) {
                    Some(p) => p,
                    None => 0,
                };
                assert(line.skip(p) =~= line.subrange(p, line.len() as int));
                lemma_no_nl_sub(line, p, line.len() as int);
            }
            assert(c.len() >= 1);
            if cp.len() == 0 {
                lemma_no_nl_concat(ind, c);
            } else {
                lemma_no_nl_concat(ind, cp);
                lemma_no_nl_concat(ind + cp, "  "@);
                lemma_no_nl_concat(ind + cp + "  "@, c);
            }
        },
        None => {
            lemma_no_nl_concat(ind, cp);
        },
    }
}

/// Every physical line of a text is newline-free.
proof fn lemma_lines_no_nl(s: Seq<char>, i: int, cur: Seq<char>)
    requires
        0 <= i <= s.len(),
        no_nl(cur),
    ensures
        all_no_nl(crate::formats::text::lines_from(s, i, cur)),
    decreases s.len() - i,
{
    if i >= s.len() {
    } else if s[i] == '\n' {
        assert(no_nl(crate::formats::text::strip_cr(cur))) by {
            if cur.len() > 0 && cur.last() == '\r' {
                lemma_no_nl_sub(cur, 0, cur.len() - 1);
            }
        }
        lemma_lines_no_nl(s, i + 1, Seq::empty());
        lemma_elems_concat(
            seq![crate::formats::text::strip_cr(cur)],
            crate::formats::text::lines_from(s, i + 1, Seq::empty()),
        );
    } else {
        assert(no_nl(cur.push(s[i]))) by {
            assert(forall|k: int|
                0 <= k < cur.push(s[i]).len() ==> #[trigger] cur.push(s[i])[k] != '\n');
        }
        lemma_lines_no_nl(s, i + 1, cur.push(s[i]));
    }
}

/// Is the buffer either empty or ended by a complete line?
pub open spec fn line_complete(acc: Seq<char>) -> bool {
    acc.len() == 0 || acc.last() == '\n'
}

/// Does the buffer end with a blank (empty) line?
pub open spec fn ends_blank_line(acc: Seq<char>) -> bool {
    acc.len() >= 1 && acc.last() == '\n' && (acc.len() == 1 || acc[acc.len() - 2] == '\n')
}

/// The buffer holds no two adjacent empty lines, not even against its
/// start.
pub open spec fn buffer_collapsed(acc: Seq<char>) -> bool {
    no_triple_newline(newlines(1) + acc)
}

/// The state machine never lets two empty lines stand next to each
/// other, as long as every non-blank line renders visibly.
proof fn lemma_run_collapsed(lines: Seq<Seq<char>>, i: int, st: BashState, acc: Seq<char>)
    requires
        0 <= i <= lines.len(),
        all_no_nl(lines),
        forall|m: int|
            i <= m < lines.len() && !step_blank(#[trigger] lines[m]) ==> renders_visible(lines[m]),
        buffer_collapsed(acc),
        line_complete(acc),
        st.last_blank == ends_blank_line(acc),
    ensures
        buffer_collapsed(bash_run(lines, i, st, acc)),
        line_complete(bash_run(lines, i, st, acc)),
        i < lines.len() && !step_blank(lines[lines.len() - 1]) ==> exactly_one_trailing(
            bash_run(lines, i, st, acc),
        ),
    decreases lines.len() - i,
{
    if i >= lines.len() {
    } else {
        let raw = lines[i];
        let st2 = bash_step(raw, st).0;
        let em = bash_step(raw, st).1;
        let acc2 = acc + em;
        if step_blank(raw) {
            if st.last_blank {
                assert(acc2 =~= acc);
            } else {
                assert(em == seq!['\n']);
                assert(buffer_collapsed(acc2)) by {
                    let whole = newlines(1) + acc2;
                    let old_whole = newlines(1) + acc;
                    assert forall|k: int|
                        0 <= k && k + 3 <= whole.len() implies !(#[trigger] whole[k] == '\n'
                        && whole[k + 1] == '\n' && whole[k + 2] == '\n') by {
                        if k + 3 <= old_whole.len() {
                            assert(whole[k] == old_whole[k]);
                            assert(whole[k + 1] == old_whole[k + 1]);
                            assert(whole[k + 2] == old_whole[k + 2]);
                        } else {
                            // the window ends at the newly emitted
                            // newline; a triple would mean the buffer
                            // already ended in a blank line
                            assert(k + 2 == old_whole.len());
                            if acc.len() >= 2 {
                                assert(whole[k] == acc[acc.len() - 2]);
                                assert(whole[k + 1] == acc[acc.len() - 1]);
                                assert(!ends_blank_line(acc));
                            } else if acc.len() == 1 {
                                assert(whole[k + 1] == acc[0]);
                                assert(!ends_blank_line(acc));
                            }
                        }
                    }
                }
                assert(ends_blank_line(acc2)) by {
                    if acc.len() >= 1 {
                        assert(acc2[acc2.len() - 2] == acc[acc.len() - 1]);
                    }
                }
            }
            lemma_run_collapsed(lines, i + 1, st2, acc2);
        } else {
            let trimmed = step_trimmed(raw);
            assert(no_nl(trimmed)) by {
                lemma_trim_end_no_nl(raw);
                lemma_trim_start_no_nl(trim_end_spec(raw));
            }
            let f = normalize_line_spec(trimmed, bash_step_level(raw, st));
            lemma_emission_shape(trimmed, bash_step_level(raw, st));
            assert(renders_visible(raw));
            assert(f.len() >= 1);
            assert(no_nl(f));
            assert(em == f.push('\n'));
            assert(buffer_collapsed(acc2) && ends_blank_line(acc2) == false) by {
                let whole = newlines(1) + acc2;
                let old_whole = newlines(1) + acc;
                let fs: int = 1 + acc.len() as int;
                assert(forall|j: int| 0 <= j < f.len() ==> whole[fs + j] == f[j]);
                assert forall|k: int|
                    0 <= k && k + 3 <= whole.len() implies !(#[trigger] whole[k] == '\n'
                    && whole[k + 1] == '\n' && whole[k + 2] == '\n') by {
                    if k + 2 < fs {
                        assert(whole[k] == old_whole[k]);
                        assert(whole[k + 1] == old_whole[k + 1]);
                        assert(whole[k + 2] == old_whole[k + 2]);
                    } else if k < fs {
                        assert(whole[fs] == f[0]);
                    } else {
                        assert(whole[k] == f[k - fs]);
                    }
                }
                assert(acc2[acc2.len() - 2] == f[f.len() - 1]);
            }
            assert(st2.last_blank == false);
            lemma_run_collapsed(lines, i + 1, st2, acc2);
        }
    }
}

/// The indent level at which one line is emitted.
pub open spec fn bash_step_level(raw: Seq<char>, st: BashState) -> int {
    let trimmed = step_trimmed(raw);
    let lower = step_lower(raw);
    let i1 = if dedent_closer(lower) {
        sat_dec(st.indent)
    } else {
        st.indent
    };
    let i2 = if is_elif_else(lower) {
        sat_dec(i1)
    } else {
        i1
    };
    let pat = is_case_pattern_spec(trimmed, st.frames.len() > 0);
    let term = is_case_terminator_spec(lower);
    let base = if (pat || term) && st.frames.len() > 0 {
        sat_inc(st.frames.last())
    } else {
        i2
    };
    if st.continuation {
        sat_inc(base)
    } else {
        base
    }
}

/// Law (blank-run collapse, global): when every non-blank input line
/// still shows something after normalization, the rewritten output
/// never holds two adjacent empty lines, and does not begin with one.
/// (A line whose code normalizes away — `|` alone, say — renders as an
/// empty or all-space line and is the one exception.)
pub proof fn lemma_no_adjacent_blank_lines(text: Seq<char>)
    requires
        forall|m: int|
            0 <= m < crate::formats::text::lines_spec(text).len() && !step_blank(
                #[trigger] crate::formats::text::lines_spec(text)[m],
            ) ==> renders_visible(crate::formats::text::lines_spec(text)[m]),
    ensures
        no_triple_newline(bash_format_spec(text)),
        no_triple_newline(newlines(1) + bash_format_spec(text)),
{
    lemma_lines_no_nl(text, 0, Seq::empty());
    let lines = crate::formats::text::lines_spec(text);
    let body = bash_body_spec(text);
    assert(buffer_collapsed(Seq::<char>::empty()));
    assert(!ends_blank_line(Seq::<char>::empty()));
    lemma_run_collapsed(lines, 0, bash_init(), Seq::empty());
    let r1 = crate::formats::ensure_newline_spec(body);
    assert(buffer_collapsed(r1)) by {
        if body.len() == 0 {
            assert(r1 =~= seq!['\n']);
        } else {
            assert(r1 == body);
        }
    }
    reveal_strlit("> =");
    reveal_strlit(">=");
    reveal_strlit("< =");
    reveal_strlit("<=");
    reveal_strlit("! =");
    reveal_strlit("!=");
    lemma_normalizer_literals_no_nl();
    assert(no_nl("> ="@)) by {
        assert(forall|i: int| 0 <= i < "> ="@.len() ==> "> ="@[i] != '\n');
    }
    assert(no_nl("< ="@)) by {
        assert(forall|i: int| 0 <= i < "< ="@.len() ==> "< ="@[i] != '\n');
    }
    assert(no_nl("! ="@)) by {
        assert(forall|i: int| 0 <= i < "! ="@.len() ==> "! ="@[i] != '\n');
    }
    let r2 = crate::formats::text::replace_all(r1, "> ="@, ">="@);
    let r3 = crate::formats::text::replace_all(r2, "< ="@, "<="@);
    lemma_replace_no_triple(r1, "> ="@, ">="@, 1);
    lemma_replace_no_triple(r2, "< ="@, "<="@, 1);
    lemma_replace_no_triple(r3, "! ="@, "!="@, 1);
    let out = bash_format_spec(text);
    assert(no_triple_newline(out)) by {
        assert forall|k: int|
            0 <= k && k + 3 <= out.len() implies !(#[trigger] out[k] == '\n' && out[k + 1] == '\n'
            && out[k + 2] == '\n') by {
            assert((newlines(1) + out)[k + 1] == out[k]);
            assert((newlines(1) + out)[k + 2] == out[k + 1]);
            assert((newlines(1) + out)[k + 3] == out[k + 2]);
        }
    }
}

/// Law (trailing newline, exact): when every non-blank input line
/// renders visibly and the last input line is not blank, the rewritten
/// output ends with exactly one newline — never zero, never more.
pub proof fn lemma_exactly_one_trailing(text: Seq<char>)
    requires
        forall|m: int|
            0 <= m < crate::formats::text::lines_spec(text).len() && !step_blank(
                #[trigger] crate::formats::text::lines_spec(text)[m],
            ) ==> renders_visible(crate::formats::text::lines_spec(text)[m]),
        crate::formats::text::lines_spec(text).len() > 0,
        !step_blank(
            crate::formats::text::lines_spec(text)[crate::formats::text::lines_spec(
                text,
            ).len() - 1],
        ),
    ensures
        exactly_one_trailing(bash_format_spec(text)),
{
    lemma_lines_no_nl(text, 0, Seq::empty());
    let lines = crate::formats::text::lines_spec(text);
    let body = bash_body_spec(text);
    assert(buffer_collapsed(Seq::<char>::empty()));
    lemma_run_collapsed(lines, 0, bash_init(), Seq::empty());
    assert(exactly_one_trailing(body));
    assert(crate::formats::ensure_newline_spec(body) == body);
    lemma_trailing_newline(text);
}

/// What a run of lines, each rendered at one fixed level, emits.
pub open spec fn body_emissions(lines: Seq<Seq<char>>, i: int, b: int, lvl: int) -> Seq<char>
    decreases b - i,
    when i <= b
{
    if i >= b {
        Seq::empty()
    } else {
        normalize_line_spec(step_trimmed(lines[i]), lvl).push('\n') + body_emissions(
            lines,
            i + 1,
            b,
            lvl,
        )
    }
}

/// A run of plain lines neither moves the context nor changes level:
/// every line is emitted at the entry indent.
pub proof fn lemma_plain_run(lines: Seq<Seq<char>>, i: int, b: int, st: BashState, acc: Seq<char>)
    requires
        0 <= i <= b <= lines.len(),
        !st.continuation,
        !st.last_blank,
        forall|m: int| i <= m < b ==> plain_line(#[trigger] lines[m], st),
        forall|m: int|
            i <= m < b ==> !ends_unescaped_backslash(
                trim_end_spec(trim_end_spec(#[trigger] lines[m])),
            ),
    ensures
        bash_run(lines, i, st, acc) == bash_run(
            lines,
            b,
            st,
            acc + body_emissions(lines, i, b, st.indent),
        ),
    decreases b - i,
{
    if i >= b {
        assert(acc + body_emissions(lines, i, b, st.indent) =~= acc);
    } else {
        lemma_plain_line_keeps_indent(lines[i], st);
        let em = normalize_line_spec(step_trimmed(lines[i]), st.indent).push('\n');
        assert(bash_step(lines[i], st).0 == st);
        lemma_plain_run(lines, i + 1, b, st, acc + em);
        assert(acc + em + body_emissions(lines, i + 1, b, st.indent) =~= acc + body_emissions(
            lines,
            i,
            b,
            st.indent,
        ));
    }
}

/// Law (control-block indent, composed): a block header (such as a
/// one-line `if … then`) at ambient level `d`, a body of plain lines,
/// and a closing line (such as `fi`) are laid out with the body
/// exactly one level deeper than the header and the closer aligned
/// with the header, the ambient level returning to `d`.
pub proof fn lemma_block_layout(
    lines: Seq<Seq<char>>,
    a: int,
    b: int,
    st: BashState,
    acc: Seq<char>,
)
    requires
        0 <= a < b < lines.len(),
        !st.continuation,
        !st.last_blank,
        0 <= st.indent < usize::MAX,
        // the header line
        !step_blank(lines[a]),
        opens_block_spec(step_trimmed(lines[a])),
        !dedent_closer(step_lower(lines[a])),
        !is_elif_else(step_lower(lines[a])),
        !is_case_pattern_spec(step_trimmed(lines[a]), st.frames.len() > 0),
        !is_case_terminator_spec(step_lower(lines[a])),
        !has_prefix(step_lower(lines[a]), "case "@),
        !is_esac(step_lower(lines[a])),
        !ends_unescaped_backslash(trim_end_spec(trim_end_spec(lines[a]))),
        // the body lines
        forall|m: int| a < m < b ==> plain_line(#[trigger] lines[m], st),
        forall|m: int|
            a < m < b ==> !ends_unescaped_backslash(
                trim_end_spec(trim_end_spec(#[trigger] lines[m])),
            ),
        // the closing line
        !step_blank(lines[b]),
        dedent_closer(step_lower(lines[b])),
        !is_esac(step_lower(lines[b])),
        !is_elif_else(step_lower(lines[b])),
        !is_case_pattern_spec(step_trimmed(lines[b]), st.frames.len() > 0),
        !is_case_terminator_spec(step_lower(lines[b])),
        !has_prefix(step_lower(lines[b]), "case "@),
        !opens_block_spec(step_trimmed(lines[b])),
    ensures
        ({
            let emitted = normalize_line_spec(step_trimmed(lines[a]), st.indent).push('\n')
                + body_emissions(lines, a + 1, b, st.indent + 1) + normalize_line_spec(
                step_trimmed(lines[b]),
                st.indent,
            ).push('\n');
            bash_run(lines, a, st, acc) == bash_run(
                lines,
                b + 1,
                BashState {
                    indent: st.indent,
                    continuation: ends_unescaped_backslash(
                        trim_end_spec(trim_end_spec(lines[b])),
                    ),
                    last_blank: false,
                    frames: st.frames,
                },
                acc + emitted,
            )
        }),
{
    lemma_opener_indents_body(lines[a], st);
    let em_a = normalize_line_spec(step_trimmed(lines[a]), st.indent).push('\n');
    let mid = BashState {
        indent: st.indent + 1,
        continuation: false,
        last_blank: false,
        frames: st.frames,
    };
    assert(bash_step(lines[a], st).0 == mid);
    assert(forall|m: int| a < m < b ==> plain_line(#[trigger] lines[m], mid));
    lemma_plain_run(lines, a + 1, b, mid, acc + em_a);
    let em_body = body_emissions(lines, a + 1, b, st.indent + 1);
    lemma_closer_rejoins_header(lines[b], mid);
    let em_b = normalize_line_spec(step_trimmed(lines[b]), st.indent).push('\n');
    assert(sat_dec(mid.indent) == st.indent);
    assert(bash_step(lines[b], mid).0 == BashState {
        indent: st.indent,
        continuation: ends_unescaped_backslash(trim_end_spec(trim_end_spec(lines[b]))),
        last_blank: false,
        frames: st.frames,
    });
    assert(acc + em_a + em_body + em_b =~= acc + (em_a + em_body + em_b));
}

/// Law (control-block indent, whole output): when a script is exactly
/// one block — a header line such as `if … then`, plain body lines,
/// and a closing line such as `fi` — the assembled buffer is the
/// header at the left margin, every body line one level deeper, and
/// the closer back at the margin. (`bash_format_spec` then adds the
/// trailing-newline guarantee and the global comparison-operator
/// fix-ups on top of this buffer.)
pub proof fn lemma_block_layout_output(text: Seq<char>)
    requires
        ({
            let lines = crate::formats::text::lines_spec(text);
            let st = bash_init();
            let b = lines.len() - 1;
            &&& lines.len() >= 2
            &&& !step_blank(lines[0])
            &&& opens_block_spec(step_trimmed(lines[0]))
            &&& !dedent_closer(step_lower(lines[0]))
            &&& !is_elif_else(step_lower(lines[0]))
            &&& !is_case_pattern_spec(step_trimmed(lines[0]), false)
            &&& !is_case_terminator_spec(step_lower(lines[0]))
            &&& !has_prefix(step_lower(lines[0]), "case "@)
            &&& !is_esac(step_lower(lines[0]))
            &&& !ends_unescaped_backslash(trim_end_spec(trim_end_spec(lines[0])))
            &&& forall|m: int| 0 < m < b ==> plain_line(#[trigger] lines[m], st)
            &&& forall|m: int|
                0 < m < b ==> !ends_unescaped_backslash(
                    trim_end_spec(trim_end_spec(#[trigger] lines[m])),
                )
            &&& !step_blank(lines[b])
            &&& dedent_closer(step_lower(lines[b]))
            &&& !is_esac(step_lower(lines[b]))
            &&& !is_elif_else(step_lower(lines[b]))
            &&& !is_case_pattern_spec(step_trimmed(lines[b]), false)
            &&& !is_case_terminator_spec(step_lower(lines[b]))
            &&& !has_prefix(step_lower(lines[b]), "case "@)
            &&& !opens_block_spec(step_trimmed(lines[b]))
        }),
    ensures
        ({
            let lines = crate::formats::text::lines_spec(text);
            let b = lines.len() - 1;
            bash_body_spec(text) == normalize_line_spec(step_trimmed(lines[0]), 0).push('\n')
                + body_emissions(lines, 1, b, 1) + normalize_line_spec(
                step_trimmed(lines[b]),
                0,
            ).push('\n')
        }),
{
    let lines = crate::formats::text::lines_spec(text);
    let b = lines.len() - 1;
    lemma_block_layout(lines, 0, b, bash_init(), Seq::empty());
    let em = normalize_line_spec(step_trimmed(lines[0]), 0).push('\n') + body_emissions(
        lines,
        1,
        b,
        1,
    ) + normalize_line_spec(step_trimmed(lines[b]), 0).push('\n');
    assert(Seq::<char>::empty() + em =~= em);
}

/// Law (case nesting, whole output): when a script is exactly one
/// `case` block with one arm — the `case` line, a pattern line, plain
/// body lines, a terminator and `esac` — the assembled buffer is the
/// `case` line at the left margin, the pattern one level deeper, the
/// body one deeper again, the terminator aligned with the pattern, and
/// `esac` back at the margin. (`bash_format_spec` then adds the
/// trailing-newline guarantee and the global comparison-operator
/// fix-ups on top of this buffer.)
pub proof fn lemma_case_block_output(text: Seq<char>)
    requires
        ({
            let lines = crate::formats::text::lines_spec(text);
            let n = lines.len();
            let mid = BashState {
                indent: 2,
                continuation: false,
                last_blank: false,
                frames: seq![0],
            };
            &&& n >= 4
            // the `case` line
            &&& !step_blank(lines[0])
            &&& has_prefix(step_lower(lines[0]), "case "@)
            &&& !dedent_closer(step_lower(lines[0]))
            &&& !is_elif_else(step_lower(lines[0]))
            &&& !is_case_pattern_spec(step_trimmed(lines[0]), false)
            &&& !is_case_terminator_spec(step_lower(lines[0]))
            &&& !opens_block_spec(step_trimmed(lines[0]))
            &&& !ends_unescaped_backslash(trim_end_spec(trim_end_spec(lines[0])))
            // the pattern line
            &&& !step_blank(lines[1])
            &&& is_case_pattern_spec(step_trimmed(lines[1]), true)
            &&& !has_prefix(step_lower(lines[1]), "case "@)
            &&& !is_esac(step_lower(lines[1]))
            &&& !dedent_closer(step_lower(lines[1]))
            &&& !is_elif_else(step_lower(lines[1]))
            &&& !opens_block_spec(step_trimmed(lines[1]))
            &&& !ends_unescaped_backslash(trim_end_spec(trim_end_spec(lines[1])))
            // the arm's body
            &&& forall|m: int| 1 < m < n - 2 ==> plain_line(#[trigger] lines[m], mid)
            &&& forall|m: int|
                1 < m < n - 2 ==> !ends_unescaped_backslash(
                    trim_end_spec(trim_end_spec(#[trigger] lines[m])),
                )
            // the terminator line
            &&& !step_blank(lines[n - 2])
            &&& is_case_terminator_spec(step_lower(lines[n - 2]))
            &&& !is_case_pattern_spec(step_trimmed(lines[n - 2]), true)
            &&& !has_prefix(step_lower(lines[n - 2]), "case "@)
            &&& !is_esac(step_lower(lines[n - 2]))
            &&& !dedent_closer(step_lower(lines[n - 2]))
            &&& !is_elif_else(step_lower(lines[n - 2]))
            &&& !opens_block_spec(step_trimmed(lines[n - 2]))
            &&& !ends_unescaped_backslash(trim_end_spec(trim_end_spec(lines[n - 2])))
            // the `esac` line
            &&& !step_blank(lines[n - 1])
            &&& is_esac(step_lower(lines[n - 1]))
            &&& !is_case_pattern_spec(step_trimmed(lines[n - 1]), true)
            &&& !is_case_terminator_spec(step_lower(lines[n - 1]))
            &&& !has_prefix(step_lower(lines[n - 1]), "case "@)
            &&& !is_elif_else(step_lower(lines[n - 1]))
            &&& !opens_block_spec(step_trimmed(lines[n - 1]))
        }),
    ensures
        ({
            let lines = crate::formats::text::lines_spec(text);
            let n = lines.len();
            bash_body_spec(text) == normalize_line_spec(step_trimmed(lines[0]), 0).push('\n')
                + normalize_line_spec(step_trimmed(lines[1]), 1).push('\n') + body_emissions(
                lines,
                2,
                n - 2,
                2,
            ) + normalize_line_spec(step_trimmed(lines[n - 2]), 1).push('\n')
                + normalize_line_spec(step_trimmed(lines[n - 1]), 0).push('\n')
        }),
{
    let lines = crate::formats::text::lines_spec(text);
    let n: int = lines.len() as int;
    let st0 = bash_init();
    lemma_case_opens_frame(lines[0], st0);
    let em0 = normalize_line_spec(step_trimmed(lines[0]), 0).push('\n');
    let st1 = BashState { indent: 1, continuation: false, last_blank: false, frames: seq![0] };
    assert(Seq::<int>::empty().push(0) =~= seq![0]);
    assert(bash_step(lines[0], st0).0 == st1);
    lemma_case_pattern_indent(lines[1], st1);
    let em1 = normalize_line_spec(step_trimmed(lines[1]), 1).push('\n');
    let mid = BashState { indent: 2, continuation: false, last_blank: false, frames: seq![0] };
    assert(bash_step(lines[1], st1).0 == mid);
    lemma_plain_run(lines, 2, n - 2, mid, Seq::empty() + em0 + em1);
    let em_body = body_emissions(lines, 2, n - 2, 2);
    lemma_case_terminator_indent(lines[n - 2], mid);
    let em2 = normalize_line_spec(step_trimmed(lines[n - 2]), 1).push('\n');
    let st3 = BashState { indent: 1, continuation: false, last_blank: false, frames: seq![0] };
    assert(bash_step(lines[n - 2], mid).0 == st3);
    lemma_esac_restores_level(lines[n - 1], st3);
    let em3 = normalize_line_spec(step_trimmed(lines[n - 1]), 0).push('\n');
    let a0 = Seq::<char>::empty();
    assert(bash_run(lines, 0, st0, a0) == bash_run(lines, 1, st1, a0 + em0));
    assert(bash_run(lines, 1, st1, a0 + em0) == bash_run(lines, 2, mid, a0 + em0 + em1));
    assert(bash_run(lines, 2, mid, a0 + em0 + em1) == bash_run(
        lines,
        n - 2,
        mid,
        a0 + em0 + em1 + em_body,
    ));
    assert(bash_run(lines, n - 2, mid, a0 + em0 + em1 + em_body) == bash_run(
        lines,
        n - 1,
        st3,
        a0 + em0 + em1 + em_body + em2,
    ));
    assert(bash_run(lines, n - 1, st3, a0 + em0 + em1 + em_body + em2) == bash_run(
        lines,
        n,
        bash_step(lines[n - 1], st3).0,
        a0 + em0 + em1 + em_body + em2 + em3,
    ));
    assert(bash_run(lines, n, bash_step(lines[n - 1], st3).0, a0 + em0 + em1 + em_body + em2 + em3)
        == a0 + em0 + em1 + em_body + em2 + em3);
    assert(a0 + em0 + em1 + em_body + em2 + em3 =~= em0 + em1 + em_body + em2 + em3);
}

} // verus!
