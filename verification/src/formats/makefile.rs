//! Heuristic Makefile formatter: trims trailing whitespace, collapses
//! runs of blank lines, normalizes rule lines, and forces recipe lines
//! to begin with a tab.

use vstd::prelude::*;

use crate::formats::FormatError;
use crate::formats::ensure_newline_spec;
use crate::formats::text::find_pat;
use crate::formats::text::has_prefix;
use crate::formats::text::join_with;
use crate::formats::text::lines_spec;
use crate::formats::text::tokens;
use crate::formats::text::trim_end_spec;
use crate::formats::text::trim_start_spec;
use crate::formats::text::find_pat_chars;
use crate::formats::text::join_chars;
use crate::formats::text::lines_chars;
use crate::formats::text::starts_with_chars;
use crate::formats::text::str_to_chars;
use crate::formats::text::subvec;
use crate::formats::text::tokens_chars;
use crate::formats::text::trim_end_chars;
use crate::formats::text::trim_start_chars;
use crate::formats::text::views;

verus! {

/// What one physical line contributes: the blank flag and rule flag the
/// next line starts from, and the emitted text.
pub open spec fn mk_step(raw: Seq<char>, prev_blank: bool, in_rule: bool) -> (
    bool,
    bool,
    Seq<char>,
) {
    let te = trim_end_spec(raw);
    let ts = trim_start_spec(te);
    if ts.len() == 0 {
        if prev_blank {
            (prev_blank, in_rule, Seq::empty())
        } else {
            (true, in_rule, seq!['\n'])
        }
    } else if has_prefix(ts, "#"@) {
        (false, in_rule, ts.push('\n'))
    } else if !has_prefix(te, "\t"@) && !has_prefix(te, " "@) && find_pat(te, ":"@) is Some {
        let p = match find_pat(te, ":"@) {
            Some(p) => p,
            None => 0,
        };
        let targets = trim_end_spec(te.take(p));
        let deps = join_with(tokens(te.skip(p + 1)), " "@);
        let emit = if deps.len() == 0 {
            targets + ":"@
        } else {
            targets + ": "@ + deps
        };
        (false, true, emit.push('\n'))
    } else if in_rule && !has_prefix(te, "\t"@) && te.len() > 0 {
        (false, in_rule, seq!['\t'] + ts + seq!['\n'])
    } else {
        (false, in_rule, te.push('\n'))
    }
}

/// The buffer assembled once the lines from position `i` on have been
/// folded into the flags and buffer.
pub open spec fn mk_run(
    lines: Seq<Seq<char>>,
    i: int,
    prev_blank: bool,
    in_rule: bool,
    acc: Seq<char>,
) -> Seq<char>
    decreases lines.len() - i,
    when 0 <= i
{
    if i >= lines.len() {
        acc
    } else {
        mk_run(
            lines,
            i + 1,
            mk_step(lines[i], prev_blank, in_rule).0,
            mk_step(lines[i], prev_blank, in_rule).1,
            acc + mk_step(lines[i], prev_blank, in_rule).2,
        )
    }
}

/// The rewritten buffer for the whole input, before the trailing
/// newline is guaranteed.
pub open spec fn mk_body_spec(text: Seq<char>) -> Seq<char> {
    mk_run(lines_spec(text), 0, false, false, Seq::empty())
}

/// Formats Makefile source text: `Ok(None)` when the rewrite equals the
/// input, otherwise the rewrite with a guaranteed trailing newline.
pub open spec fn format_post(text: Seq<char>, r: Result<Option<String>, FormatError>) -> bool {
    &&& mk_body_spec(text) == text ==> (r matches Ok(o) && o is None)
    &&& mk_body_spec(text) != text ==> (r matches Ok(o) && (o matches Some(s) && s@
        == ensure_newline_spec(mk_body_spec(text))))
}

pub fn format(_path: &str, text: &str) -> (r: Result<Option<String>, FormatError>)
    ensures
        format_post(text@, r),
{
    let chars = str_to_chars(text);
    let lines = lines_chars(&chars);
    let mut out: Vec<char> = Vec::new();
    let mut prev_blank = false;
    let mut in_rule = false;
    let p_hash = str_to_chars("#");
    let p_tab = str_to_chars("\t");
    let p_space = str_to_chars(" ");
    let p_colon = str_to_chars(":");
    let mut li: usize = 0;
    while li < lines.len()
        invariant
            li <= lines@.len(),
            views(lines@) == lines_spec(text@),
            p_hash@ == "#"@ && p_tab@ == "\t"@ && p_space@ == " "@ && p_colon@ == ":"@,
            mk_body_spec(text@) == mk_run(views(lines@), li as int, prev_blank, in_rule, out@),
        decreases lines@.len() - li,
    {
        let ghost raw = views(lines@)[li as int];
        proof {
            assert(raw == lines@[li as int]@);
        }
        let line = &lines[li];
        let te = trim_end_chars(line);
        let ts = trim_start_chars(&te);
        let ghost out0 = out@;
        if ts.len() == 0 {
            if !prev_blank {
                out.push('\n');
                prev_blank = true;
                proof {
                    assert(out@ =~= out0 + seq!['\n']);
                }
            } else {
                proof {
                    assert(out@ =~= out0 + Seq::<char>::empty());
                }
            }
        } else if starts_with_chars(&ts, &p_hash) {
            prev_blank = false;
            crate::formats::text::append_chars(&mut out, &ts);
            out.push('\n');
            proof {
                assert(out@ =~= out0 + trim_start_spec(trim_end_spec(raw)).push('\n'));
            }
        } else {
            prev_blank = false;
            let is_tab = starts_with_chars(&te, &p_tab);
            let is_sp = starts_with_chars(&te, &p_space);
            let colon = if !is_tab && !is_sp {
                find_pat_chars(&te, &p_colon)
            } else {
                None
            };
            match colon {
                Some(p) => {
                    proof {
                        crate::formats::text::lemma_find_pat(te@, p_colon@);
                        assert(te@.subrange(0, p as int) =~= te@.take(p as int));
                        assert(te@.subrange(p + 1, te@.len() as int) =~= te@.skip(p + 1));
                        reveal_strlit(":");
                    }
                    let n = te.len();
                    let targets = trim_end_chars(&subvec(&te, 0, p));
                    let deps_raw = subvec(&te, p + 1, n);
                    let deps_toks = tokens_chars(&deps_raw);
                    let deps = join_chars(&deps_toks, &p_space);
                    crate::formats::text::append_chars(&mut out, &targets);
                    if deps.len() == 0 {
                        out.push(':');
                        proof {
                            assert(out@ =~= out0 + (targets@ + ":"@).push('\n').drop_last());
                            assert(out@.push('\n') =~= out0 + (targets@ + ":"@).push('\n'));
                        }
                    } else {
                        out.push(':');
                        out.push(' ');
                        crate::formats::text::append_chars(&mut out, &deps);
                        proof {
                            reveal_strlit(": ");
                            assert(out@ =~= out0 + (targets@ + ": "@ + deps@));
                            assert(out@.push('\n') =~= out0 + (targets@ + ": "@ + deps@).push(
                                '\n',
                            ));
                        }
                    }
                    out.push('\n');
                    in_rule = true;
                },
                None => {
                    if in_rule && !is_tab && te.len() > 0 {
                        out.push('\t');
                        crate::formats::text::append_chars(&mut out, &ts);
                        out.push('\n');
                        proof {
                            assert(out@ =~= out0 + (seq!['\t'] + trim_start_spec(
                                trim_end_spec(raw),
                            ) + seq!['\n']));
                        }
                    } else {
                        crate::formats::text::append_chars(&mut out, &te);
                        out.push('\n');
                        proof {
                            assert(out@ =~= out0 + trim_end_spec(raw).push('\n'));
                        }
                    }
                },
            }
        }
        li += 1;
    }
    if crate::formats::text::eq_chars(&out, &chars) {
        Ok(None)
    } else {
        let s = crate::formats::text::chars_to_string(&out);
        Ok(Some(crate::formats::ensure_newline(s)))
    }
}

} // verus!
