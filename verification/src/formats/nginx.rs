//! Simple brace/semicolon-based formatter for nginx configuration.

use vstd::prelude::*;

use crate::formats::FormatError;
use crate::formats::ensure_newline_spec;
use crate::formats::text::has_prefix;
use crate::formats::text::has_suffix;
use crate::formats::text::join_with;
use crate::formats::text::lines_spec;
use crate::formats::text::replace_all;
use crate::formats::text::spaces;
use crate::formats::text::tokens;
use crate::formats::text::trim_end_char_spec;
use crate::formats::text::trim_end_spec;
use crate::formats::text::trim_spec;
use crate::formats::text::append_chars;
use crate::formats::text::contains_char;
use crate::formats::text::ends_with_chars;
use crate::formats::text::join_chars;
use crate::formats::text::lines_chars;
use crate::formats::text::push_spaces;
use crate::formats::text::replace_all_chars;
use crate::formats::text::starts_with_chars;
use crate::formats::text::str_to_chars;
use crate::formats::text::tokens_chars;
use crate::formats::text::trim_chars;
use crate::formats::text::trim_end_char;
use crate::formats::text::trim_end_chars;
use crate::formats::text::views;

verus! {

/// Saturating increment within `i32`'s range.
pub open spec fn sat_inc_i32(i: int) -> int {
    if i < i32::MAX {
        i + 1
    } else {
        i
    }
}

/// What one physical line contributes: the indent the next line starts
/// from and the emitted text. Blank lines are dropped, comments keep
/// their alignment, `}` lines dedent themselves, and a line containing
/// `{` indents what follows.
pub open spec fn nginx_step(raw: Seq<char>, ind: int) -> (int, Seq<char>) {
    let l = trim_spec(raw);
    if l.len() == 0 {
        (ind, Seq::empty())
    } else if has_prefix(l, "#"@) {
        (
            ind,
            spaces(
                4 * (if ind > 0 {
                    ind
                } else {
                    0
                }),
            ) + l + seq!['\n'],
        )
    } else {
        let ind1 = if has_prefix(l, "}"@) {
            ind - 1
        } else {
            ind
        };
        let ind2 = if ind1 < 0 {
            0
        } else {
            ind1
        };
        let tw = join_with(tokens(replace_all(trim_spec(trim_end_char_spec(l, ';')), "{"@, " {"@)), " "@);
        let te_raw = trim_end_spec(raw);
        let tw2 = if has_suffix(te_raw, "{"@) {
            tw + " {"@
        } else {
            tw
        };
        let tw3 = if has_suffix(te_raw, ";"@) {
            tw2 + ";"@
        } else {
            tw2
        };
        let ind3 = if raw.contains('{') {
            sat_inc_i32(ind2)
        } else {
            ind2
        };
        (ind3, spaces(4 * ind2) + tw3 + seq!['\n'])
    }
}

/// The buffer assembled once the lines from position `i` on have been
/// folded into the indent and buffer.
pub open spec fn nginx_run(lines: Seq<Seq<char>>, i: int, ind: int, acc: Seq<char>) -> Seq<char>
    decreases lines.len() - i,
    when 0 <= i
{
    if i >= lines.len() {
        acc
    } else {
        nginx_run(lines, i + 1, nginx_step(lines[i], ind).0, acc + nginx_step(lines[i], ind).1)
    }
}

/// The rewritten buffer for the whole input.
pub open spec fn nginx_body_spec(text: Seq<char>) -> Seq<char> {
    nginx_run(lines_spec(text), 0, 0, Seq::empty())
}

/// Formats nginx configuration text: `Ok(None)` when the rewrite equals
/// the input, otherwise the rewrite with a guaranteed trailing newline.
pub open spec fn format_post(text: Seq<char>, r: Result<Option<String>, FormatError>) -> bool {
    &&& nginx_body_spec(text) == text ==> (r matches Ok(o) && o is None)
    &&& nginx_body_spec(text) != text ==> (r matches Ok(o) && (o matches Some(s) && s@
        == ensure_newline_spec(nginx_body_spec(text))))
}

#[verifier::rlimit(60)]
pub fn format(_path: &str, text: &str) -> (r: Result<Option<String>, FormatError>)
    ensures
        format_post(text@, r),
{
    let chars = str_to_chars(text);
    let lines = lines_chars(&chars);
    let mut out: Vec<char> = Vec::new();
    let mut indent: i32 = 0;
    let p_hash = str_to_chars("#");
    let p_close = str_to_chars("}");
    let p_obrace = str_to_chars("{");
    let p_sp_obrace = str_to_chars(" {");
    let p_semi = str_to_chars(";");
    let p_space = str_to_chars(" ");
    let mut li: usize = 0;
    while li < lines.len()
        invariant
            li <= lines@.len(),
            views(lines@) == lines_spec(text@),
            indent >= 0,
            p_hash@ == "#"@ && p_close@ == "}"@ && p_obrace@ == "{"@ && p_sp_obrace@ == " {"@
                && p_semi@ == ";"@ && p_space@ == " "@,
            nginx_body_spec(text@) == nginx_run(views(lines@), li as int, indent as int, out@),
        decreases lines@.len() - li,
    {
        let ghost raw = views(lines@)[li as int];
        proof {
            assert(raw == lines@[li as int]@);
        }
        let ghost ind0 = indent as int;
        let line = &lines[li];
        let l = trim_chars(line);
        let ghost out0 = out@;
        if l.len() == 0 {
            proof {
                assert(out@ =~= out0 + Seq::<char>::empty());
            }
        } else if starts_with_chars(&l, &p_hash) {
            push_spaces(&mut out, 4, indent as usize);
            append_chars(&mut out, &l);
            out.push('\n');
            proof {
                assert(out@ =~= out0 + (spaces(4 * (indent as int)) + trim_spec(raw)
                    + seq!['\n']));
            }
        } else {
            if starts_with_chars(&l, &p_close) {
                indent = indent - 1;
            }
            if indent < 0 {
                indent = 0;
            }
            let l2 = trim_chars(&trim_end_char(&l, ';'));
            let replaced = replace_all_chars(&l2, &p_obrace, &p_sp_obrace);
            let toks = tokens_chars(&replaced);
            let tw = join_chars(&toks, &p_space);
            push_spaces(&mut out, 4, indent as usize);
            append_chars(&mut out, &tw);
            let te_raw = trim_end_chars(line);
            if ends_with_chars(&te_raw, &p_obrace) {
                append_chars(&mut out, &p_sp_obrace);
            }
            if ends_with_chars(&te_raw, &p_semi) {
                out.push(';');
            }
            out.push('\n');
            proof {
                reveal_strlit(";");
                let ind1 = if has_prefix(trim_spec(raw), "}"@) {
                    ind0 - 1
                } else {
                    ind0
                };
                let ind2 = if ind1 < 0 {
                    0
                } else {
                    ind1
                };
                assert(indent as int == ind2);
                let tw = join_with(
                    tokens(replace_all(trim_spec(trim_end_char_spec(trim_spec(raw), ';')), "{"@, " {"@)),
                    " "@,
                );
                let tw2 = if has_suffix(trim_end_spec(raw), "{"@) {
                    tw + " {"@
                } else {
                    tw
                };
                let tw3 = if has_suffix(trim_end_spec(raw), ";"@) {
                    tw2 + ";"@
                } else {
                    tw2
                };
                assert(out@ =~= out0 + (spaces(4 * ind2) + tw3 + seq!['\n']));
                assert(out@ =~= out0 + nginx_step(raw, ind0).1);
            }
            if contains_char(line, '{') {
                if indent < i32::MAX {
                    indent = indent + 1;
                }
            }
            proof {
                assert(indent as int == nginx_step(raw, ind0).0);
            }
        }
        li += 1;
    }
    if crate::formats::text::eq_chars(&out, &chars) {
        Ok(None)
    } else {
        let s = crate::formats::text::chars_to_string(&out);
        Ok(Some(crate::formats::ensure_newline(s)))
    }
}

} // verus!
