//! Heuristic formatter for protobuf sources: brace/semicolon
//! indentation at two spaces, with spacing normalized around `=`.

use vstd::prelude::*;

use crate::formats::FormatError;
use crate::formats::ensure_newline_spec;
use crate::formats::text::has_prefix;
use crate::formats::text::has_suffix;
use crate::formats::text::join_with;
use crate::formats::text::lines_spec;
use crate::formats::text::replace_all;
use crate::formats::text::spaces;
use crate::formats::text::tokens;
use crate::formats::text::trim_spec;
use crate::formats::text::append_chars;
use crate::formats::text::ends_with_chars;
use crate::formats::text::join_chars;
use crate::formats::text::lines_chars;
use crate::formats::text::push_spaces;
use crate::formats::text::replace_all_chars;
use crate::formats::text::starts_with_chars;
use crate::formats::text::str_to_chars;
use crate::formats::text::tokens_chars;
use crate::formats::text::trim_chars;
use crate::formats::text::views;
use crate::formats::nginx::sat_inc_i32;

verus! {

/// What one physical line contributes: the indent the next line starts
/// from and the emitted text. Blank lines are dropped; a leading `}`
/// dedents the line itself; a trailing `{` indents what follows; a
/// trailing `};` takes one level back.
pub open spec fn proto_step(raw: Seq<char>, ind: int) -> (int, Seq<char>) {
    let l = trim_spec(raw);
    if l.len() == 0 {
        (ind, Seq::empty())
    } else {
        let ind1 = if has_prefix(l, "}"@) {
            ind - 1
        } else {
            ind
        };
        let ind2 = if ind1 < 0 {
            0
        } else {
            ind1
        };
        let cur = join_with(tokens(replace_all(l, "="@, " = "@)), " "@);
        let ind3 = if has_suffix(cur, "{"@) {
            sat_inc_i32(ind2)
        } else {
            ind2
        };
        let ind4 = if has_suffix(cur, "};"@) {
            ind3 - 1
        } else {
            ind3
        };
        (ind4, spaces(2 * ind2) + cur + seq!['\n'])
    }
}

/// The buffer assembled once the lines from position `i` on have been
/// folded into the indent and buffer.
pub open spec fn proto_run(lines: Seq<Seq<char>>, i: int, ind: int, acc: Seq<char>) -> Seq<char>
    decreases lines.len() - i,
    when 0 <= i
{
    if i >= lines.len() {
        acc
    } else {
        proto_run(lines, i + 1, proto_step(lines[i], ind).0, acc + proto_step(lines[i], ind).1)
    }
}

/// The rewritten buffer for the whole input.
pub open spec fn proto_body_spec(text: Seq<char>) -> Seq<char> {
    proto_run(lines_spec(text), 0, 0, Seq::empty())
}

/// Formats protobuf source text: `Ok(None)` when the rewrite equals the
/// input, otherwise the rewrite with a guaranteed trailing newline.
pub open spec fn format_post(text: Seq<char>, r: Result<Option<String>, FormatError>) -> bool {
    &&& proto_body_spec(text) == text ==> (r matches Ok(o) && o is None)
    &&& proto_body_spec(text) != text ==> (r matches Ok(o) && (o matches Some(s) && s@
        == ensure_newline_spec(proto_body_spec(text))))
}

#[verifier::rlimit(60)]
pub fn format(_path: &str, text: &str) -> (r: Result<Option<String>, FormatError>)
    ensures
        format_post(text@, r),
{
    let chars = str_to_chars(text);
    let lines = lines_chars(&chars);
    let mut out: Vec<char> = Vec::new();
    let mut indent: i32 = 0;
    let p_close = str_to_chars("}");
    let p_obrace = str_to_chars("{");
    let p_close_semi = str_to_chars("};");
    let p_eq = str_to_chars("=");
    let p_sp_eq = str_to_chars(" = ");
    let p_space = str_to_chars(" ");
    let mut li: usize = 0;
    while li < lines.len()
        invariant
            li <= lines@.len(),
            views(lines@) == lines_spec(text@),
            indent >= -1,
            p_close@ == "}"@ && p_obrace@ == "{"@ && p_close_semi@ == "};"@ && p_eq@ == "="@
                && p_sp_eq@ == " = "@ && p_space@ == " "@,
            proto_body_spec(text@) == proto_run(views(lines@), li as int, indent as int, out@),
        decreases lines@.len() - li,
    {
        let ghost raw = views(lines@)[li as int];
        proof {
            assert(raw == lines@[li as int]@);
        }
        let ghost ind0 = indent as int;
        let line = &lines[li];
        let l = trim_chars(line);
        let ghost out0 = out@;
        if l.len() == 0 {
            proof {
                assert(out@ =~= out0 + Seq::<char>::empty());
            }
        } else {
            if starts_with_chars(&l, &p_close) {
                indent = indent - 1;
            }
            if indent < 0 {
                indent = 0;
            }
            let replaced = replace_all_chars(&l, &p_eq, &p_sp_eq);
            let toks = tokens_chars(&replaced);
            let cur = join_chars(&toks, &p_space);
            push_spaces(&mut out, 2, indent as usize);
            append_chars(&mut out, &cur);
            out.push('\n');
            proof {
                let ind1 = if has_prefix(trim_spec(raw), "}"@) {
                    ind0 - 1
                } else {
                    ind0
                };
                let ind2 = if ind1 < 0 {
                    0
                } else {
                    ind1
                };
                assert(indent as int == ind2);
                assert(out@ =~= out0 + proto_step(raw, ind0).1);
            }
            if ends_with_chars(&cur, &p_obrace) {
                if indent < i32::MAX {
                    indent = indent + 1;
                }
            }
            if ends_with_chars(&cur, &p_close_semi) {
                indent = indent - 1;
            }
            proof {
                assert(indent as int == proto_step(raw, ind0).0);
            }
        }
        li += 1;
    }
    if crate::formats::text::eq_chars(&out, &chars) {
        Ok(None)
    } else {
        let s = crate::formats::text::chars_to_string(&out);
        Ok(Some(crate::formats::ensure_newline(s)))
    }
}

} // verus!
