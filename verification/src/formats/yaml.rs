//! YAML formatting, delegated to the pretty_yaml formatter, with the
//! input's line-break style detected and preserved.

use vstd::prelude::*;

use crate::formats::FormatError;
use crate::formats::ensure_newline;
use crate::formats::ensure_newline_spec;
use crate::formats::text::contains_pat;
use crate::formats::text::contains_pat_chars;
use crate::formats::text::eq_chars;
use crate::formats::text::str_to_chars;

verus! {

/// What pretty_yaml renders for a parsable YAML source text, with the
/// chosen line-break style.
pub uninterp spec fn yaml_rendered(text: Seq<char>, crlf: bool) -> Seq<char>;

/// Does the call succeed for a source text and line-break style? Like
/// the rendering itself, success depends on the two alone.
pub uninterp spec fn yaml_accepts(text: Seq<char>, crlf: bool) -> bool;

/// The message the call reports when it fails; like the rendering, a
/// function of the text and line-break style alone.
pub uninterp spec fn yaml_failure(text: Seq<char>, crlf: bool) -> Seq<char>;

/// Does the text use CRLF line breaks?
pub fn detect_line_break(text: &str) -> (r: bool)
    ensures
        r == contains_pat(text@, "\r\n"@),
{
    proof {
        reveal_strlit("\r\n");
    }
    let chars = str_to_chars(text);
    contains_pat_chars(&chars, &str_to_chars("\r\n"))
}

/// Relies on `pretty_yaml::format_text`, configured with two-space
/// indentation, no practical line-width limit, trailing whitespace and
/// comments preserved, and the given line-break style: the formatted
/// document is a function of the text and that style alone.
#[verifier::external_body]
fn yaml_format_text(text: &str, crlf: bool) -> (r: Result<String, String>)
    ensures
        r is Ok <==> yaml_accepts(text@, crlf),
        r matches Err(m) ==> m@ == yaml_failure(text@, crlf),
        r matches Ok(s) ==> s@ == yaml_rendered(text@, crlf),
{
    let mut options = pretty_yaml::config::FormatOptions::default();
    options.layout.indent_width = 2;
    options.layout.print_width = 10_000;
    options.layout.line_break = if crlf {
        pretty_yaml::config::LineBreak::Crlf
    } else {
        pretty_yaml::config::LineBreak::Lf
    };
    options.language.trailing_comma = false;
    options.language.trim_trailing_whitespaces = false;
    options.language.prefer_single_line = false;
    options.language.flow_sequence_prefer_single_line = None;
    options.language.flow_map_prefer_single_line = None;
    pretty_yaml::format_text(text, &options).map_err(|e| format!("YAML format error: {e}"))
}

/// Formats YAML text: the rendering with a guaranteed trailing newline,
/// or `Ok(None)` when that equals the input.
pub open spec fn format_post(text: Seq<char>, r: Result<Option<String>, FormatError>) -> bool {
    &&& (r is Ok <==> yaml_accepts(text, contains_pat(text, "\r\n"@)))
    &&& r matches Err(e) ==> e.text() == yaml_failure(text, contains_pat(text, "\r\n"@))
    &&& r matches Ok(o) ==> ({
        let w = ensure_newline_spec(yaml_rendered(text, contains_pat(text, "\r\n"@)));
        &&& w == text ==> o is None
        &&& w != text ==> (o matches Some(s) && s@ == w)
    })
}

pub fn format(_path: &str, text: &str) -> (r: Result<Option<String>, FormatError>)
    ensures
        format_post(text@, r),
{
    let crlf = detect_line_break(text);
    match yaml_format_text(text, crlf) {
        Err(m) => Err(FormatError::Message(m)),
        Ok(formatted) => {
            let output = ensure_newline(formatted);
            let a = str_to_chars(output.as_str());
            let b = str_to_chars(text);
            if eq_chars(&a, &b) {
                Ok(None)
            } else {
                Ok(Some(output))
            }
        },
    }
}

} // verus!
