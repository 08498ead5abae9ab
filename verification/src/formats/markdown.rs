//! Markdown formatting, delegated to the dprint Markdown plugin, with
//! fenced code blocks routed back through this crate's own formatters.

use vstd::prelude::*;

use crate::formats::FormatError;
use crate::formats::ensure_newline;
use crate::formats::ensure_newline_spec;
use crate::formats::opt_text;

verus! {

/// What the dprint Markdown plugin renders for a source text, with
/// this crate's `format_embedded` formatting the fenced code blocks;
/// `None` means the text is already formatted.
pub uninterp spec fn markdown_rendered(text: Seq<char>) -> Option<Seq<char>>;

/// Does the call succeed for a source text? Like the rendering itself,
/// success depends on the text alone.
pub uninterp spec fn markdown_accepts(text: Seq<char>) -> bool;

/// The message the call reports when it fails; like the rendering, a
/// function of the text alone.
pub uninterp spec fn markdown_failure(text: Seq<char>) -> Seq<char>;

/// Relies on `dprint_plugin_markdown::format_text` with the default
/// configuration: it returns the formatted document, or `None` when
/// nothing changes. The code-block callback only calls the crate's own
/// `format_embedded`, so the result is a function of the text alone.
#[verifier::external_body]
fn md_format_text(text: &str) -> (r: Result<Option<String>, String>)
    ensures
        r is Ok <==> markdown_accepts(text@),
        r matches Err(m) ==> m@ == markdown_failure(text@),
        r matches Ok(o) ==> opt_text(o) == markdown_rendered(text@),
{
    let conf = dprint_plugin_markdown::configuration::ConfigurationBuilder::new().build();
    dprint_plugin_markdown::format_text(text, &conf, |lang, code, _line| {
        match crate::formats::format_embedded(lang, code) {
            Ok(o) => Ok(o),
            Err(e) => Err(dprint_plugin_markdown::FormatError::CodeBlock(
                e.message().clone().into(),
            )),
        }
    }).map_err(|e| e.to_string())
}

/// Formats Markdown text: the plugin's rendering with a guaranteed
/// trailing newline, or `Ok(None)` when the plugin reports no change.
pub open spec fn format_post(text: Seq<char>, r: Result<Option<String>, FormatError>) -> bool {
    &&& (r is Ok <==> markdown_accepts(text))
    &&& r matches Err(e) ==> e.text() == markdown_failure(text)
    &&& r matches Ok(o) ==> match markdown_rendered(text) {
        None => o is None,
        Some(w) => o matches Some(s) && s@ == ensure_newline_spec(w),
    }
}

pub fn format(_path: &str, text: &str) -> (r: Result<Option<String>, FormatError>)
    ensures
        format_post(text@, r),
{
    match md_format_text(text) {
        Err(m) => Err(FormatError::Message(m)),
        Ok(None) => Ok(None),
        Ok(Some(t)) => Ok(Some(ensure_newline(t))),
    }
}

} // verus!
