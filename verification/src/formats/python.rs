//! Python formatting, delegated to the dprint Ruff plugin.

use vstd::prelude::*;

use crate::formats::FormatError;
use crate::formats::ensure_newline;
use crate::formats::ensure_newline_spec;
use crate::formats::opt_text;

verus! {

/// What the Ruff formatter renders for a path hint and source text;
/// `None` means the text is already formatted.
pub uninterp spec fn ruff_rendered(path: Seq<char>, text: Seq<char>) -> Option<Seq<char>>;

/// Does the call succeed for a path hint and source text? Like the
/// rendering itself, success depends on the inputs alone.
pub uninterp spec fn ruff_accepts(path: Seq<char>, text: Seq<char>) -> bool;

/// The message the call reports when it fails; like the rendering, a
/// function of the inputs alone.
pub uninterp spec fn ruff_failure(path: Seq<char>, text: Seq<char>) -> Seq<char>;

/// Relies on `dprint_plugin_ruff::format_text` with the default
/// configuration: it returns the plugin's outcome, a function of the
/// path hint and the text alone. The plugin version this build links
/// reports `None` — no change — for every input.
#[verifier::external_body]
fn ruff_format_text(path: &str, text: &str) -> (r: Result<Option<String>, String>)
    ensures
        r is Ok <==> ruff_accepts(path@, text@),
        r matches Err(m) ==> m@ == ruff_failure(path@, text@),
        r matches Ok(o) ==> opt_text(o) == ruff_rendered(path@, text@),
{
    let conf = dprint_plugin_ruff::configuration::Configuration::default();
    dprint_plugin_ruff::format_text(std::path::Path::new(path), text, &conf).map_err(|e| {
        e.to_string()
    })
}

/// Formats Python text: the formatter's rendering with a guaranteed
/// trailing newline, or `Ok(None)` when it reports no change.
pub open spec fn format_post(path: Seq<char>, text: Seq<char>, r: Result<
    Option<String>,
    FormatError,
>) -> bool {
    &&& (r is Ok <==> ruff_accepts(path, text))
    &&& r matches Err(e) ==> e.text() == ruff_failure(path, text)
    &&& r matches Ok(o) ==> match ruff_rendered(path, text) {
        None => o is None,
        Some(w) => o matches Some(s) && s@ == ensure_newline_spec(w),
    }
}

pub fn format(path: &str, text: &str) -> (r: Result<Option<String>, FormatError>)
    ensures
        format_post(path@, text@, r),
{
    match ruff_format_text(path, text) {
        Err(m) => Err(FormatError::Message(m)),
        Ok(None) => Ok(None),
        Ok(Some(t)) => Ok(Some(ensure_newline(t))),
    }
}

} // verus!
