//! SQL formatting, delegated to the dprint SQL plugin.

use vstd::prelude::*;

use crate::formats::FormatError;
use crate::formats::ensure_newline;
use crate::formats::ensure_newline_spec;
use crate::formats::opt_text;

verus! {

/// What the dprint SQL plugin renders for a path hint and source
/// text; `None` means the text is already formatted.
pub uninterp spec fn sql_rendered(path: Seq<char>, text: Seq<char>) -> Option<Seq<char>>;

/// Does the call succeed for a path hint and source text? Like the
/// rendering itself, success depends on the inputs alone.
pub uninterp spec fn sql_accepts(path: Seq<char>, text: Seq<char>) -> bool;

/// The message the call reports when it fails; like the rendering, a
/// function of the inputs alone.
pub uninterp spec fn sql_failure(path: Seq<char>, text: Seq<char>) -> Seq<char>;

/// Relies on `dprint_plugin_sql::format_text` with the default
/// configuration: it returns the formatted statement list, or `None`
/// when nothing changes, a function of the path hint and the text
/// alone.
#[verifier::external_body]
fn sql_format_text(path: &str, text: &str) -> (r: Result<Option<String>, String>)
    ensures
        r is Ok <==> sql_accepts(path@, text@),
        r matches Err(m) ==> m@ == sql_failure(path@, text@),
        r matches Ok(o) ==> opt_text(o) == sql_rendered(path@, text@),
{
    let conf = dprint_plugin_sql::configuration::ConfigurationBuilder::new().build();
    dprint_plugin_sql::format_text(std::path::Path::new(path), text, &conf).map_err(|e| {
        e.to_string()
    })
}

/// Formats SQL text: the plugin's rendering with a guaranteed trailing
/// newline, or `Ok(None)` when the plugin reports no change.
pub open spec fn format_post(path: Seq<char>, text: Seq<char>, r: Result<
    Option<String>,
    FormatError,
>) -> bool {
    &&& (r is Ok <==> sql_accepts(path, text))
    &&& r matches Err(e) ==> e.text() == sql_failure(path, text)
    &&& r matches Ok(o) ==> match sql_rendered(path, text) {
        None => o is None,
        Some(w) => o matches Some(s) && s@ == ensure_newline_spec(w),
    }
}

pub fn format(path: &str, text: &str) -> (r: Result<Option<String>, FormatError>)
    ensures
        format_post(path@, text@, r),
{
    match sql_format_text(path, text) {
        Err(m) => Err(FormatError::Message(m)),
        Ok(None) => Ok(None),
        Ok(Some(t)) => Ok(Some(ensure_newline(t))),
    }
}

} // verus!
