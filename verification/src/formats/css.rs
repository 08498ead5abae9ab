//! CSS formatting, delegated to the dprint CSS plugin.

use vstd::prelude::*;

use crate::formats::FormatError;
use crate::formats::ensure_newline;
use crate::formats::ensure_newline_spec;
use crate::formats::text::eq_chars;
use crate::formats::text::str_to_chars;

verus! {

/// What the dprint CSS plugin renders for a path hint and source text.
pub uninterp spec fn css_rendered(path: Seq<char>, text: Seq<char>) -> Seq<char>;

/// Does the call succeed for a path hint and source text? Like the
/// rendering itself, success depends on the inputs alone.
pub uninterp spec fn css_accepts(path: Seq<char>, text: Seq<char>) -> bool;

/// The message the call reports when it fails; like the rendering, a
/// function of the inputs alone.
pub uninterp spec fn css_failure(path: Seq<char>, text: Seq<char>) -> Seq<char>;

/// Relies on `dprint_plugin_css::format_text` with the default
/// configuration: it returns the formatted stylesheet, a function of
/// the path hint and the text alone.
#[verifier::external_body]
fn css_format_text(path: &str, text: &str) -> (r: Result<String, String>)
    ensures
        r is Ok <==> css_accepts(path@, text@),
        r matches Err(m) ==> m@ == css_failure(path@, text@),
        r matches Ok(s) ==> s@ == css_rendered(path@, text@),
{
    let conf = dprint_plugin_css::configuration::ConfigurationBuilder::new().build();
    dprint_plugin_css::format_text(std::path::Path::new(path), text, &conf).map_err(|e| {
        e.to_string()
    })
}

/// Formats CSS text: `Ok(None)` when the plugin's rendering equals the
/// input, otherwise the rendering with a guaranteed trailing newline.
pub open spec fn format_post(path: Seq<char>, text: Seq<char>, r: Result<
    Option<String>,
    FormatError,
>) -> bool {
    &&& (r is Ok <==> css_accepts(path, text))
    &&& r matches Err(e) ==> e.text() == css_failure(path, text)
    &&& r matches Ok(o) ==> ({
        let w = css_rendered(path, text);
        &&& w == text ==> o is None
        &&& w != text ==> (o matches Some(s) && s@ == ensure_newline_spec(w))
    })
}

pub fn format(path: &str, text: &str) -> (r: Result<Option<String>, FormatError>)
    ensures
        format_post(path@, text@, r),
{
    match css_format_text(path, text) {
        Err(m) => Err(FormatError::Message(m)),
        Ok(formatted) => {
            let a = str_to_chars(formatted.as_str());
            let b = str_to_chars(text);
            if eq_chars(&a, &b) {
                Ok(None)
            } else {
                Ok(Some(ensure_newline(formatted)))
            }
        },
    }
}

} // verus!
