//! GraphQL formatting, delegated to the pretty_graphql formatter.

use vstd::prelude::*;

use crate::formats::FormatError;
use crate::formats::ensure_newline;
use crate::formats::ensure_newline_spec;
use crate::formats::text::eq_chars;
use crate::formats::text::str_to_chars;

verus! {

/// What pretty_graphql renders for a parsable GraphQL source text.
pub uninterp spec fn graphql_rendered(text: Seq<char>) -> Seq<char>;

/// Does the call succeed for a source text? Like the rendering itself,
/// success depends on the text alone.
pub uninterp spec fn graphql_accepts(text: Seq<char>) -> bool;

/// The message the call reports when it fails; like the rendering, a
/// function of the text alone.
pub uninterp spec fn graphql_failure(text: Seq<char>) -> Seq<char>;

/// Relies on `pretty_graphql::format_text` with the default options:
/// the formatted document is a function of the text alone.
#[verifier::external_body]
fn graphql_format_text(text: &str) -> (r: Result<String, String>)
    ensures
        r is Ok <==> graphql_accepts(text@),
        r matches Err(m) ==> m@ == graphql_failure(text@),
        r matches Ok(s) ==> s@ == graphql_rendered(text@),
{
    let opts = pretty_graphql::config::FormatOptions::default();
    pretty_graphql::format_text(text, &opts).map_err(|e| format!("graphql format error: {e}"))
}

/// Formats GraphQL text: `Ok(None)` when the rendering equals the
/// input, otherwise the rendering with a guaranteed trailing newline.
pub open spec fn format_post(text: Seq<char>, r: Result<Option<String>, FormatError>) -> bool {
    &&& (r is Ok <==> graphql_accepts(text))
    &&& r matches Err(e) ==> e.text() == graphql_failure(text)
    &&& r matches Ok(o) ==> ({
        let w = graphql_rendered(text);
        &&& w == text ==> o is None
        &&& w != text ==> (o matches Some(s) && s@ == ensure_newline_spec(w))
    })
}

pub fn format(_path: &str, text: &str) -> (r: Result<Option<String>, FormatError>)
    ensures
        format_post(text@, r),
{
    match graphql_format_text(text) {
        Err(m) => Err(FormatError::Message(m)),
        Ok(out) => {
            let a = str_to_chars(out.as_str());
            let b = str_to_chars(text);
            if eq_chars(&a, &b) {
                Ok(None)
            } else {
                Ok(Some(ensure_newline(out)))
            }
        },
    }
}

} // verus!
