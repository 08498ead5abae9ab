//! HTML formatting: parsed into an rcdom tree with html5ever and
//! re-serialized.

use html5ever::tendril::TendrilSink;

use vstd::prelude::*;

use crate::formats::FormatError;
use crate::formats::ensure_newline;
use crate::formats::ensure_newline_spec;
use crate::formats::text::eq_chars;
use crate::formats::text::str_to_chars;

verus! {

/// What the html5ever parse/serialize round trip renders for the given
/// source text.
pub uninterp spec fn html_rendered(text: Seq<char>) -> Seq<char>;

/// Does the call succeed for a source text? Like the rendering itself,
/// success depends on the text alone.
pub uninterp spec fn html_accepts(text: Seq<char>) -> bool;

/// The message the call reports when it fails; like the rendering, a
/// function of the text alone.
pub uninterp spec fn html_failure(text: Seq<char>) -> Seq<char>;

/// Relies on `html5ever::parse_document` into a `markup5ever_rcdom`
/// tree and `html5ever::serialize` of the document's children: the
/// serialized markup is a function of the text alone.
#[verifier::external_body]
fn html_format_text(text: &str) -> (r: Result<String, String>)
    ensures
        r is Ok <==> html_accepts(text@),
        r matches Err(m) ==> m@ == html_failure(text@),
        r matches Ok(s) ==> s@ == html_rendered(text@),
{
    let dom: markup5ever_rcdom::RcDom = html5ever::parse_document(
        markup5ever_rcdom::RcDom::default(),
        Default::default(),
    ).from_utf8().read_from(&mut text.as_bytes()).map_err(|e| format!("html parse error: {e:?}"))?;
    let mut out = Vec::new();
    let opts = html5ever::serialize::SerializeOpts {
        traversal_scope: html5ever::serialize::TraversalScope::ChildrenOnly(None),
        ..Default::default()
    };
    let handle: markup5ever_rcdom::SerializableHandle = dom.document.clone().into();
    html5ever::serialize(&mut out, &handle, opts).map_err(|e| e.to_string())?;
    String::from_utf8(out).map_err(|e| e.to_string())
}

/// Formats HTML text: `Ok(None)` when the rendering equals the input,
/// otherwise the rendering with a guaranteed trailing newline.
pub open spec fn format_post(text: Seq<char>, r: Result<Option<String>, FormatError>) -> bool {
    &&& (r is Ok <==> html_accepts(text))
    &&& r matches Err(e) ==> e.text() == html_failure(text)
    &&& r matches Ok(o) ==> ({
        let w = html_rendered(text);
        &&& w == text ==> o is None
        &&& w != text ==> (o matches Some(s) && s@ == ensure_newline_spec(w))
    })
}

pub fn format(_path: &str, text: &str) -> (r: Result<Option<String>, FormatError>)
    ensures
        format_post(text@, r),
{
    match html_format_text(text) {
        Err(m) => Err(FormatError::Message(m)),
        Ok(out) => {
            let a = str_to_chars(out.as_str());
            let b = str_to_chars(text);
            if eq_chars(&a, &b) {
                Ok(None)
            } else {
                Ok(Some(ensure_newline(out)))
            }
        },
    }
}

} // verus!
