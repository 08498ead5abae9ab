//! HCL formatting: parsed into an `hcl::Body` and re-rendered by the
//! hcl crate's formatter.

use vstd::prelude::*;

use crate::formats::FormatError;
use crate::formats::ensure_newline;
use crate::formats::ensure_newline_spec;
use crate::formats::text::eq_chars;
use crate::formats::text::str_to_chars;

verus! {

/// What the hcl crate's formatter renders for a parsable HCL source
/// text.
pub uninterp spec fn hcl_rendered(text: Seq<char>) -> Seq<char>;

/// Does the call succeed for a source text? Like the rendering itself,
/// success depends on the text alone.
pub uninterp spec fn hcl_accepts(text: Seq<char>) -> bool;

/// The message the call reports when it fails; like the rendering, a
/// function of the text alone.
pub uninterp spec fn hcl_failure(text: Seq<char>) -> Seq<char>;

/// Relies on `hcl::from_str` and `hcl::format::to_string`: parsing
/// succeeds exactly on valid HCL, and the re-rendered body is a
/// function of the text alone.
#[verifier::external_body]
fn hcl_format_text(text: &str) -> (r: Result<String, String>)
    ensures
        r is Ok <==> hcl_accepts(text@),
        r matches Err(m) ==> m@ == hcl_failure(text@),
        r matches Ok(s) ==> s@ == hcl_rendered(text@),
{
    let body: hcl::Body = match hcl::from_str(text) {
        Ok(b) => b,
        Err(e) => return Err(format!("hcl parse error: {e}")),
    };
    hcl::format::to_string(&body).map_err(|e| format!("hcl format error: {e}"))
}

/// Formats HCL text: `Ok(None)` when the rendering equals the input,
/// otherwise the rendering with a guaranteed trailing newline.
pub open spec fn format_post(text: Seq<char>, r: Result<Option<String>, FormatError>) -> bool {
    &&& (r is Ok <==> hcl_accepts(text))
    &&& r matches Err(e) ==> e.text() == hcl_failure(text)
    &&& r matches Ok(o) ==> ({
        let w = hcl_rendered(text);
        &&& w == text ==> o is None
        &&& w != text ==> (o matches Some(s) && s@ == ensure_newline_spec(w))
    })
}

pub fn format(_path: &str, text: &str) -> (r: Result<Option<String>, FormatError>)
    ensures
        format_post(text@, r),
{
    match hcl_format_text(text) {
        Err(m) => Err(FormatError::Message(m)),
        Ok(out) => {
            let a = str_to_chars(out.as_str());
            let b = str_to_chars(text);
            if eq_chars(&a, &b) {
                Ok(None)
            } else {
                Ok(Some(ensure_newline(out)))
            }
        },
    }
}

} // verus!
