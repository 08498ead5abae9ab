//! INI formatting: parsed and re-written by the rust-ini crate.

use vstd::prelude::*;

use crate::formats::FormatError;
use crate::formats::ensure_newline;
use crate::formats::ensure_newline_spec;
use crate::formats::text::eq_chars;
use crate::formats::text::str_to_chars;

verus! {

/// What the rust-ini writer renders for a parsable INI source text.
pub uninterp spec fn ini_rendered(text: Seq<char>) -> Seq<char>;

/// Does the call succeed for a source text? Like the rendering itself,
/// success depends on the text alone.
pub uninterp spec fn ini_accepts(text: Seq<char>) -> bool;

/// The message the call reports when it fails; like the rendering, a
/// function of the text alone.
pub uninterp spec fn ini_failure(text: Seq<char>) -> Seq<char>;

/// Relies on `ini::Ini::load_from_str` and `ini::Ini::write_to`:
/// parsing succeeds exactly on well-formed INI text, and the re-written
/// document is a function of the text alone.
#[verifier::external_body]
fn ini_format_text(text: &str) -> (r: Result<String, String>)
    ensures
        r is Ok <==> ini_accepts(text@),
        r matches Err(m) ==> m@ == ini_failure(text@),
        r matches Ok(s) ==> s@ == ini_rendered(text@),
{
    let parsed = match ini::Ini::load_from_str(text) {
        Ok(p) => p,
        Err(e) => return Err(format!("ini parse error: {e}")),
    };
    let mut buf = Vec::new();
    if let Err(e) = parsed.write_to(&mut buf) {
        return Err(format!("ini write error: {e}"));
    }
    String::from_utf8(buf).map_err(|e| e.to_string())
}

/// Formats INI text: `Ok(None)` when the rendering equals the input,
/// otherwise the rendering with a guaranteed trailing newline.
pub open spec fn format_post(text: Seq<char>, r: Result<Option<String>, FormatError>) -> bool {
    &&& (r is Ok <==> ini_accepts(text))
    &&& r matches Err(e) ==> e.text() == ini_failure(text)
    &&& r matches Ok(o) ==> ({
        let w = ini_rendered(text);
        &&& w == text ==> o is None
        &&& w != text ==> (o matches Some(s) && s@ == ensure_newline_spec(w))
    })
}

pub fn format(_path: &str, text: &str) -> (r: Result<Option<String>, FormatError>)
    ensures
        format_post(text@, r),
{
    match ini_format_text(text) {
        Err(m) => Err(FormatError::Message(m)),
        Ok(out) => {
            let a = str_to_chars(out.as_str());
            let b = str_to_chars(text);
            if eq_chars(&a, &b) {
                Ok(None)
            } else {
                Ok(Some(ensure_newline(out)))
            }
        },
    }
}

} // verus!
