//! Go formatting. The gofmt port this crate links against panics from
//! its parser on malformed Go source, and a panic can only be contained
//! with std's panic machinery, which this library does not use. The
//! gofmt call therefore lives with the embedding program, which hands
//! the rendering back to the verified `settle` gate below; the
//! library-side `format` reports that arrangement as an error.

use vstd::prelude::*;

use crate::formats::FormatError;
use crate::formats::text::eq_chars;
use crate::formats::text::str_to_chars;

verus! {

/// The message `format` reports: Go formatting runs in the embedding
/// program, not in the library.
pub open spec fn unavailable_note() -> Seq<char> {
    "go formatting runs in the embedding program"@
}

/// What `format` guarantees: it always reports the arrangement above.
pub open spec fn format_post(text: Seq<char>, r: Result<Option<String>, FormatError>) -> bool {
    r matches Err(e) && e.text() == unavailable_note()
}

/// Always reports that Go formatting is not performed here: the gofmt
/// port's parser panics on malformed input, and containing that panic
/// takes std's panic machinery, which this library keeps out. The
/// embedding program calls gofmt itself and settles the result with
/// `settle`.
pub fn format(_path: &str, text: &str) -> (r: Result<Option<String>, FormatError>)
    ensures
        format_post(text@, r),
{
    Err(FormatError::Message("go formatting runs in the embedding program".to_owned()))
}

/// The comparison gate for an externally produced Go rendering:
/// `None` when the rendering equals the source, otherwise the
/// rendering as gofmt wrote it.
pub fn settle(text: &str, rendered: String) -> (r: Option<String>)
    ensures
        rendered@ == text@ ==> r is None,
        rendered@ != text@ ==> (r matches Some(s) && s@ == rendered@),
{
    let a = str_to_chars(rendered.as_str());
    let b = str_to_chars(text);
    if eq_chars(&a, &b) {
        None
    } else {
        Some(rendered)
    }
}

} // verus!
