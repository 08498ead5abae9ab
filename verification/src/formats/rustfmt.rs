//! Rust formatting. The syn parser accepts constructs it stores as
//! verbatim items — `fn f();` at the top level, say — and the
//! prettyplease printer this crate links against panics when asked to
//! print some of them; a panic can only be contained with std's panic
//! machinery, which this library does not use. The syn + prettyplease
//! calls therefore live with the embedding program, which hands the
//! rendering back to the verified `settle` gate below; the
//! library-side `format` reports that arrangement as an error.

use vstd::prelude::*;

use crate::formats::FormatError;
use crate::formats::text::eq_chars;
use crate::formats::text::str_to_chars;

verus! {

/// The message `format` reports: Rust formatting runs in the embedding
/// program, not in the library.
pub open spec fn unavailable_note() -> Seq<char> {
    "rust formatting runs in the embedding program"@
}

/// What `format` guarantees: it always reports the arrangement above.
pub open spec fn format_post(text: Seq<char>, r: Result<Option<String>, FormatError>) -> bool {
    r matches Err(e) && e.text() == unavailable_note()
}

/// Always reports that Rust formatting is not performed here: the
/// prettyplease printer panics on some verbatim items that syn's
/// parser accepts, and containing that panic takes std's panic
/// machinery, which this library keeps out. The embedding program
/// parses and prints the file itself and settles the result with
/// `settle`.
pub fn format(_path: &str, text: &str) -> (r: Result<Option<String>, FormatError>)
    ensures
        format_post(text@, r),
{
    Err(FormatError::Message("rust formatting runs in the embedding program".to_owned()))
}

/// The comparison gate for an externally produced Rust rendering:
/// `None` when the rendering equals the source, otherwise the
/// rendering as prettyplease wrote it.
pub fn settle(text: &str, rendered: String) -> (r: Option<String>)
    ensures
        rendered@ == text@ ==> r is None,
        rendered@ != text@ ==> (r matches Some(s) && s@ == rendered@),
{
    let a = str_to_chars(rendered.as_str());
    let b = str_to_chars(text);
    if eq_chars(&a, &b) {
        None
    } else {
        Some(rendered)
    }
}

} // verus!
