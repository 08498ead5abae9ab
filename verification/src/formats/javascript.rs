//! JavaScript formatting: delegated to the TypeScript formatter, with
//! one more pass guaranteeing the trailing newline.

use vstd::prelude::*;

use crate::formats::FormatError;
use crate::formats::ensure_newline;
use crate::formats::ensure_newline_spec;
use crate::formats::typescript;
use crate::formats::typescript::ts_accepts;
use crate::formats::typescript::ts_failure;
use crate::formats::typescript::ts_rendered;

verus! {

/// Formats JavaScript text through the TypeScript formatter.
pub open spec fn format_post(path: Seq<char>, text: Seq<char>, r: Result<
    Option<String>,
    FormatError,
>) -> bool {
    &&& (r is Ok <==> ts_accepts(path, text))
    &&& r matches Err(e) ==> e.text() == ts_failure(path, text)
    &&& r matches Ok(o) ==> match ts_rendered(path, text) {
        None => o is None,
        Some(w) => o matches Some(s) && s@ == ensure_newline_spec(ensure_newline_spec(w)),
    }
}

pub fn format(path: &str, text: &str) -> (r: Result<Option<String>, FormatError>)
    ensures
        format_post(path@, text@, r),
{
    match typescript::format(path, text) {
        Err(e) => Err(e),
        Ok(None) => Ok(None),
        Ok(Some(t)) => Ok(Some(ensure_newline(t))),
    }
}

} // verus!
