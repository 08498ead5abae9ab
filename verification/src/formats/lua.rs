//! Lua formatting, delegated to StyLua.

use vstd::prelude::*;

use crate::formats::FormatError;
use crate::formats::text::eq_chars;
use crate::formats::text::str_to_chars;

verus! {

/// What StyLua renders for a parsable Lua source text.
pub uninterp spec fn lua_rendered(text: Seq<char>) -> Seq<char>;

/// Does the call succeed for a source text? Like the rendering itself,
/// success depends on the text alone.
pub uninterp spec fn lua_accepts(text: Seq<char>) -> bool;

/// The message the call reports when it fails; like the rendering, a
/// function of the text alone.
pub uninterp spec fn lua_failure(text: Seq<char>) -> Seq<char>;

/// Relies on `stylua_lib::format_code` with the default configuration,
/// no range and no output verification: the formatted chunk is a
/// function of the text alone.
#[verifier::external_body]
fn lua_format_text(text: &str) -> (r: Result<String, String>)
    ensures
        r is Ok <==> lua_accepts(text@),
        r matches Err(m) ==> m@ == lua_failure(text@),
        r matches Ok(s) ==> s@ == lua_rendered(text@),
{
    let cfg = stylua_lib::Config::default();
    match stylua_lib::format_code(text, cfg, None, stylua_lib::OutputVerification::None) {
        Ok(out) => Ok(out),
        Err(e) => Err(format!("lua format error: {e}")),
    }
}

/// Formats Lua text: `Ok(None)` when the rendering equals the input,
/// otherwise the rendering as StyLua wrote it.
pub open spec fn format_post(text: Seq<char>, r: Result<Option<String>, FormatError>) -> bool {
    &&& (r is Ok <==> lua_accepts(text))
    &&& r matches Err(e) ==> e.text() == lua_failure(text)
    &&& r matches Ok(o) ==> ({
        let w = lua_rendered(text);
        &&& w == text ==> o is None
        &&& w != text ==> (o matches Some(s) && s@ == w)
    })
}

pub fn format(_path: &str, text: &str) -> (r: Result<Option<String>, FormatError>)
    ensures
        format_post(text@, r),
{
    match lua_format_text(text) {
        Err(m) => Err(FormatError::Message(m)),
        Ok(out) => {
            let a = str_to_chars(out.as_str());
            let b = str_to_chars(text);
            if eq_chars(&a, &b) {
                Ok(None)
            } else {
                Ok(Some(out))
            }
        },
    }
}

} // verus!
