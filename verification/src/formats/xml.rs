//! XML formatting: the event stream is read with quick-xml and
//! re-written with two-space indentation.

use vstd::prelude::*;

use crate::formats::FormatError;
use crate::formats::ensure_newline;
use crate::formats::ensure_newline_spec;
use crate::formats::text::eq_chars;
use crate::formats::text::str_to_chars;

verus! {

/// What the quick-xml event pump renders for a parsable XML source
/// text.
pub uninterp spec fn xml_rendered(text: Seq<char>) -> Seq<char>;

/// Does the call succeed for a source text? Like the rendering itself,
/// success depends on the text alone.
pub uninterp spec fn xml_accepts(text: Seq<char>) -> bool;

/// The message the call reports when it fails; like the rendering, a
/// function of the text alone.
pub uninterp spec fn xml_failure(text: Seq<char>) -> Seq<char>;

/// Relies on `quick_xml::Reader::read_event_into` with text trimming
/// and `quick_xml::Writer::write_event` with two-space indentation:
/// pumping the whole event stream re-renders the document, a function
/// of the text alone.
#[verifier::external_body]
fn xml_format_text(text: &str) -> (r: Result<String, String>)
    ensures
        r is Ok <==> xml_accepts(text@),
        r matches Err(m) ==> m@ == xml_failure(text@),
        r matches Ok(s) ==> s@ == xml_rendered(text@),
{
    let mut reader = quick_xml::Reader::from_str(text);
    reader.config_mut().trim_text(true);
    let mut writer = quick_xml::Writer::new_with_indent(Vec::new(), b' ', 2);
    let mut buf = Vec::new();
    loop {
        match reader.read_event_into(&mut buf) {
            Ok(quick_xml::events::Event::Eof) => break,
            Ok(e) => writer.write_event(e).map_err(|er| er.to_string())?,
            Err(e) => return Err(format!("XML parse error: {e}")),
        }
        buf.clear();
    }
    String::from_utf8(writer.into_inner()).map_err(|e| e.to_string())
}

/// Formats XML text: `Ok(None)` when the rendering equals the input,
/// otherwise the rendering with a guaranteed trailing newline.
pub open spec fn format_post(text: Seq<char>, r: Result<Option<String>, FormatError>) -> bool {
    &&& (r is Ok <==> xml_accepts(text))
    &&& r matches Err(e) ==> e.text() == xml_failure(text)
    &&& r matches Ok(o) ==> ({
        let w = xml_rendered(text);
        &&& w == text ==> o is None
        &&& w != text ==> (o matches Some(s) && s@ == ensure_newline_spec(w))
    })
}

pub fn format(_path: &str, text: &str) -> (r: Result<Option<String>, FormatError>)
    ensures
        format_post(text@, r),
{
    match xml_format_text(text) {
        Err(m) => Err(FormatError::Message(m)),
        Ok(out) => {
            let a = str_to_chars(out.as_str());
            let b = str_to_chars(text);
            if eq_chars(&a, &b) {
                Ok(None)
            } else {
                Ok(Some(ensure_newline(out)))
            }
        },
    }
}

} // verus!
