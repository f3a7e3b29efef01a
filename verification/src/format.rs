//! Response formatting: sniff the content type of a response body, then
//! pretty-print it — JSON through a serializer round trip, HTML through a
//! markup formatter, everything else unchanged.

use vstd::prelude::*;

use crate::text::chars_of;
use crate::text::contains_seq;
use crate::text::has_prefix;
use crate::text::slice_contains;
use crate::text::slice_starts_with;
use crate::text::trim_spec;
use crate::text::trim_str;

verus! {

/// What the sniffer can decide a response body is.
#[derive(Debug, Clone, Copy, PartialEq, Eq, Structural)]
pub enum MimeType {
    Json,
    Html,
    Svg,
    Xml,
    Yaml,
    Plain,
}

/// Whether `serde_json::from_str` accepts the text as JSON.
pub uninterp spec fn json_parse_ok(s: Seq<char>) -> bool;

/// What parsing the text and serializing it again with
/// `serde_json::to_string_pretty` produces.
pub uninterp spec fn json_pretty(s: Seq<char>) -> Seq<char>;

/// What `markup_fmt::format_text` makes of the text as HTML, or the text
/// itself when the formatter rejects it.
pub uninterp spec fn html_formatted(s: Seq<char>) -> Seq<char>;

/// Relies on serde_json::from_str::<Value> and serde_json::to_string_pretty.
/// Parsing depends on the input text alone, and serializing a `Value` that
/// came from parsed JSON cannot fail (its maps have string keys and nothing
/// in it refuses to serialize), so the call succeeds exactly when the text
/// parses, and the pretty text is a function of the input alone. On failure
/// the parser's message is returned.
#[verifier::external_body]
fn pretty_json(s: &str) -> (r: Result<String, String>)
    ensures
        r is Ok <==> json_parse_ok(s@),
        r matches Ok(p) ==> p@ == json_pretty(s@),
{
    match serde_json::from_str::<serde_json::Value>(s) {
        Ok(v) => match serde_json::to_string_pretty(&v) {
            Ok(p) => Ok(p),
            Err(e) => Err(format!("{}", e)),
        },
        Err(e) => Err(format!("{}", e)),
    }
}

/// Relies on markup_fmt::format_text: formats the text as HTML with the
/// default options and an external formatter that hands embedded code back
/// unchanged, falling back to the input on a formatting error. The result
/// depends on the input text alone.
#[verifier::external_body]
fn format_html(html: &str) -> (r: String)
    ensures
        r@ == html_formatted(html@),
{
    markup_fmt::format_text(
        html,
        markup_fmt::Language::Html,
        &Default::default(),
        |code, _| Ok(code.into()),
    ).unwrap_or_else(|_| html.to_string())
}

/// The content type the sniffer assigns to a body: empty text is plain,
/// JSON wins over everything, then markup by tag heuristics, then YAML,
/// else plain text.
pub open spec fn detect_spec(s: Seq<char>) -> MimeType {
    let t = trim_spec(s);
    if t.len() == 0 {
        MimeType::Plain
    } else if json_parse_ok(t) {
        MimeType::Json
    } else if has_prefix(t, "<?xml"@) || (has_prefix(t, "<"@) && contains_seq(t, "</"@)) {
        if contains_seq(t, "<!DOCTYPE html"@) || contains_seq(t, "<html"@) {
            MimeType::Html
        } else if contains_seq(t, "<svg"@) {
            MimeType::Svg
        } else {
            MimeType::Xml
        }
    } else if has_prefix(t, "---"@) || (contains_seq(t, ":\n"@) && !contains_seq(t, "<"@)) {
        MimeType::Yaml
    } else {
        MimeType::Plain
    }
}

/// Sniffs the content type of a response body.
pub fn detect_mime_type(content: &str) -> (r: MimeType)
    ensures
        r == detect_spec(content@),
{
    let trimmed = trim_str(content);
    if trimmed.is_empty() {
        return MimeType::Plain;
    }
    if pretty_json(trimmed).is_ok() {
        return MimeType::Json;
    }
    let tc = chars_of(trimmed);
    let xml_decl = chars_of("<?xml");
    let lt = chars_of("<");
    let close_tag = chars_of("</");
    if slice_starts_with(tc.as_slice(), xml_decl.as_slice()) || (slice_starts_with(
        tc.as_slice(),
        lt.as_slice(),
    ) && slice_contains(tc.as_slice(), close_tag.as_slice())) {
        let doctype = chars_of("<!DOCTYPE html");
        let html_tag = chars_of("<html");
        if slice_contains(tc.as_slice(), doctype.as_slice()) || slice_contains(
            tc.as_slice(),
            html_tag.as_slice(),
        ) {
            return MimeType::Html;
        }
        let svg_tag = chars_of("<svg");
        if slice_contains(tc.as_slice(), svg_tag.as_slice()) {
            return MimeType::Svg;
        }
        return MimeType::Xml;
    }
    let dashes = chars_of("---");
    let colon_nl = chars_of(":\n");
    if slice_starts_with(tc.as_slice(), dashes.as_slice()) || (slice_contains(
        tc.as_slice(),
        colon_nl.as_slice(),
    ) && !slice_contains(tc.as_slice(), lt.as_slice())) {
        return MimeType::Yaml;
    }
    MimeType::Plain
}

/// What pretty-printing an input must produce: HTML through the markup
/// formatter, JSON reserialized with indentation, anything else unchanged.
pub open spec fn is_formatted(out: Seq<char>, input: Seq<char>) -> bool {
    &&& detect_spec(input) == MimeType::Html ==> out == html_formatted(input)
    &&& detect_spec(input) == MimeType::Json ==> out == json_pretty(trim_spec(input))
    &&& (detect_spec(input) != MimeType::Html && detect_spec(input) != MimeType::Json) ==> out
        == input
}

/// Pretty-prints a response body according to its sniffed content type:
/// HTML goes through the markup formatter, JSON is reserialized with
/// indentation, and anything else comes back unchanged.
pub fn format_response(s: &str) -> (r: String)
    ensures
        is_formatted(r@, s@),
{
    let t = detect_mime_type(s);
    match t {
        MimeType::Html => format_html(s),
        MimeType::Json => {
            let trimmed = trim_str(s);
            match pretty_json(trimmed) {
                Ok(p) => p,
                Err(e) => {
                    // Never reached: the sniffer reports JSON only when the
                    // text parses.
                    proof {
                        assert(false);
                    }
                    e
                },
            }
        },
        _ => s.to_owned(),
    }
}

} // verus!
