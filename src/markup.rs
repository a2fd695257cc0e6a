//! XML and HTML: markup flattened to line-oriented text.
use vstd::prelude::*;
use vstd::utf8::{decode_utf8, valid_utf8};
use crate::model::{format_error, format_only, Metadata, ParseError, ParsedDocument};
use crate::text::{join, views};
use crate::xml_events::{read_xml_events, xml_events_of, XmlEvent};

verus! {

/// Whether a character has the Unicode White_Space property, as
/// `char::is_whitespace` tests it.
pub open spec fn is_white(c: char) -> bool {
    ||| '\u{9}' <= c <= '\u{d}'
    ||| c == ' '
    ||| c == '\u{85}'
    ||| c == '\u{a0}'
    ||| c == '\u{1680}'
    ||| '\u{2000}' <= c <= '\u{200a}'
    ||| c == '\u{2028}'
    ||| c == '\u{2029}'
    ||| c == '\u{202f}'
    ||| c == '\u{205f}'
    ||| c == '\u{3000}'
}

/// `s` without its leading white space.
pub open spec fn trim_start(s: Seq<char>) -> Seq<char>
    decreases s.len(),
{
    if s.len() > 0 && is_white(s[0]) { trim_start(s.drop_first()) } else { s }
}

/// `s` without its trailing white space.
pub open spec fn trim_end(s: Seq<char>) -> Seq<char>
    decreases s.len(),
{
    if s.len() > 0 && is_white(s.last()) { trim_end(s.drop_last()) } else { s }
}

/// `s` without leading and trailing white space.
pub open spec fn trim_of(s: Seq<char>) -> Seq<char> {
    trim_end(trim_start(s))
}

fn white(c: char) -> (r: bool)
    ensures
        r == is_white(c),
{
    ('\u{9}' <= c && c <= '\u{d}') || c == ' ' || c == '\u{85}' || c == '\u{a0}' || c == '\u{1680}'
        || ('\u{2000}' <= c && c <= '\u{200a}') || c == '\u{2028}' || c == '\u{2029}'
        || c == '\u{202f}' || c == '\u{205f}' || c == '\u{3000}'
}

/// `s` without leading and trailing white space.
pub fn trimmed(s: &str) -> (r: String)
    ensures
        r@ == trim_of(s@),
{
    let n = s.unicode_len();
    let mut i: usize = 0;
    assert(s@.subrange(0, n as int) =~= s@);
    while i < n && white(s.get_char(i))
        invariant
            n == s@.len(),
            i <= n,
            trim_start(s@) == trim_start(s@.subrange(i as int, n as int)),
        decreases n - i,
    {
        assert(s@.subrange(i as int, n as int).drop_first() =~= s@.subrange(i + 1, n as int));
        i = i + 1;
    }
    let mut j: usize = n;
    while j > i && white(s.get_char(j - 1))
        invariant
            n == s@.len(),
            i <= j <= n,
            trim_of(s@) == trim_end(s@.subrange(i as int, j as int)),
        decreases j,
    {
        assert(s@.subrange(i as int, j as int).drop_last() =~= s@.subrange(i as int, j - 1));
        j = j - 1;
    }
    String::from_str(s.substring_char(i, j))
}

/// Where the text-node collector stands after a prefix of the events.
pub struct NodeState {
    pub parts: Seq<Seq<char>>,
    pub stopped: bool,
    pub error: Option<Seq<char>>,
}

/// One event: a text node that is not blank once trimmed is kept, trimmed.
pub open spec fn node_step(st: NodeState, ev: XmlEvent) -> NodeState {
    if st.stopped {
        st
    } else {
        match ev {
            XmlEvent::Text(Some(s)) => if trim_of(s@).len() > 0 {
                NodeState { parts: st.parts.push(trim_of(s@)), ..st }
            } else {
                st
            },
            XmlEvent::Eof => NodeState { stopped: true, ..st },
            XmlEvent::Error(m) => NodeState { stopped: true, error: Some(m@), ..st },
            _ => st,
        }
    }
}

pub open spec fn text_nodes(evs: Seq<XmlEvent>) -> NodeState
    decreases evs.len(),
{
    if evs.len() == 0 {
        NodeState { parts: Seq::empty(), stopped: false, error: None }
    } else {
        node_step(text_nodes(evs.drop_last()), evs.last())
    }
}

/// The trimmed, non-blank text nodes of `events`, in order, up to the first end
/// of input or error; and that error's message.
pub fn collect_text_nodes(events: &Vec<XmlEvent>) -> (r: (Vec<String>, Option<String>))
    ensures
        views(r.0@) == text_nodes(events@).parts,
        match r.1 {
            Some(m) => text_nodes(events@).error == Some(m@),
            None => text_nodes(events@).error is None,
        },
{
    let mut stopped = false;
    let mut parts: Vec<String> = Vec::new();
    let mut error: Option<String> = None;
    let mut i: usize = 0;
    while i < events.len()
        invariant
            i <= events@.len(),
            ({
                let st = text_nodes(events@.take(i as int));
                &&& st.stopped == stopped
                &&& st.parts == views(parts@)
                &&& match error { Some(m) => st.error == Some(m@), None => st.error is None }
            }),
        decreases events.len() - i,
    {
        assert(events@.take(i + 1).drop_last() =~= events@.take(i as int));
        let ghost before = parts@;
        if !stopped {
            match &events[i] {
                XmlEvent::Text(Some(s)) => {
                    let t = trimmed(s.as_str());
                    if t.unicode_len() > 0 {
                        parts.push(t);
                        assert(views(parts@) =~= views(before).push(trim_of(s@)));
                    }
                },
                XmlEvent::Eof => {
                    stopped = true;
                },
                XmlEvent::Error(m) => {
                    stopped = true;
                    error = Some(m.clone());
                },
                _ => {},
            }
        }
        i = i + 1;
    }
    assert(events@.take(events.len() as int) =~= events@);
    (parts, error)
}

/// What the XML strategy makes of its bytes.
pub open spec fn xml_result(b: Seq<u8>, r: Result<ParsedDocument, ParseError>) -> bool {
    match r {
        Ok(d) => {
            let st = text_nodes(xml_events_of(decode_utf8(b)));
            &&& valid_utf8(b)
            &&& st.error is None
            &&& d.text@ == join(st.parts, "\n"@)
            &&& d.metadata@ == format_only("xml"@)
        },
        Err(ParseError::Utf8(_)) => !valid_utf8(b),
        Err(ParseError::Format(m)) => {
            let st = text_nodes(xml_events_of(decode_utf8(b)));
            &&& valid_utf8(b)
            &&& st.error is Some
            &&& m@ == "XML parse error: "@ + st.error->0
        },
        Err(ParseError::Io(_)) => false,
    }
}

/// XML: every non-blank text node, trimmed, one per line. A syntax error is a
/// format error.
pub fn parse_xml(bytes: &[u8]) -> (r: Result<ParsedDocument, ParseError>)
    ensures
        xml_result(bytes@, r),
{
    let text = match crate::plain::utf8_string(bytes) {
        Err(m) => return Err(ParseError::Utf8(m)),
        Ok(t) => t,
    };
    let events = read_xml_events(text.as_str());
    let (parts, error) = collect_text_nodes(&events);
    match error {
        Some(m) => Err(ParseError::Format(prefixed("XML parse error: ", m))),
        None => Ok(ParsedDocument {
            text: crate::text::join_strings(&parts, "\n"),
            metadata: Metadata::for_format("xml"),
        }),
    }
}

/// `prefix` followed by `m`.
pub fn prefixed(prefix: &str, m: String) -> (r: String)
    ensures
        r@ == prefix@ + m@,
        r@.subrange(0, prefix@.len() as int) == prefix@,
        r@.subrange(prefix@.len() as int, r@.len() as int) == m@,
{
    let r = String::from_str(prefix).concat(m.as_str());
    assert(r@.subrange(0, prefix@.len() as int) =~= prefix@);
    assert(r@.subrange(prefix@.len() as int, r@.len() as int) =~= m@);
    r
}

/// What html2text renders from a document at a width of 120 columns; the
/// error's message where it fails.
pub uninterp spec fn html_render_of(b: Seq<u8>) -> Result<Seq<char>, Seq<char>>;

/// Relies on `html2text::from_read` at width 120: the rendering depends on the
/// bytes alone; on failure, the error's message.
#[verifier::external_body]
fn render_html(bytes: &[u8]) -> (r: Result<String, String>)
    ensures
        html_render_of(bytes@) == (match r {
            Ok(t) => Ok(t@),
            Err(e) => Err(e@),
        }),
{
    html2text::from_read(bytes, 120).map_err(|e| e.to_string())
}

/// What the HTML strategy makes of its bytes.
pub open spec fn html_result(b: Seq<u8>, r: Result<ParsedDocument, ParseError>) -> bool {
    match html_render_of(b) {
        Ok(t) => r is Ok && r->Ok_0.text@ == t && r->Ok_0.metadata@ == format_only("html"@),
        Err(e) => format_error(r, "HTML parse error: "@ + e),
    }
}

/// HTML: the document rendered as word-wrapped text, 120 columns wide.
pub fn parse_html(bytes: &[u8]) -> (r: Result<ParsedDocument, ParseError>)
    ensures
        html_result(bytes@, r),
{
    match render_html(bytes) {
        Err(m) => Err(ParseError::Format(prefixed("HTML parse error: ", m))),
        Ok(text) => Ok(ParsedDocument { text, metadata: Metadata::for_format("html") }),
    }
}

} // verus!
