//! XML as a stream of events, and the text-run extractor that container formats share.
use vstd::prelude::*;
use crate::text::{join, views};
use quick_xml::events::Event;

verus! {

/// One event of an XML stream, reduced to what extraction reads.
#[derive(Debug)]
pub enum XmlEvent {
    /// A start tag, with its qualified name.
    Start(Vec<u8>),
    /// An end tag, with its qualified name.
    End(Vec<u8>),
    /// Character data, unescaped; None where unescaping failed.
    Text(Option<String>),
    /// Any other event (comment, declaration, empty element, ...).
    Other,
    /// The end of the input.
    Eof,
    /// A syntax error, with its message.
    Error(String),
}

/// The events that quick-xml reads from a text, up to and including the first
/// end of input or error.
pub uninterp spec fn xml_events_of(s: Seq<char>) -> Seq<XmlEvent>;

/// Relies on quick-xml's `Reader::from_str` and `Reader::read_event` for the
/// events, `QName::as_ref` for tag names and `BytesText::unescape` for text: the
/// events depend on the text alone.
#[verifier::external_body]
pub(crate) fn read_xml_events(xml: &str) -> (r: Vec<XmlEvent>)
    ensures
        r@ == xml_events_of(xml@),
{
    let mut reader = quick_xml::Reader::from_str(xml);
    let mut events = Vec::new();
    loop {
        events.push(match reader.read_event() {
            Ok(Event::Start(e)) => XmlEvent::Start(e.name().as_ref().to_vec()),
            Ok(Event::End(e)) => XmlEvent::End(e.name().as_ref().to_vec()),
            Ok(Event::Text(e)) => XmlEvent::Text(e.unescape().ok().map(|t| t.into_owned())),
            Ok(Event::Eof) => XmlEvent::Eof,
            Ok(_) => XmlEvent::Other,
            Err(e) => XmlEvent::Error(e.to_string()),
        });
        if matches!(events.last(), Some(XmlEvent::Eof | XmlEvent::Error(_))) {
            return events;
        }
    }
}

/// Whether two byte strings are equal.
pub fn same_bytes(a: &[u8], b: &[u8]) -> (r: bool)
    ensures
        r == (a@ == b@),
{
    if a.len() != b.len() {
        return false;
    }
    let mut i: usize = 0;
    while i < a.len()
        invariant
            a@.len() == b@.len(),
            i <= a@.len(),
            forall|j: int| 0 <= j < i ==> a@[j] == b@[j],
        decreases a.len() - i,
    {
        if a[i] != b[i] {
            return false;
        }
        i = i + 1;
    }
    assert(a@ =~= b@);
    true
}

/// Where the run extractor stands after a prefix of the events.
pub struct RunState {
    /// Inside the target element.
    pub inside: bool,
    /// The text runs and paragraph breaks collected so far.
    pub parts: Seq<Seq<char>>,
    /// An end of input or an error was met; later events are ignored.
    pub stopped: bool,
    /// The message of the error that stopped the stream, if one did.
    pub error: Option<Seq<char>>,
}

pub open spec fn run_start() -> RunState {
    RunState { inside: false, parts: Seq::empty(), stopped: false, error: None }
}

/// One event: a start of `tag` enters it, its end leaves it, text inside it is
/// collected, and the end of a `para` element adds a line break.
pub open spec fn run_step(st: RunState, ev: XmlEvent, tag: Seq<u8>, para: Option<Seq<u8>>) -> RunState {
    if st.stopped {
        st
    } else {
        match ev {
            XmlEvent::Start(n) => if n@ == tag { RunState { inside: true, ..st } } else { st },
            XmlEvent::Text(t) => match t {
                Some(s) => if st.inside { RunState { parts: st.parts.push(s@), ..st } } else { st },
                None => st,
            },
            XmlEvent::End(n) => if n@ == tag {
                RunState { inside: false, ..st }
            } else if para == Some(n@) {
                RunState { parts: st.parts.push("\n"@), ..st }
            } else {
                st
            },
            XmlEvent::Other => st,
            XmlEvent::Eof => RunState { stopped: true, ..st },
            XmlEvent::Error(m) => RunState { stopped: true, error: Some(m@), ..st },
        }
    }
}

/// The extractor's state after all of `evs`.
pub open spec fn runs(evs: Seq<XmlEvent>, tag: Seq<u8>, para: Option<Seq<u8>>) -> RunState
    decreases evs.len(),
{
    if evs.len() == 0 {
        run_start()
    } else {
        run_step(runs(evs.drop_last(), tag, para), evs.last(), tag, para)
    }
}

/// Collects the text runs of the `tag` elements of `events`, and a line break at
/// the end of each `para` element; stops at the first end of input or error.
pub fn collect_runs(events: &Vec<XmlEvent>, tag: &[u8], para: Option<&[u8]>) -> (r: (Vec<String>, Option<String>))
    ensures
        ({
            let p = match para { Some(s) => Some(s@), None => None };
            let st = runs(events@, tag@, p);
            &&& views(r.0@) == st.parts
            &&& match r.1 { Some(m) => st.error == Some(m@), None => st.error is None }
        }),
{
    let ghost p = match para { Some(s) => Some(s@), None => None };
    let mut inside = false;
    let mut stopped = false;
    let mut parts: Vec<String> = Vec::new();
    let mut error: Option<String> = None;
    let mut i: usize = 0;
    while i < events.len()
        invariant
            i <= events@.len(),
            p == (match para { Some(s) => Some(s@), None => None }),
            ({
                let st = runs(events@.take(i as int), tag@, p);
                &&& st.inside == inside
                &&& st.stopped == stopped
                &&& st.parts == views(parts@)
                &&& match error { Some(m) => st.error == Some(m@), None => st.error is None }
            }),
        decreases events.len() - i,
    {
        assert(events@.take(i + 1).drop_last() =~= events@.take(i as int));
        let ghost before = parts@;
        if !stopped {
            match &events[i] {
                XmlEvent::Start(n) => {
                    if same_bytes(n.as_slice(), tag) {
                        inside = true;
                    }
                },
                XmlEvent::Text(t) => {
                    match t {
                        Some(s) => {
                            if inside {
                                parts.push(s.clone());
                                assert(views(parts@) =~= views(before).push(s@));
                            }
                        },
                        None => {},
                    }
                },
                XmlEvent::End(n) => {
                    if same_bytes(n.as_slice(), tag) {
                        inside = false;
                    } else {
                        let is_para = match para {
                            Some(q) => same_bytes(n.as_slice(), q),
                            None => false,
                        };
                        if is_para {
                            parts.push(String::from_str("\n"));
                            assert(views(parts@) =~= views(before).push("\n"@));
                        }
                    }
                },
                XmlEvent::Other => {},
                XmlEvent::Eof => {
                    stopped = true;
                },
                XmlEvent::Error(m) => {
                    stopped = true;
                    error = Some(m.clone());
                },
            }
        }
        i = i + 1;
    }
    assert(events@.take(events.len() as int) =~= events@);
    (parts, error)
}

/// The text of the `tag` runs of an XML text, joined by single spaces. Malformed
/// XML ends the stream early: what came before it is kept.
pub fn extract_ooxml_text(xml: &str, tag: &[u8]) -> (r: String)
    ensures
        r@ == join(runs(xml_events_of(xml@), tag@, None).parts, " "@),
{
    let events = read_xml_events(xml);
    let (parts, _) = collect_runs(&events, tag, None);
    crate::text::join_strings(&parts, " ")
}

/// Once the stream has stopped, at an end of input or at an error, later
/// events change nothing: the runs are those read up to that point, so
/// malformed XML keeps the text that came before the defect.
pub proof fn lemma_runs_stop(evs: Seq<XmlEvent>, k: int, tag: Seq<u8>, para: Option<Seq<u8>>)
    requires
        0 <= k < evs.len(),
        evs[k] is Eof || evs[k] is Error,
    ensures
        runs(evs, tag, para) == runs(evs.take(k + 1), tag, para),
        runs(evs, tag, para).stopped,
    decreases evs.len(),
{
    if evs.len() == k + 1 {
        assert(evs.take(k + 1) =~= evs);
        assert(evs.drop_last().take(k) =~= evs.drop_last());
    } else {
        lemma_runs_stop(evs.drop_last(), k, tag, para);
        assert(evs.drop_last().take(k + 1) =~= evs.take(k + 1));
    }
}

} // verus!
