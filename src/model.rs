//! The uniform result of an extraction: text, metadata, or one of three errors.
use vstd::prelude::*;

verus! {

/// Why a document could not be extracted.
#[derive(Debug, Clone)]
pub enum ParseError {
    /// Reading the underlying byte stream failed.
    Io(String),
    /// The bytes are not valid UTF-8 where text is required.
    Utf8(String),
    /// The container, markup or table is malformed.
    Format(String),
}

impl ParseError {
    /// The human-readable message, prefixed by the kind of failure.
    pub fn message(&self) -> (r: String)
        ensures
            r@ == self.message_spec(),
    {
        match self {
            ParseError::Io(m) => String::from_str("IO error: ").concat(m.as_str()),
            ParseError::Utf8(m) => String::from_str("UTF-8 decoding error: ").concat(m.as_str()),
            ParseError::Format(m) => String::from_str("Parse error: ").concat(m.as_str()),
        }
    }

    pub open spec fn message_spec(&self) -> Seq<char> {
        match self {
            ParseError::Io(m) => "IO error: "@ + m@,
            ParseError::Utf8(m) => "UTF-8 decoding error: "@ + m@,
            ParseError::Format(m) => "Parse error: "@ + m@,
        }
    }
}

/// A metadata value.
#[derive(Debug, Clone)]
pub enum MetaValue {
    Text(String),
    Count(usize),
    List(Vec<String>),
}

/// A metadata value as a mathematical value.
pub enum MetaView {
    Text(Seq<char>),
    Count(nat),
    List(Seq<Seq<char>>),
}

impl MetaValue {
    pub open spec fn view_value(&self) -> MetaView {
        match self {
            MetaValue::Text(s) => MetaView::Text(s@),
            MetaValue::Count(n) => MetaView::Count(*n as nat),
            MetaValue::List(v) => MetaView::List(crate::text::views(v@)),
        }
    }

    /// The count, if this value is one.
    pub fn as_u64(&self) -> (r: Option<u64>)
        ensures
            r == (match self {
                MetaValue::Count(n) => Some(*n as u64),
                _ => None,
            }),
    {
        match self {
            MetaValue::Count(n) => Some(*n as u64),
            _ => None,
        }
    }

    /// The text, if this value is text.
    pub fn as_str(&self) -> (r: Option<&str>)
        ensures
            match self {
                MetaValue::Text(s) => r is Some && r->0@ == s@,
                _ => r is None,
            },
    {
        match self {
            MetaValue::Text(s) => Some(s.as_str()),
            _ => None,
        }
    }

    /// The list, if this value is a list.
    pub fn as_list(&self) -> (r: Option<&Vec<String>>)
        ensures
            match self {
                MetaValue::List(v) => r == Some(v),
                _ => r is None,
            },
    {
        match self {
            MetaValue::List(v) => Some(v),
            _ => None,
        }
    }
}

/// One key of the metadata with its value.
#[derive(Debug, Clone)]
pub struct MetaEntry {
    pub key: String,
    pub value: MetaValue,
}

/// Format-specific key-value metadata, in the order the keys were added.
#[derive(Debug, Clone)]
pub struct Metadata {
    pub entries: Vec<MetaEntry>,
}

impl View for Metadata {
    type V = Seq<(Seq<char>, MetaView)>;

    open spec fn view(&self) -> Seq<(Seq<char>, MetaView)> {
        self.entries@.map_values(|e: MetaEntry| (e.key@, e.value.view_value()))
    }
}

/// Metadata that holds only the name of the format that produced it.
pub open spec fn format_only(name: Seq<char>) -> Seq<(Seq<char>, MetaView)> {
    seq![("format"@, MetaView::Text(name))]
}

impl Metadata {
    /// Metadata with the one key `format`.
    pub fn for_format(name: &str) -> (r: Metadata)
        ensures
            r@ == format_only(name@),
    {
        let mut m = Metadata { entries: Vec::new() };
        m.push_text("format", String::from_str(name));
        assert(m@ =~= format_only(name@));
        m
    }

    fn push(&mut self, key: &str, value: MetaValue)
        ensures
            final(self)@ == old(self)@.push((key@, value.view_value())),
    {
        self.entries.push(MetaEntry { key: String::from_str(key), value });
        assert(final(self)@ =~= old(self)@.push((key@, value.view_value())));
    }

    /// Adds a text value under `key`.
    pub fn push_text(&mut self, key: &str, value: String)
        ensures
            final(self)@ == old(self)@.push((key@, MetaView::Text(value@))),
    {
        self.push(key, MetaValue::Text(value));
    }

    /// Adds a count under `key`.
    pub fn push_count(&mut self, key: &str, value: usize)
        ensures
            final(self)@ == old(self)@.push((key@, MetaView::Count(value as nat))),
    {
        self.push(key, MetaValue::Count(value));
    }

    /// Adds a list of strings under `key`.
    pub fn push_list(&mut self, key: &str, value: Vec<String>)
        ensures
            final(self)@ == old(self)@.push((key@, MetaView::List(crate::text::views(value@)))),
    {
        self.push(key, MetaValue::List(value));
    }

    /// The value stored under the first entry with this key.
    pub fn get(&self, key: &str) -> (r: Option<&MetaValue>)
        ensures
            match r {
                None => forall|i: int| 0 <= i < self@.len() ==> #[trigger] self@[i].0 != key@,
                Some(v) => exists|i: int|
                    0 <= i < self@.len() && #[trigger] self@[i].0 == key@ && self.entries@[i].value == *v
                        && forall|j: int| 0 <= j < i ==> #[trigger] self@[j].0 != key@,
            },
    {
        let mut i: usize = 0;
        while i < self.entries.len()
            invariant
                i <= self.entries@.len(),
                forall|j: int| 0 <= j < i ==> #[trigger] self@[j].0 != key@,
            decreases self.entries.len() - i,
        {
            if crate::text::same_text(self.entries[i].key.as_str(), key) {
                assert(self@[i as int].0 == key@);
                return Some(&self.entries[i].value);
            }
            i = i + 1;
        }
        None
    }
}

/// The uniform output: text with `\n` between lines, and metadata whose first
/// key is `format`.
#[derive(Debug, Clone)]
pub struct ParsedDocument {
    pub text: String,
    pub metadata: Metadata,
}

/// Whether `r` is a format error with message `m`.
pub open spec fn format_error(r: Result<ParsedDocument, ParseError>, m: Seq<char>) -> bool {
    r is Err && r->Err_0 is Format && r->Err_0->Format_0@ == m
}

} // verus!
