//! Plain text and Markdown: the UTF-8 text itself, with its line count.
use vstd::prelude::*;
use vstd::utf8::{decode_utf8, valid_utf8};
use crate::model::{MetaView, Metadata, ParseError, ParsedDocument};

verus! {

/// Number of newline bytes in `b`.
pub open spec fn newline_count(b: Seq<u8>) -> nat
    decreases b.len(),
{
    if b.len() == 0 {
        0
    } else {
        newline_count(b.drop_last()) + if b.last() == 10u8 { 1nat } else { 0nat }
    }
}

/// Number of lines of a text: one per newline, plus a last line that no newline
/// ends. A newline byte never occurs inside a longer UTF-8 sequence, so counting
/// bytes counts characters.
pub open spec fn line_count(b: Seq<u8>) -> nat {
    newline_count(b) + if b.len() > 0 && b.last() != 10u8 { 1nat } else { 0nat }
}

/// The metadata of a text format: its name and line count.
pub open spec fn text_metadata(name: Seq<char>, b: Seq<u8>) -> Seq<(Seq<char>, MetaView)> {
    seq![("format"@, MetaView::Text(name)), ("line_count"@, MetaView::Count(line_count(b)))]
}

/// What `parse_text` and `parse_markdown` return for `b`, under format `name`.
pub open spec fn text_result(name: Seq<char>, b: Seq<u8>, r: Result<ParsedDocument, ParseError>) -> bool {
    match r {
        Ok(d) => valid_utf8(b) && d.text@ == decode_utf8(b) && d.metadata@ == text_metadata(name, b),
        Err(e) => !valid_utf8(b) && e is Utf8,
    }
}

/// Relies on `String::from_utf8`: it succeeds exactly on valid UTF-8 and then
/// holds the decoded characters; on failure, the error's message.
#[verifier::external_body]
pub(crate) fn utf8_string(bytes: &[u8]) -> (r: Result<String, String>)
    ensures
        r is Ok <==> valid_utf8(bytes@),
        r is Ok ==> r->Ok_0@ == decode_utf8(bytes@),
{
    String::from_utf8(bytes.to_vec()).map_err(|e| e.to_string())
}

/// Counts the lines of `bytes` as `line_count` does.
pub fn count_lines(bytes: &[u8]) -> (r: usize)
    ensures
        r as nat == line_count(bytes@),
{
    let mut n: usize = 0;
    let mut i: usize = 0;
    while i < bytes.len()
        invariant
            i <= bytes@.len(),
            n as nat == newline_count(bytes@.take(i as int)),
            n <= i,
        decreases bytes.len() - i,
    {
        assert(bytes@.take(i + 1).drop_last() =~= bytes@.take(i as int));
        if bytes[i] == 10u8 {
            n = n + 1;
        }
        i = i + 1;
    }
    assert(bytes@.take(bytes.len() as int) =~= bytes@);
    if bytes.len() > 0 && bytes[bytes.len() - 1] != 10u8 {
        proof {
            lemma_newlines_bounded(bytes@.drop_last());
            assert(bytes@.drop_last().push(bytes@.last()) =~= bytes@);
        }
        n = n + 1;
    }
    n
}

proof fn lemma_newlines_bounded(b: Seq<u8>)
    ensures
        newline_count(b) <= b.len(),
    decreases b.len(),
{
    if b.len() > 0 {
        lemma_newlines_bounded(b.drop_last());
    }
}

fn parse_lines(bytes: &[u8], name: &str) -> (r: Result<ParsedDocument, ParseError>)
    ensures
        text_result(name@, bytes@, r),
{
    match utf8_string(bytes) {
        Err(m) => Err(ParseError::Utf8(m)),
        Ok(text) => {
            let lines = count_lines(bytes);
            let mut metadata = Metadata::for_format(name);
            metadata.push_count("line_count", lines);
            assert(metadata@ =~= text_metadata(name@, bytes@));
            Ok(ParsedDocument { text, metadata })
        },
    }
}

/// Plain text: the bytes decoded as UTF-8, unchanged.
pub fn parse_text(bytes: &[u8]) -> (r: Result<ParsedDocument, ParseError>)
    ensures
        text_result("txt"@, bytes@, r),
{
    parse_lines(bytes, "txt")
}

/// Markdown: the raw text, with no markup interpreted.
pub fn parse_markdown(bytes: &[u8]) -> (r: Result<ParsedDocument, ParseError>)
    ensures
        text_result("markdown"@, bytes@, r),
{
    parse_lines(bytes, "markdown")
}

/// Extraction of plain text or Markdown keeps the decoded text as it is, counts
/// one line per newline-delimited line, and gives an empty text with no lines for
/// empty input.
pub proof fn lemma_text_preserved(b: Seq<u8>, r: Result<ParsedDocument, ParseError>, name: Seq<char>)
    requires
        text_result(name, b, r),
    ensures
        valid_utf8(b) <==> r is Ok,
        r is Ok ==> r->Ok_0.text@ == decode_utf8(b),
        r is Ok ==> r->Ok_0.metadata@[1].1 == MetaView::Count(line_count(b)),
        b.len() == 0 ==> r is Ok && r->Ok_0.text@.len() == 0 && line_count(b) == 0,
{
    if b.len() == 0 {
        assert(valid_utf8(b));
        assert(decode_utf8(b) =~= Seq::<char>::empty());
    }
}

} // verus!
