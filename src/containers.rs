//! Word-processing and presentation documents: ZIP archives of OOXML parts.
use vstd::prelude::*;
use crate::model::{format_error, format_only, MetaView, Metadata, ParseError, ParsedDocument};
use crate::markup::prefixed;
use crate::text::{decimal, join, views};
use crate::xml_events::{collect_runs, extract_ooxml_text, read_xml_events, runs, xml_events_of};
use std::io::Read;
use vstd::string::StringSliceAdditionalSpecFns;

verus! {

/// The number of entries of the archive that the zip crate reads from the bytes;
/// the error's message where it refuses them.
pub uninterp spec fn zip_count_of(b: Seq<u8>) -> Result<nat, Seq<char>>;

/// The name of entry `i` of that archive; None where the entry cannot be opened.
pub uninterp spec fn zip_name_at(b: Seq<u8>, i: nat) -> Option<Seq<char>>;

/// The text of entry `i`: None where it cannot be opened, Some(None) where it
/// cannot be read as UTF-8 text.
pub uninterp spec fn zip_text_at(b: Seq<u8>, i: nat) -> Option<Option<Seq<char>>>;

/// The text of the entry with this name: the outer error is the message of the
/// archive's or the lookup's failure, the inner one that of the read's.
pub uninterp spec fn zip_text_named(b: Seq<u8>, name: Seq<char>) -> Result<Result<Seq<char>, Seq<char>>, Seq<char>>;

/// Relies on `zip::ZipArchive::new` and `ZipArchive::len`: whether the bytes are
/// an archive, and how many entries it has, depend on the bytes alone.
#[verifier::external_body]
fn zip_entry_count(bytes: &[u8]) -> (r: Result<usize, String>)
    ensures
        zip_count_of(bytes@) == (match r {
            Ok(n) => Ok(n as nat),
            Err(e) => Err(e@),
        }),
{
    zip::ZipArchive::new(std::io::Cursor::new(bytes)).map(|a| a.len()).map_err(|e| e.to_string())
}

/// Relies on `zip::ZipArchive::new`, which reopens the archive from the bytes,
/// `ZipArchive::by_index` and `ZipFile::name`: the name depends on the bytes and
/// the index alone; an index past the end is an error, not a panic.
#[verifier::external_body]
fn zip_entry_name(bytes: &[u8], i: usize) -> (r: Result<String, String>)
    ensures
        r is Ok <==> zip_name_at(bytes@, i as nat) is Some,
        r is Ok ==> zip_name_at(bytes@, i as nat) == Some(r->Ok_0@),
{
    let mut archive = zip::ZipArchive::new(std::io::Cursor::new(bytes)).map_err(|e| e.to_string())?;
    let file = archive.by_index(i).map_err(|e| e.to_string())?;
    Ok(file.name().to_string())
}

/// Relies on `zip::ZipArchive::new`, `ZipArchive::by_index` and
/// `Read::read_to_string` on the entry: the outer error is the archive's or the
/// entry's, the inner one the read's (bytes that are not UTF-8 among them).
#[verifier::external_body]
fn zip_entry_text(bytes: &[u8], i: usize) -> (r: Result<Result<String, String>, String>)
    ensures
        r is Ok <==> zip_text_at(bytes@, i as nat) is Some,
        r is Ok ==> (r->Ok_0 is Ok <==> zip_text_at(bytes@, i as nat)->0 is Some),
        r is Ok && r->Ok_0 is Ok ==> zip_text_at(bytes@, i as nat) == Some(Some(r->Ok_0->Ok_0@)),
{
    let mut archive = zip::ZipArchive::new(std::io::Cursor::new(bytes)).map_err(|e| e.to_string())?;
    let mut file = archive.by_index(i).map_err(|e| e.to_string())?;
    let mut text = String::new();
    Ok(file.read_to_string(&mut text).map(|_| text).map_err(|e| e.to_string()))
}

/// Relies on `zip::ZipArchive::new`, `ZipArchive::by_name` and
/// `Read::read_to_string` on the entry: the outer error is the archive's or the
/// lookup's, the inner one the read's (bytes that are not UTF-8 among them).
#[verifier::external_body]
fn zip_named_text(bytes: &[u8], name: &str) -> (r: Result<Result<String, String>, String>)
    ensures
        zip_text_named(bytes@, name@) == (match r {
            Ok(Ok(t)) => Ok(Ok(t@)),
            Ok(Err(e)) => Ok(Err(e@)),
            Err(e) => Err(e@),
        }),
{
    let mut archive = zip::ZipArchive::new(std::io::Cursor::new(bytes)).map_err(|e| e.to_string())?;
    let mut file = archive.by_name(name).map_err(|e| e.to_string())?;
    let mut text = String::new();
    Ok(file.read_to_string(&mut text).map(|_| text).map_err(|e| e.to_string()))
}

/// The bytes of a tag name.
pub open spec fn tag_bytes(t: &str) -> Seq<u8> {
    t.spec_bytes()
}

/// What the word-processing strategy makes of its bytes.
pub open spec fn docx_result(b: Seq<u8>, r: Result<ParsedDocument, ParseError>) -> bool {
    match zip_count_of(b) {
        Err(e) => format_error(r, "Not a valid DOCX/ZIP: "@ + e),
        Ok(_) => match zip_text_named(b, "word/document.xml"@) {
            Err(e) => format_error(r, "Missing word/document.xml: "@ + e),
            Ok(Err(e)) => r is Err && r->Err_0 is Io && r->Err_0->Io_0@ == e,
            Ok(Ok(xml)) => {
                let st = runs(xml_events_of(xml), tag_bytes("w:t"), Some(tag_bytes("w:p")));
                match st.error {
                    Some(e) => format_error(r, "XML parse error: "@ + e),
                    None => r is Ok && r->Ok_0.text@ == join(st.parts, ""@)
                        && r->Ok_0.metadata@ == format_only("docx"@),
                }
            },
        },
    }
}

/// Word-processing document: the run text of `word/document.xml`, with a line
/// break after each paragraph. Any defect of the archive or the XML is fatal.
pub fn parse_docx(bytes: &[u8]) -> (r: Result<ParsedDocument, ParseError>)
    ensures
        docx_result(bytes@, r),
{
    if let Err(m) = zip_entry_count(bytes) {
        return Err(ParseError::Format(prefixed("Not a valid DOCX/ZIP: ", m)));
    }
    let xml = match zip_named_text(bytes, "word/document.xml") {
        Err(m) => return Err(ParseError::Format(prefixed("Missing word/document.xml: ", m))),
        Ok(Err(m)) => return Err(ParseError::Io(m)),
        Ok(Ok(x)) => x,
    };
    let text = extract_docx_text(xml.as_str())?;
    Ok(ParsedDocument { text, metadata: Metadata::for_format("docx") })
}

/// The text of a word-processing body: its `w:t` runs, with a line break at the
/// end of each `w:p` paragraph. An XML error is a format error.
pub fn extract_docx_text(xml: &str) -> (r: Result<String, ParseError>)
    ensures
        ({
            let st = runs(xml_events_of(xml@), tag_bytes("w:t"), Some(tag_bytes("w:p")));
            match r {
                Ok(t) => st.error is None && t@ == join(st.parts, ""@),
                Err(e) => st.error is Some && e is Format && e->Format_0@ == "XML parse error: "@ + st.error->0,
            }
        }),
{
    let events = read_xml_events(xml);
    let (parts, error) = collect_runs(&events, "w:t".as_bytes(), Some("w:p".as_bytes()));
    match error {
        Some(m) => Err(ParseError::Format(prefixed("XML parse error: ", m))),
        None => Ok(crate::text::join_strings(&parts, "")),
    }
}

/// Whether an entry name is a slide: `ppt/slides/slide*.xml`.
pub open spec fn is_slide_name(n: Seq<char>) -> bool {
    &&& "ppt/slides/slide"@.len() <= n.len()
    &&& n.take("ppt/slides/slide"@.len() as int) == "ppt/slides/slide"@
    &&& ".xml"@.len() <= n.len()
    &&& n.skip(n.len() - ".xml"@.len()) == ".xml"@
}

/// Whether `s` starts with `p`.
pub fn starts_with(s: &str, p: &str) -> (r: bool)
    ensures
        r == (p@.len() <= s@.len() && s@.take(p@.len() as int) == p@),
{
    let n = p.unicode_len();
    if n > s.unicode_len() {
        return false;
    }
    let mut i: usize = 0;
    while i < n
        invariant
            n == p@.len() <= s@.len(),
            i <= n,
            forall|j: int| 0 <= j < i ==> s@[j] == p@[j],
        decreases n - i,
    {
        if s.get_char(i) != p.get_char(i) {
            assert(s@.take(n as int)[i as int] != p@[i as int]);
            return false;
        }
        i = i + 1;
    }
    assert(s@.take(n as int) =~= p@);
    true
}

/// Whether `s` ends with `p`.
pub fn ends_with(s: &str, p: &str) -> (r: bool)
    ensures
        r == (p@.len() <= s@.len() && s@.skip(s@.len() - p@.len()) == p@),
{
    let n = p.unicode_len();
    let m = s.unicode_len();
    if n > m {
        return false;
    }
    let mut i: usize = 0;
    while i < n
        invariant
            n == p@.len() <= s@.len() == m,
            i <= n,
            forall|j: int| 0 <= j < i ==> s@[m - n + j] == p@[j],
        decreases n - i,
    {
        if s.get_char(m - n + i) != p.get_char(i) {
            assert(s@.skip(m - n)[i as int] != p@[i as int]);
            return false;
        }
        i = i + 1;
    }
    assert(s@.skip(m - n) =~= p@);
    true
}

/// The text of one slide's XML: its `a:t` runs joined by spaces.
pub open spec fn slide_text(xml: Seq<char>) -> Seq<char> {
    join(runs(xml_events_of(xml), tag_bytes("a:t"), None).parts, " "@)
}

/// The texts of the slides among the first `k` entries of the archive in `b`,
/// in entry order. An entry that cannot be opened, and a slide that cannot be
/// read as text, are skipped.
pub open spec fn scan_slides(b: Seq<u8>, k: nat) -> Seq<Seq<char>>
    decreases k,
{
    if k == 0 {
        Seq::empty()
    } else {
        let s = scan_slides(b, (k - 1) as nat);
        match zip_name_at(b, (k - 1) as nat) {
            Some(n) => if is_slide_name(n) {
                match zip_text_at(b, (k - 1) as nat) {
                    Some(Some(x)) => s.push(slide_text(x)),
                    _ => s,
                }
            } else {
                s
            },
            None => s,
        }
    }
}

/// A slide's block: its 1-based header line, then its text.
pub open spec fn slide_block(number: nat, text: Seq<char>) -> Seq<char> {
    "--- Slide "@ + decimal(number) + " ---\n"@ + text
}

/// The blocks of the slides in order, numbered from 1.
pub open spec fn slide_blocks(slides: Seq<Seq<char>>) -> Seq<Seq<char>> {
    Seq::new(slides.len(), |i: int| slide_block((i + 1) as nat, slides[i]))
}

/// The presentation's text and metadata for the slide texts `slides`.
pub open spec fn pptx_document(slides: Seq<Seq<char>>, d: ParsedDocument) -> bool {
    &&& d.text@ == join(slide_blocks(slides), "\n\n"@)
    &&& d.metadata@ == seq![("format"@, MetaView::Text("pptx"@)), ("slide_count"@, MetaView::Count(slides.len()))]
}

/// Builds the presentation document from the slide texts, in order.
pub fn assemble_slides(slides: &Vec<String>) -> (r: ParsedDocument)
    ensures
        pptx_document(views(slides@), r),
{
    let mut blocks: Vec<String> = Vec::new();
    let mut i: usize = 0;
    while i < slides.len()
        invariant
            i <= slides@.len(),
            views(blocks@) == slide_blocks(views(slides@)).take(i as int),
        decreases slides.len() - i,
    {
        let mut block = String::from_str("--- Slide ");
        block.append(crate::text::decimal_string(i + 1).as_str());
        block.append(" ---\n");
        block.append(slides[i].as_str());
        let ghost before = blocks@;
        blocks.push(block);
        assert(views(blocks@) =~= slide_blocks(views(slides@)).take(i + 1)) by {
            assert(views(blocks@) =~= views(before).push(block@));
        }
        i = i + 1;
    }
    assert(slide_blocks(views(slides@)).take(slides.len() as int) =~= slide_blocks(views(slides@)));
    let mut metadata = Metadata::for_format("pptx");
    metadata.push_count("slide_count", slides.len());
    let r = ParsedDocument { text: crate::text::join_strings(&blocks, "\n\n"), metadata };
    assert(r.metadata@ =~= seq![("format"@, MetaView::Text("pptx"@)), ("slide_count"@, MetaView::Count(views(slides@).len()))]);
    r
}

/// What the presentation strategy makes of its bytes.
pub open spec fn pptx_result(b: Seq<u8>, r: Result<ParsedDocument, ParseError>) -> bool {
    match zip_count_of(b) {
        Err(e) => format_error(r, "Not a valid PPTX/ZIP: "@ + e),
        Ok(n) => r is Ok && pptx_document(scan_slides(b, n), r->Ok_0),
    }
}

/// Presentation document: each `ppt/slides/slide*.xml` entry in archive order,
/// its `a:t` runs joined by spaces under a `--- Slide N ---` header, slides
/// separated by a blank line. Malformed slide XML keeps the text before the
/// defect; an entry or slide that cannot be read is skipped; an archive without
/// slides has a slide count of zero.
pub fn parse_pptx(bytes: &[u8]) -> (r: Result<ParsedDocument, ParseError>)
    ensures
        pptx_result(bytes@, r),
{
    let count = match zip_entry_count(bytes) {
        Err(m) => return Err(ParseError::Format(prefixed("Not a valid PPTX/ZIP: ", m))),
        Ok(n) => n,
    };
    let mut slides: Vec<String> = Vec::new();
    assert(views(slides@) =~= Seq::<Seq<char>>::empty());
    let mut i: usize = 0;
    while i < count
        invariant
            i <= count,
            zip_count_of(bytes@) == Ok::<nat, Seq<char>>(count as nat),
            scan_slides(bytes@, i as nat) == views(slides@),
        decreases count - i,
    {
        if let Ok(name) = zip_entry_name(bytes, i) {
            if starts_with(name.as_str(), "ppt/slides/slide") && ends_with(name.as_str(), ".xml") {
                if let Ok(Ok(xml)) = zip_entry_text(bytes, i) {
                    let text = extract_ooxml_text(xml.as_str(), "a:t".as_bytes());
                    let ghost before = slides@;
                    slides.push(text);
                    assert(views(slides@) =~= views(before).push(slide_text(xml@)));
                }
            }
        }
        i = i + 1;
    }
    Ok(assemble_slides(&slides))
}

} // verus!
