//! Routing a document to the strategy of its format.
use vstd::prelude::*;
use crate::containers::{docx_result, parse_docx, parse_pptx, pptx_result};
use crate::format::{format_of, DocumentFormat};
use crate::markup::{html_result, parse_html, parse_xml, xml_result};
use crate::model::{MetaView, ParseError, ParsedDocument};
use crate::plain::{parse_markdown, parse_text, text_result};
use crate::structured::{csv_read_of, csv_result, json_result, parse_csv, parse_json, parse_pdf, pdf_result};
use crate::workbook::{parse_xlsx, xlsx_result};

verus! {

/// What extracting `b` as format `f` gives: the result of that format's strategy.
/// For PDF, it is the PDF strategy's result for some outcome of the extractor.
pub open spec fn dispatch_result(f: DocumentFormat, b: Seq<u8>, r: Result<ParsedDocument, ParseError>) -> bool {
    match f {
        DocumentFormat::Pdf => exists|o: Result<String, String>| pdf_result(o, r),
        DocumentFormat::Docx => docx_result(b, r),
        DocumentFormat::Xlsx => xlsx_result(b, r),
        DocumentFormat::Pptx => pptx_result(b, r),
        DocumentFormat::Html => html_result(b, r),
        DocumentFormat::Csv => csv_result(csv_read_of(b), r),
        DocumentFormat::Json => json_result(b, r),
        DocumentFormat::Xml => xml_result(b, r),
        DocumentFormat::Txt => text_result("txt"@, b, r),
        DocumentFormat::Markdown => text_result("markdown"@, b, r),
    }
}

/// Extracts `bytes` with the strategy of `format`; every format has exactly one.
/// `extract_pdf` finds the text of a PDF document, or says why it cannot; it is
/// called for PDF only.
pub fn parse_document<F: Fn(&[u8]) -> Result<String, String>>(
    format: DocumentFormat,
    bytes: &[u8],
    extract_pdf: F,
) -> (r: Result<ParsedDocument, ParseError>)
    requires
        format is Pdf ==> extract_pdf.requires((bytes,)),
    ensures
        dispatch_result(format, bytes@, r),
        format is Pdf ==> exists|o: Result<String, String>|
            extract_pdf.ensures((bytes,), o) && #[trigger] pdf_result(o, r),
{
    match format {
        DocumentFormat::Pdf => {
            let extracted = extract_pdf(bytes);
            let r = parse_pdf(extracted);
            assert(pdf_result(extracted, r));
            r
        },
        DocumentFormat::Docx => parse_docx(bytes),
        DocumentFormat::Xlsx => parse_xlsx(bytes),
        DocumentFormat::Pptx => parse_pptx(bytes),
        DocumentFormat::Html => parse_html(bytes),
        DocumentFormat::Csv => parse_csv(bytes),
        DocumentFormat::Json => parse_json(bytes),
        DocumentFormat::Xml => parse_xml(bytes),
        DocumentFormat::Txt => parse_text(bytes),
        DocumentFormat::Markdown => parse_markdown(bytes),
    }
}

/// Whatever the format and the bytes, a document that extraction returns names
/// that format first in its metadata: `format` is its first key, with the
/// format's name as value.
pub proof fn lemma_metadata_names_format(f: DocumentFormat, b: Seq<u8>, r: Result<ParsedDocument, ParseError>)
    requires
        dispatch_result(f, b, r),
    ensures
        r is Ok ==> r->Ok_0.metadata@.len() >= 1
            && r->Ok_0.metadata@[0] == ("format"@, MetaView::Text(f.name())),
{
    if let DocumentFormat::Pptx = f {
        if let Ok(n) = crate::containers::zip_count_of(b) {
            assert(r->Ok_0.metadata@[0] == ("format"@, MetaView::Text("pptx"@)));
        }
    }
}

/// The extension table: each listed extension, aliases included, names its
/// format, and any other extension names none.
pub proof fn lemma_extension_table()
    ensures
        format_of("pdf"@) == Some(DocumentFormat::Pdf),
        format_of("docx"@) == Some(DocumentFormat::Docx),
        format_of("xlsx"@) == Some(DocumentFormat::Xlsx),
        format_of("pptx"@) == Some(DocumentFormat::Pptx),
        format_of("html"@) == Some(DocumentFormat::Html),
        format_of("htm"@) == Some(DocumentFormat::Html),
        format_of("csv"@) == Some(DocumentFormat::Csv),
        format_of("json"@) == Some(DocumentFormat::Json),
        format_of("xml"@) == Some(DocumentFormat::Xml),
        format_of("txt"@) == Some(DocumentFormat::Txt),
        format_of("text"@) == Some(DocumentFormat::Txt),
        format_of("log"@) == Some(DocumentFormat::Txt),
        format_of("md"@) == Some(DocumentFormat::Markdown),
        format_of("markdown"@) == Some(DocumentFormat::Markdown),
        forall|e: Seq<char>| #![auto] format_of(e) is Some ==> {
            ||| e == "pdf"@ ||| e == "docx"@ ||| e == "xlsx"@ ||| e == "pptx"@
            ||| e == "html"@ ||| e == "htm"@ ||| e == "csv"@ ||| e == "json"@
            ||| e == "xml"@ ||| e == "txt"@ ||| e == "text"@ ||| e == "log"@
            ||| e == "md"@ ||| e == "markdown"@
        },
{
    reveal_strlit("pdf");
    reveal_strlit("docx");
    reveal_strlit("xlsx");
    reveal_strlit("pptx");
    reveal_strlit("html");
    reveal_strlit("htm");
    reveal_strlit("csv");
    reveal_strlit("json");
    reveal_strlit("xml");
    reveal_strlit("txt");
    reveal_strlit("text");
    reveal_strlit("log");
    reveal_strlit("md");
    reveal_strlit("markdown");
    assert("pdf"@.len() == 3 && "pdf"@[0] == 'p');
    assert("docx"@.len() == 4 && "docx"@[0] == 'd');
    assert("xlsx"@.len() == 4 && "xlsx"@[0] == 'x');
    assert("pptx"@.len() == 4 && "pptx"@[0] == 'p');
    assert("html"@.len() == 4 && "html"@[0] == 'h');
    assert("htm"@.len() == 3 && "htm"@[0] == 'h');
    assert("csv"@.len() == 3 && "csv"@[0] == 'c');
    assert("json"@.len() == 4 && "json"@[0] == 'j');
    assert("xml"@.len() == 3 && "xml"@[0] == 'x');
    assert("txt"@.len() == 3 && "txt"@[0] == 't');
    assert("text"@.len() == 4 && "text"@[0] == 't');
    assert("log"@.len() == 3 && "log"@[0] == 'l');
    assert("md"@.len() == 2 && "md"@[0] == 'm');
    assert("markdown"@.len() == 8 && "markdown"@[0] == 'm');
}

/// A path names a format only through an extension: one without an extension,
/// or whose lower-cased extension is not in the table, names none.
pub proof fn lemma_unknown_extension(p: Seq<char>)
    ensures
        crate::format::extension_of(crate::format::before_query(p)) is None
            ==> crate::format::format_of_path(p) is None,
        forall|e: Seq<char>| crate::format::extension_of(crate::format::before_query(p)) == Some(e)
            && #[trigger] format_of(crate::format::lower_of(e)) is None
            ==> crate::format::format_of_path(p) is None,
{
}

} // verus!
