use docparse::{extract_ooxml_text, parse_docx, parse_pptx, parse_xlsx, ParseError};
use std::io::{Cursor, Write};

fn zip_of(entries: &[(&str, &[u8])]) -> Vec<u8> {
    let mut zip = zip::ZipWriter::new(Cursor::new(Vec::new()));
    let options = zip::write::SimpleFileOptions::default();
    for (name, data) in entries {
        zip.start_file(*name, options).unwrap();
        zip.write_all(data).unwrap();
    }
    zip.finish().unwrap().into_inner()
}

fn create_minimal_docx(text: &str) -> Vec<u8> {
    let xml = format!(
        r#"<?xml version="1.0" encoding="UTF-8"?>
<w:document xmlns:w="http://schemas.openxmlformats.org/wordprocessingml/2006/main">
  <w:body>
    <w:p><w:r><w:t>{}</w:t></w:r></w:p>
  </w:body>
</w:document>"#,
        text
    );
    zip_of(&[("word/document.xml", xml.as_bytes())])
}

fn slide_xml(text: &str) -> String {
    format!(
        r#"<?xml version="1.0" encoding="UTF-8"?>
<p:sld xmlns:a="http://schemas.openxmlformats.org/drawingml/2006/main"
       xmlns:p="http://schemas.openxmlformats.org/presentationml/2006/main">
  <p:cSld><p:spTree><p:sp><p:txBody>
    <a:p><a:r><a:t>{}</a:t></a:r></a:p>
  </p:txBody></p:sp></p:spTree></p:cSld>
</p:sld>"#,
        text
    )
}

fn create_minimal_pptx(text: &str) -> Vec<u8> {
    zip_of(&[("ppt/slides/slide1.xml", slide_xml(text).as_bytes())])
}

#[test]
fn test_parse_docx_basic() {
    let docx_bytes = create_minimal_docx("Hello World");
    let result = parse_docx(&docx_bytes).expect("Failed to parse DOCX");
    assert!(result.text.contains("Hello World"));
}

#[test]
fn test_parse_docx_invalid() {
    let result = parse_docx(b"not a zip");
    assert!(result.is_err());
}

#[test]
fn docx_paragraphs_end_in_newlines() {
    let xml = b"<w:document><w:body><w:p><w:r><w:t>One</w:t></w:r><w:r><w:t> two</w:t></w:r></w:p><w:p><w:r><w:t>Three</w:t></w:r></w:p></w:body></w:document>";
    let doc = parse_docx(&zip_of(&[("word/document.xml", xml)])).unwrap();
    assert_eq!(doc.text, "One two\nThree\n");
    assert_eq!(doc.metadata.get("format").unwrap().as_str().unwrap(), "docx");
}

#[test]
fn docx_failures_by_kind() {
    assert!(matches!(parse_docx(b"not a zip"), Err(ParseError::Format(_))));
    let no_body = zip_of(&[("other.xml", b"<a/>")]);
    assert!(matches!(parse_docx(&no_body), Err(ParseError::Format(_))));
    let not_text = zip_of(&[("word/document.xml", &[0xff, 0xfe, 0x00])]);
    assert!(matches!(parse_docx(&not_text), Err(ParseError::Io(_))));
    let broken = zip_of(&[("word/document.xml", b"<w:p><w:t>x</w:p>")]);
    assert!(matches!(parse_docx(&broken), Err(ParseError::Format(_))));
}

#[test]
fn test_parse_pptx_basic() {
    let pptx_bytes = create_minimal_pptx("Slide Content");
    let result = parse_pptx(&pptx_bytes).expect("Failed to parse PPTX");
    assert!(result.text.contains("Slide Content"));
    assert_eq!(
        result.metadata.get("slide_count").unwrap().as_u64().unwrap(),
        1
    );
}

#[test]
fn pptx_slide_has_numbered_header() {
    let doc = parse_pptx(&create_minimal_pptx("Slide Content")).unwrap();
    assert_eq!(doc.text, "--- Slide 1 ---\nSlide Content");
}

#[test]
fn pptx_slides_are_joined_by_blank_lines() {
    let one = slide_xml("First");
    let two = slide_xml("Second");
    let bytes = zip_of(&[
        ("ppt/slides/slide1.xml", one.as_bytes()),
        ("ppt/presentation.xml", b"<p/>"),
        ("ppt/slides/slide2.xml", two.as_bytes()),
        ("ppt/slides/_rels/slide1.xml.rels", b"<r/>"),
    ]);
    let doc = parse_pptx(&bytes).unwrap();
    assert_eq!(doc.text, "--- Slide 1 ---\nFirst\n\n--- Slide 2 ---\nSecond");
    assert_eq!(doc.metadata.get("slide_count").unwrap().as_u64().unwrap(), 2);
}

#[test]
fn pptx_without_slides_counts_zero() {
    let doc = parse_pptx(&zip_of(&[("docProps/app.xml", b"<a/>")])).unwrap();
    assert_eq!(doc.text, "");
    assert_eq!(doc.metadata.get("slide_count").unwrap().as_u64().unwrap(), 0);
}

#[test]
fn test_parse_pptx_invalid() {
    let result = parse_pptx(b"not a zip");
    assert!(result.is_err());
}

#[test]
fn ooxml_runs_are_space_joined_and_tolerate_errors() {
    let xml = "<a:p><a:t>one</a:t><a:t>two &lt;3</a:t><b>skip</b></a:p>";
    assert_eq!(extract_ooxml_text(xml, b"a:t"), "one two <3");
    assert_eq!(extract_ooxml_text("<a:t>kept</a:t><x></y>", b"a:t"), "kept");
}

#[test]
fn test_parse_xlsx_invalid() {
    let result = parse_xlsx(b"not an xlsx");
    assert!(result.is_err());
}

#[test]
fn invalid_workbook_is_a_format_error() {
    match parse_xlsx(b"not an xlsx") {
        Err(ParseError::Format(m)) => assert!(m.starts_with("XLSX open failed: ")),
        other => panic!("unexpected: {:?}", other),
    }
}

#[test]
fn unreadable_slide_is_skipped() {
    let good = slide_xml("Kept");
    let bytes = zip_of(&[
        ("ppt/slides/slide1.xml", &[0xff, 0xfe, 0x00]),
        ("ppt/slides/slide2.xml", good.as_bytes()),
    ]);
    let doc = parse_pptx(&bytes).unwrap();
    assert_eq!(doc.text, "--- Slide 1 ---\nKept");
    assert_eq!(doc.metadata.get("slide_count").unwrap().as_u64().unwrap(), 1);
}

#[test]
fn container_errors_carry_their_prefix() {
    match parse_docx(b"not a zip") {
        Err(ParseError::Format(m)) => assert!(m.starts_with("Not a valid DOCX/ZIP: ")),
        other => panic!("unexpected: {:?}", other),
    }
    match parse_pptx(b"not a zip") {
        Err(ParseError::Format(m)) => assert!(m.starts_with("Not a valid PPTX/ZIP: ")),
        other => panic!("unexpected: {:?}", other),
    }
    match parse_docx(&zip_of(&[("other.xml", b"<a/>")])) {
        Err(ParseError::Format(m)) => assert!(m.starts_with("Missing word/document.xml: ")),
        other => panic!("unexpected: {:?}", other),
    }
}
