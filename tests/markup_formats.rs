use docparse::{parse_html, parse_pdf, parse_xml, ParseError};

fn extract(bytes: &[u8]) -> Result<String, String> {
    pdf_extract::extract_text_from_mem(bytes).map_err(|e| e.to_string())
}

#[test]
fn test_parse_xml_basic() {
    let xml = b"<root><item>Hello</item><item>World</item></root>";
    let result = parse_xml(xml).expect("Failed to parse XML");
    assert!(result.text.contains("Hello"));
    assert!(result.text.contains("World"));
}

#[test]
fn test_parse_xml_nested() {
    let xml = b"<root><parent><child>Content</child></parent></root>";
    let result = parse_xml(xml).expect("Failed to parse XML");
    assert!(result.text.contains("Content"));
}

#[test]
fn test_parse_xml_invalid() {
    let result = parse_xml(b"<unclosed>");
    let _ = result;
}

#[test]
fn xml_text_nodes_are_trimmed_one_per_line() {
    let xml = b"<r>\n  <a>  Hello  </a>\n  <b>a &amp; b</b>\n</r>";
    let result = parse_xml(xml).unwrap();
    assert_eq!(result.text, "Hello\na & b");
    assert_eq!(result.metadata.get("format").unwrap().as_str().unwrap(), "xml");
}

#[test]
fn malformed_xml_is_a_format_error() {
    match parse_xml(b"<a><b>text</a>") {
        Err(ParseError::Format(m)) => assert!(m.starts_with("XML parse error: ")),
        other => panic!("unexpected: {:?}", other),
    }
}

#[test]
fn test_parse_html_basic() {
    let html = b"<html><body><h1>Title</h1><p>Hello World</p></body></html>";
    let result = parse_html(html).expect("Failed to parse HTML");
    assert!(result.text.contains("Title"));
    assert!(result.text.contains("Hello World"));
}

#[test]
fn test_parse_html_with_links() {
    let html = b"<a href=\"https://example.com\">Link</a>";
    let result = parse_html(html).expect("Failed to parse HTML");
    assert!(result.text.contains("Link"));
}

#[test]
fn html_markup_is_removed() {
    let result = parse_html(b"<p>one</p><p>two</p>").unwrap();
    assert!(!result.text.contains("<p>"));
    assert!(result.text.contains("one"));
    assert_eq!(result.metadata.get("format").unwrap().as_str().unwrap(), "html");
}

#[test]
fn test_parse_pdf_invalid() {
    let result = parse_pdf(extract(b"not a pdf"));
    assert!(result.is_err());
}

#[test]
fn invalid_pdf_is_a_format_error() {
    match parse_pdf(extract(b"not a pdf")) {
        Err(ParseError::Format(m)) => assert!(m.starts_with("PDF extraction failed: ")),
        other => panic!("unexpected: {:?}", other),
    }
}

#[test]
fn pdf_outcome_becomes_the_document() {
    let doc = parse_pdf(Ok("page text".to_string())).unwrap();
    assert_eq!(doc.text, "page text");
    assert_eq!(doc.metadata.get("format").unwrap().as_str().unwrap(), "pdf");
    match parse_pdf(Err("bad xref".to_string())) {
        Err(ParseError::Format(m)) => assert_eq!(m, "PDF extraction failed: bad xref"),
        other => panic!("unexpected: {:?}", other),
    }
}

#[test]
fn csv_error_message_embeds_the_diagnostic() {
    match docparse::parse_csv(b"a,b\n\xff,1") {
        Err(ParseError::Format(m)) => assert!(m.starts_with("CSV row error: ") && m.len() > 15),
        other => panic!("unexpected: {:?}", other),
    }
}
