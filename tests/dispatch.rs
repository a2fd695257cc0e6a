use docparse::{parse_document, DocumentFormat, ParseError};

const ALL: [DocumentFormat; 10] = [
    DocumentFormat::Pdf,
    DocumentFormat::Docx,
    DocumentFormat::Xlsx,
    DocumentFormat::Pptx,
    DocumentFormat::Html,
    DocumentFormat::Csv,
    DocumentFormat::Json,
    DocumentFormat::Xml,
    DocumentFormat::Txt,
    DocumentFormat::Markdown,
];

fn extract(bytes: &[u8]) -> Result<String, String> {
    pdf_extract::extract_text_from_mem(bytes).map_err(|e| e.to_string())
}

fn check(format: DocumentFormat, bytes: &[u8]) {
    match parse_document(format, bytes, extract) {
        Ok(doc) => {
            let first = &doc.metadata.entries[0];
            assert_eq!(first.key, "format");
            assert_eq!(first.value.as_str().unwrap(), format.as_str());
        }
        Err(ParseError::Io(_)) | Err(ParseError::Utf8(_)) | Err(ParseError::Format(_)) => {}
    }
}

#[test]
fn every_format_handles_empty_input() {
    for f in ALL {
        check(f, b"");
    }
}

#[test]
fn every_format_handles_arbitrary_bytes() {
    let inputs: [&[u8]; 3] = [b"\x00\x01\x02\xff\xfe garbage", b"<<<>>>", b"PK\x03\x04short"];
    for f in ALL {
        for input in inputs {
            check(f, input);
        }
    }
}

#[test]
fn dispatch_routes_to_the_named_strategy() {
    let doc = parse_document(DocumentFormat::Csv, b"a,b\n1,2", extract).unwrap();
    assert_eq!(doc.text, "a\tb\n1\t2");
    let doc = parse_document(DocumentFormat::Txt, b"x\ny", extract).unwrap();
    assert_eq!(doc.metadata.get("line_count").unwrap().as_u64(), Some(2));
    assert!(parse_document(DocumentFormat::Json, b"nope", extract).is_err());
}

#[test]
fn error_messages_name_their_kind() {
    let e = parse_document(DocumentFormat::Json, b"{", extract).unwrap_err();
    assert!(e.message().starts_with("Parse error: Invalid JSON: "));
    let e = parse_document(DocumentFormat::Txt, b"\xff", extract).unwrap_err();
    assert!(e.message().starts_with("UTF-8 decoding error: "));
}
