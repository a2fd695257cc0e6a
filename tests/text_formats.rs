use docparse::{parse_csv, parse_json, parse_markdown, parse_text, ParseError};

fn count(doc: &docparse::ParsedDocument, key: &str) -> u64 {
    doc.metadata.get(key).unwrap().as_u64().unwrap()
}

#[test]
fn test_parse_text_basic() {
    let data = b"Hello\nWorld\nLine 3";
    let result = parse_text(data).expect("Failed to parse text");
    assert_eq!(result.text, "Hello\nWorld\nLine 3");
    assert_eq!(
        result
            .metadata
            .get("line_count")
            .unwrap()
            .as_u64()
            .unwrap(),
        3
    );
}

#[test]
fn test_parse_text_empty() {
    let result = parse_text(b"").expect("Failed to parse empty text");
    assert_eq!(result.text, "");
}

#[test]
fn empty_text_has_no_lines() {
    let result = parse_text(b"").unwrap();
    assert_eq!(count(&result, "line_count"), 0);
    assert_eq!(result.metadata.get("format").unwrap().as_str().unwrap(), "txt");
}

#[test]
fn line_count_follows_newlines() {
    assert_eq!(count(&parse_text(b"a\n").unwrap(), "line_count"), 1);
    assert_eq!(count(&parse_text(b"\n\n").unwrap(), "line_count"), 2);
    assert_eq!(count(&parse_text(b"a\r\nb").unwrap(), "line_count"), 2);
    assert_eq!(count(&parse_text("h\u{e9}\nx".as_bytes()).unwrap(), "line_count"), 2);
}

#[test]
fn text_keeps_bytes_unchanged() {
    let data = "  tabs\tand \u{2603} snow\n\nend ".as_bytes();
    let result = parse_text(data).unwrap();
    assert_eq!(result.text.as_bytes(), data);
    let md = parse_markdown(data).unwrap();
    assert_eq!(md.text.as_bytes(), data);
    assert_eq!(count(&md, "line_count"), 3);
}

#[test]
fn invalid_utf8_is_an_encoding_error() {
    assert!(matches!(parse_text(&[0x66, 0xff, 0x6f]), Err(ParseError::Utf8(_))));
    assert!(matches!(parse_markdown(&[0xc3]), Err(ParseError::Utf8(_))));
    assert!(matches!(parse_json(&[0xfe]), Err(ParseError::Utf8(_))));
}

#[test]
fn test_parse_markdown_basic() {
    let data = b"# Title\n\nSome **bold** text\n\n- item 1\n- item 2";
    let result = parse_markdown(data).expect("Failed to parse markdown");
    assert!(result.text.contains("# Title"));
    assert!(result.text.contains("**bold**"));
    assert_eq!(result.metadata.get("format").unwrap().as_str().unwrap(), "markdown");
}

#[test]
fn test_parse_csv_basic() {
    let csv_data = b"name,age\nAlice,30\nBob,25";
    let result = parse_csv(csv_data).expect("Failed to parse CSV");
    assert!(result.text.contains("Alice"));
    assert!(result.text.contains("Bob"));
    assert_eq!(
        result
            .metadata
            .get("row_count")
            .unwrap()
            .as_u64()
            .unwrap(),
        2
    );
    assert_eq!(
        result
            .metadata
            .get("column_count")
            .unwrap()
            .as_u64()
            .unwrap(),
        2
    );
}

#[test]
fn csv_rows_are_tab_joined() {
    let result = parse_csv(b"name,age\nAlice,30\nBob,25").unwrap();
    assert_eq!(result.text, "name\tage\nAlice\t30\nBob\t25");
}

#[test]
fn csv_accepts_ragged_rows() {
    let result = parse_csv(b"a,b,c\n1\n2,3,4,5").unwrap();
    assert_eq!(result.text, "a\tb\tc\n1\n2\t3\t4\t5");
    assert_eq!(count(&result, "column_count"), 3);
    assert_eq!(count(&result, "row_count"), 2);
}

#[test]
fn csv_bad_record_is_a_format_error() {
    assert!(matches!(parse_csv(b"a,b\n\xff,1"), Err(ParseError::Format(_))));
    assert!(matches!(parse_csv(b"\xff,b\n1,2"), Err(ParseError::Format(_))));
}

#[test]
fn test_parse_csv_single_column() {
    let csv_data = b"value\n1\n2\n3";
    let result = parse_csv(csv_data).expect("Failed to parse CSV");
    assert!(result.text.contains("1"));
    assert_eq!(
        result
            .metadata
            .get("row_count")
            .unwrap()
            .as_u64()
            .unwrap(),
        3
    );
}

#[test]
fn test_parse_json_object() {
    let data = br#"{"name": "Alice", "age": 30}"#;
    let result = parse_json(data).expect("Failed to parse JSON");
    assert!(result.text.contains("Alice"));
    assert!(result.metadata.get("type").unwrap().as_str().unwrap().contains("object"));
}

#[test]
fn test_parse_json_array() {
    let data = b"[1, 2, 3]";
    let result = parse_json(data).expect("Failed to parse JSON");
    assert!(result.metadata.get("type").unwrap().as_str().unwrap().contains("array[3]"));
}

#[test]
fn test_parse_json_invalid() {
    let result = parse_json(b"{invalid}");
    assert!(result.is_err());
}

#[test]
fn json_type_labels() {
    let obj = parse_json(br#"{"a": 1, "b": [true], "c": null}"#).unwrap();
    assert_eq!(obj.metadata.get("type").unwrap().as_str().unwrap(), "object{3 keys}");
    let arr = parse_json(b"[0,1,2,3,4,5,6,7,8,9,10,11]").unwrap();
    assert_eq!(arr.metadata.get("type").unwrap().as_str().unwrap(), "array[12]");
    let num = parse_json(b"42").unwrap();
    assert_eq!(num.metadata.get("type").unwrap().as_str().unwrap(), "scalar");
    assert!(matches!(parse_json(b""), Err(ParseError::Format(_))));
}

#[test]
fn json_is_pretty_printed() {
    let result = parse_json(br#"{"a":[1,2]}"#).unwrap();
    assert_eq!(result.text, "{\n  \"a\": [\n    1,\n    2\n  ]\n}");
}

#[test]
fn json_pretty_output_parses_back_to_the_input() {
    let inputs: [&[u8]; 4] = [
        br#"{"name": "Alice", "tags": ["x", "y"], "n": {"k": null}}"#,
        b"[1, 2.5, -3, \"\\u00e9\"]",
        b"true",
        b"{}",
    ];
    for input in inputs {
        let doc = parse_json(input).unwrap();
        let expected: serde_json::Value = serde_json::from_slice(input).unwrap();
        let reparsed: serde_json::Value = serde_json::from_str(&doc.text).unwrap();
        assert_eq!(expected, reparsed);
    }
}
