use docparse::DocumentFormat;

#[test]
fn known_extensions_map_to_formats() {
    assert_eq!(DocumentFormat::from_extension("a.pdf"), Some(DocumentFormat::Pdf));
    assert_eq!(DocumentFormat::from_extension("a.docx"), Some(DocumentFormat::Docx));
    assert_eq!(DocumentFormat::from_extension("a.xlsx"), Some(DocumentFormat::Xlsx));
    assert_eq!(DocumentFormat::from_extension("a.pptx"), Some(DocumentFormat::Pptx));
    assert_eq!(DocumentFormat::from_extension("a.html"), Some(DocumentFormat::Html));
    assert_eq!(DocumentFormat::from_extension("a.htm"), Some(DocumentFormat::Html));
    assert_eq!(DocumentFormat::from_extension("a.csv"), Some(DocumentFormat::Csv));
    assert_eq!(DocumentFormat::from_extension("a.json"), Some(DocumentFormat::Json));
    assert_eq!(DocumentFormat::from_extension("a.xml"), Some(DocumentFormat::Xml));
    assert_eq!(DocumentFormat::from_extension("a.txt"), Some(DocumentFormat::Txt));
    assert_eq!(DocumentFormat::from_extension("a.text"), Some(DocumentFormat::Txt));
    assert_eq!(DocumentFormat::from_extension("a.log"), Some(DocumentFormat::Txt));
    assert_eq!(DocumentFormat::from_extension("a.md"), Some(DocumentFormat::Markdown));
    assert_eq!(DocumentFormat::from_extension("a.markdown"), Some(DocumentFormat::Markdown));
}

#[test]
fn extension_case_is_ignored() {
    assert_eq!(DocumentFormat::from_extension("REPORT.PDF"), Some(DocumentFormat::Pdf));
    assert_eq!(DocumentFormat::from_extension("Notes.MarkDown"), Some(DocumentFormat::Markdown));
}

#[test]
fn query_suffix_is_ignored() {
    assert_eq!(
        DocumentFormat::from_extension("https://host/files/data.csv?version=2.json"),
        Some(DocumentFormat::Csv)
    );
    assert_eq!(DocumentFormat::from_extension("report?x.pdf"), None);
}

#[test]
fn unknown_or_missing_extension_is_none() {
    assert_eq!(DocumentFormat::from_extension("archive.tar.gz"), None);
    assert_eq!(DocumentFormat::from_extension("README"), None);
    assert_eq!(DocumentFormat::from_extension(".bashrc"), None);
    assert_eq!(DocumentFormat::from_extension(""), None);
    assert_eq!(DocumentFormat::from_extension("dir.pdf/"), Some(DocumentFormat::Pdf));
    assert_eq!(DocumentFormat::from_extension("dir/.."), None);
    assert_eq!(DocumentFormat::from_extension("a.pdf/."), Some(DocumentFormat::Pdf));
    assert_eq!(DocumentFormat::from_extension("dir.d/file"), None);
}

#[test]
fn names_resolve_like_extensions() {
    assert_eq!(DocumentFormat::from_str_name("json"), Some(DocumentFormat::Json));
    assert_eq!(DocumentFormat::from_str_name("HTM"), Some(DocumentFormat::Html));
    assert_eq!(DocumentFormat::from_str_name("exe"), None);
}

#[test]
fn as_str_names_round_trip() {
    let all = [
        DocumentFormat::Pdf,
        DocumentFormat::Docx,
        DocumentFormat::Xlsx,
        DocumentFormat::Pptx,
        DocumentFormat::Html,
        DocumentFormat::Csv,
        DocumentFormat::Json,
        DocumentFormat::Xml,
        DocumentFormat::Txt,
        DocumentFormat::Markdown,
    ];
    for f in all {
        assert_eq!(DocumentFormat::from_str_name(f.as_str()), Some(f));
    }
    assert_eq!(DocumentFormat::Markdown.as_str(), "markdown");
    assert_eq!(DocumentFormat::Txt.as_str(), "txt");
}
