//! CSV, JSON and PDF: formats whose decoding is left to a dedicated crate.
use vstd::prelude::*;
use vstd::utf8::{decode_utf8, valid_utf8};
use crate::model::{format_error, format_only, MetaView, Metadata, ParseError, ParsedDocument};
use crate::markup::prefixed;
use crate::text::{decimal, join, views};

verus! {

/// The fields of a CSV record, or the message of the error that ended it.
pub type Fields = Result<Vec<String>, String>;

/// A CSV input as the csv crate reads it: its header record and its data records.
pub struct CsvTable {
    pub header: Fields,
    pub records: Vec<Fields>,
}

/// The fields of a record, or the message of its failure.
pub open spec fn fields_view(f: Fields) -> Result<Seq<Seq<char>>, Seq<char>> {
    match f {
        Ok(v) => Ok(views(v@)),
        Err(e) => Err(e@),
    }
}

/// A CSV input as mathematical values.
pub struct CsvView {
    pub header: Result<Seq<Seq<char>>, Seq<char>>,
    pub records: Seq<Result<Seq<Seq<char>>, Seq<char>>>,
}

impl CsvTable {
    pub open spec fn view_table(&self) -> CsvView {
        CsvView { header: fields_view(self.header), records: self.records@.map_values(|f: Fields| fields_view(f)) }
    }
}

/// The header and records that the csv crate reads from the bytes, in flexible mode.
pub uninterp spec fn csv_read_of(b: Seq<u8>) -> CsvView;

/// Relies on csv's `ReaderBuilder` with `flexible(true)`, `Reader::headers` and
/// `Reader::records`: the records depend on the bytes alone.
#[verifier::external_body]
fn read_csv(bytes: &[u8]) -> (r: CsvTable)
    ensures
        r.view_table() == csv_read_of(bytes@),
{
    let mut reader = csv::ReaderBuilder::new().flexible(true).from_reader(bytes);
    let header = reader.headers().map(|h| h.iter().map(String::from).collect()).map_err(|e| e.to_string());
    let records = reader
        .records()
        .map(|r| r.map(|rec| rec.iter().map(String::from).collect()).map_err(|e| e.to_string()))
        .collect();
    CsvTable { header, records }
}

/// One line of the output per record: its fields joined by tabs.
pub open spec fn csv_lines(header: Seq<Seq<char>>, records: Seq<Result<Seq<Seq<char>>, Seq<char>>>) -> Seq<Seq<char>> {
    seq![join(header, "\t"@)] + Seq::new(records.len(), |i: int| join(records[i]->Ok_0, "\t"@))
}

/// Whether record `i` is the first that failed.
pub open spec fn first_failed(records: Seq<Result<Seq<Seq<char>>, Seq<char>>>, i: int) -> bool {
    &&& 0 <= i < records.len()
    &&& records[i] is Err
    &&& forall|j: int| 0 <= j < i ==> #[trigger] records[j] is Ok
}

/// What the CSV strategy makes of a table read by the csv crate.
pub open spec fn csv_result(t: CsvView, r: Result<ParsedDocument, ParseError>) -> bool {
    match t.header {
        Err(e) => format_error(r, "CSV header error: "@ + e),
        Ok(h) => if exists|i: int| first_failed(t.records, i) {
            let i = choose|i: int| first_failed(t.records, i);
            format_error(r, "CSV row error: "@ + t.records[i]->Err_0)
        } else {
            &&& r is Ok
            &&& r->Ok_0.text@ == join(csv_lines(h, t.records), "\n"@)
            &&& r->Ok_0.metadata@ == seq![
                ("format"@, MetaView::Text("csv"@)),
                ("column_count"@, MetaView::Count(h.len())),
                ("row_count"@, MetaView::Count(t.records.len())),
            ]
        },
    }
}

/// Builds the CSV document from the records read: the header and each record on
/// a line of tab-separated fields; a failed header or record is a format error.
pub fn csv_document(table: &CsvTable) -> (r: Result<ParsedDocument, ParseError>)
    ensures
        csv_result(table.view_table(), r),
{
    let header = match &table.header {
        Err(m) => return Err(ParseError::Format(prefixed("CSV header error: ", m.clone()))),
        Ok(h) => h,
    };
    let ghost t = table.view_table();
    let mut rows: Vec<String> = Vec::new();
    rows.push(crate::text::join_strings(header, "\t"));
    let mut i: usize = 0;
    while i < table.records.len()
        invariant
            i <= table.records@.len(),
            t == table.view_table(),
            t.header == Ok::<Seq<Seq<char>>, Seq<char>>(views(header@)),
            forall|j: int| 0 <= j < i ==> #[trigger] t.records[j] is Ok,
            views(rows@) == csv_lines(views(header@), t.records.take(i as int)),
        decreases table.records.len() - i,
    {
        match &table.records[i] {
            Err(m) => {
                assert(first_failed(t.records, i as int));
                proof {
                    let c = choose|c: int| first_failed(t.records, c);
                    if c < i {
                        assert(t.records[c] is Ok);
                    }
                    if c > i {
                        assert(t.records[i as int] is Ok);
                    }
                }
                return Err(ParseError::Format(prefixed("CSV row error: ", m.clone())));
            },
            Ok(fields) => {
                let ghost before = rows@;
                rows.push(crate::text::join_strings(fields, "\t"));
                assert(views(rows@) =~= csv_lines(views(header@), t.records.take(i + 1))) by {
                    assert(views(rows@) =~= views(before).push(join(views(fields@), "\t"@)));
                }
            },
        }
        i = i + 1;
    }
    assert(t.records.take(i as int) =~= t.records);
    assert(!exists|c: int| first_failed(t.records, c));
    let mut metadata = Metadata::for_format("csv");
    metadata.push_count("column_count", header.len());
    metadata.push_count("row_count", table.records.len());
    let r = ParsedDocument { text: crate::text::join_strings(&rows, "\n"), metadata };
    assert(r.metadata@ =~= seq![
        ("format"@, MetaView::Text("csv"@)),
        ("column_count"@, MetaView::Count(views(header@).len())),
        ("row_count"@, MetaView::Count(t.records.len())),
    ]);
    Ok(r)
}

/// CSV: header and records, fields tab-joined, records of differing lengths accepted.
pub fn parse_csv(bytes: &[u8]) -> (r: Result<ParsedDocument, ParseError>)
    ensures
        csv_result(csv_read_of(bytes@), r),
{
    let table = read_csv(bytes);
    csv_document(&table)
}

/// The outline of a JSON value.
#[derive(Debug, Clone, Copy, PartialEq, Eq, Structural)]
pub enum JsonShape {
    Array(usize),
    Object(usize),
    Scalar,
}

/// A parsed JSON value: its pretty-printed form (None where printing failed) and
/// its outline.
pub struct JsonSummary {
    pub pretty: Option<String>,
    pub shape: JsonShape,
}

/// A parsed JSON value as mathematical values.
pub struct JsonView {
    pub pretty: Option<Seq<char>>,
    pub shape: JsonShape,
}

impl JsonSummary {
    pub open spec fn view_summary(&self) -> JsonView {
        JsonView {
            pretty: match self.pretty { Some(p) => Some(p@), None => None },
            shape: self.shape,
        }
    }
}

/// What serde_json makes of a text; the error's message where it is not JSON.
pub uninterp spec fn json_read_of(s: Seq<char>) -> Result<JsonView, Seq<char>>;

/// Relies on `serde_json::from_str` into a `Value`, the length of its array or
/// map, and `serde_json::to_string_pretty`: all depend on the text alone.
#[verifier::external_body]
fn read_json(text: &str) -> (r: Result<JsonSummary, String>)
    ensures
        json_read_of(text@) == (match r {
            Ok(v) => Ok(v.view_summary()),
            Err(e) => Err(e@),
        }),
{
    let value: serde_json::Value = serde_json::from_str(text).map_err(|e| e.to_string())?;
    let shape = match &value {
        serde_json::Value::Array(a) => JsonShape::Array(a.len()),
        serde_json::Value::Object(o) => JsonShape::Object(o.len()),
        _ => JsonShape::Scalar,
    };
    Ok(JsonSummary { pretty: serde_json::to_string_pretty(&value).ok(), shape })
}

/// The type summary of a JSON value: `array[N]`, `object{N keys}` or `scalar`.
pub open spec fn shape_label(s: JsonShape) -> Seq<char> {
    match s {
        JsonShape::Array(n) => "array["@ + decimal(n as nat) + "]"@,
        JsonShape::Object(n) => "object{"@ + decimal(n as nat) + " keys}"@,
        JsonShape::Scalar => "scalar"@,
    }
}

/// Writes the type summary of a JSON value.
pub fn type_label(s: JsonShape) -> (r: String)
    ensures
        r@ == shape_label(s),
{
    match s {
        JsonShape::Array(n) => String::from_str("array[").concat(crate::text::decimal_string(n).as_str()).concat("]"),
        JsonShape::Object(n) => String::from_str("object{").concat(crate::text::decimal_string(n).as_str()).concat(" keys}"),
        JsonShape::Scalar => String::from_str("scalar"),
    }
}

/// The JSON document for a parsed value read from `text`: its pretty form, or
/// `text` itself where printing failed, and its type summary.
pub open spec fn json_document(text: Seq<char>, v: JsonView, d: ParsedDocument) -> bool {
    &&& d.text@ == (match v.pretty { Some(p) => p, None => text })
    &&& d.metadata@ == seq![("format"@, MetaView::Text("json"@)), ("type"@, MetaView::Text(shape_label(v.shape)))]
}

/// Builds the JSON document from a parsed value.
pub fn json_document_of(text: String, value: JsonSummary) -> (r: ParsedDocument)
    ensures
        json_document(text@, value.view_summary(), r),
{
    let mut metadata = Metadata::for_format("json");
    metadata.push_text("type", type_label(value.shape));
    let shown = match value.pretty {
        Some(p) => p,
        None => text,
    };
    let r = ParsedDocument { text: shown, metadata };
    assert(r.metadata@ =~= seq![("format"@, MetaView::Text("json"@)), ("type"@, MetaView::Text(shape_label(value.shape)))]);
    r
}

/// What the JSON strategy makes of its bytes.
pub open spec fn json_result(b: Seq<u8>, r: Result<ParsedDocument, ParseError>) -> bool {
    if !valid_utf8(b) {
        r is Err && r->Err_0 is Utf8
    } else {
        match json_read_of(decode_utf8(b)) {
            Err(e) => format_error(r, "Invalid JSON: "@ + e),
            Ok(v) => r is Ok && json_document(decode_utf8(b), v, r->Ok_0),
        }
    }
}

/// JSON: the value re-printed with two-space indentation, and its type summary.
/// Text that is not JSON is a format error.
pub fn parse_json(bytes: &[u8]) -> (r: Result<ParsedDocument, ParseError>)
    ensures
        json_result(bytes@, r),
{
    let text = match crate::plain::utf8_string(bytes) {
        Err(m) => return Err(ParseError::Utf8(m)),
        Ok(t) => t,
    };
    match read_json(text.as_str()) {
        Err(m) => Err(ParseError::Format(prefixed("Invalid JSON: ", m))),
        Ok(v) => Ok(json_document_of(text, v)),
    }
}

/// What the PDF strategy makes of the outcome of text extraction.
pub open spec fn pdf_result(extracted: Result<String, String>, r: Result<ParsedDocument, ParseError>) -> bool {
    match extracted {
        Ok(t) => r is Ok && r->Ok_0.text@ == t@ && r->Ok_0.metadata@ == format_only("pdf"@),
        Err(e) => format_error(r, "PDF extraction failed: "@ + e@),
    }
}

/// PDF: the text that extraction found in the document's content streams, as
/// one string; a failed extraction, given with its message, is a format error.
/// The extraction itself is left to the caller, which can contain a fault of the
/// PDF decoder.
pub fn parse_pdf(extracted: Result<String, String>) -> (r: Result<ParsedDocument, ParseError>)
    ensures
        pdf_result(extracted, r),
{
    match extracted {
        Err(m) => Err(ParseError::Format(prefixed("PDF extraction failed: ", m))),
        Ok(text) => Ok(ParsedDocument { text, metadata: Metadata::for_format("pdf") }),
    }
}

} // verus!
