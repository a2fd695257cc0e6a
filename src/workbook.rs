//! Spreadsheet workbooks: every readable sheet, row by row.
use vstd::prelude::*;
use crate::model::{format_error, MetaView, Metadata, ParseError, ParsedDocument};
use crate::markup::prefixed;
use crate::text::{join, views};
use calamine::Reader;

verus! {

/// The sheet names of the workbook that calamine opens from the bytes, in their
/// stored order; the error's message where it cannot open it.
pub uninterp spec fn xlsx_sheets_of(b: Seq<u8>) -> Result<Seq<Seq<char>>, Seq<char>>;

/// The rows of the named sheet, each cell written as text; None where the sheet
/// cannot be read.
pub uninterp spec fn xlsx_rows_of(b: Seq<u8>, sheet: Seq<char>) -> Option<Seq<Seq<Seq<char>>>>;

/// Relies on calamine's `Xlsx::new` and `Reader::sheet_names`: both depend on
/// the bytes alone.
#[verifier::external_body]
fn open_workbook(bytes: &[u8]) -> (r: Result<Vec<String>, String>)
    ensures
        xlsx_sheets_of(bytes@) == (match r {
            Ok(v) => Ok(views(v@)),
            Err(e) => Err(e@),
        }),
{
    let workbook: calamine::Xlsx<_> = calamine::Xlsx::new(std::io::Cursor::new(bytes)).map_err(|e| e.to_string())?;
    Ok(workbook.sheet_names())
}

/// Relies on calamine's `Xlsx::new`, which reopens the workbook from the bytes,
/// `Reader::worksheet_range`, `Range::rows` and `Data`'s
/// `Display`: the rows depend on the bytes and the name alone.
#[verifier::external_body]
fn sheet_rows(bytes: &[u8], name: &str) -> (r: Option<Vec<Vec<String>>>)
    ensures
        r is Some <==> xlsx_rows_of(bytes@, name@) is Some,
        r is Some ==> xlsx_rows_of(bytes@, name@) == Some(r->0@.map_values(|row: Vec<String>| views(row@))),
{
    let mut workbook: calamine::Xlsx<_> = calamine::Xlsx::new(std::io::Cursor::new(bytes)).ok()?;
    let range = workbook.worksheet_range(name).ok()?;
    Some(range.rows().map(|row| row.iter().map(|c| c.to_string()).collect()).collect())
}

/// The header line of a sheet's block.
pub open spec fn sheet_header(name: Seq<char>) -> Seq<char> {
    "--- Sheet: "@ + name + " ---"@
}

/// The lines of one sheet: its header, then each row's cells joined by tabs;
/// nothing for a sheet that cannot be read.
pub open spec fn sheet_lines(b: Seq<u8>, name: Seq<char>) -> Seq<Seq<char>> {
    match xlsx_rows_of(b, name) {
        None => Seq::empty(),
        Some(rows) => seq![sheet_header(name)] + Seq::new(rows.len(), |i: int| join(rows[i], "\t"@)),
    }
}

/// The lines of the sheets `names`, in order.
pub open spec fn workbook_lines(b: Seq<u8>, names: Seq<Seq<char>>) -> Seq<Seq<char>>
    decreases names.len(),
{
    if names.len() == 0 {
        Seq::empty()
    } else {
        workbook_lines(b, names.drop_last()) + sheet_lines(b, names.last())
    }
}

/// What the spreadsheet strategy makes of its bytes.
pub open spec fn xlsx_result(b: Seq<u8>, r: Result<ParsedDocument, ParseError>) -> bool {
    match xlsx_sheets_of(b) {
        Err(e) => format_error(r, "XLSX open failed: "@ + e),
        Ok(names) => {
            &&& r is Ok
            &&& r->Ok_0.text@ == join(workbook_lines(b, names), "\n"@)
            &&& r->Ok_0.metadata@ == seq![
                ("format"@, MetaView::Text("xlsx"@)),
                ("sheet_names"@, MetaView::List(names)),
                ("sheet_count"@, MetaView::Count(names.len())),
            ]
        },
    }
}

/// Spreadsheet: each sheet in stored order under a `--- Sheet: name ---` line,
/// one line per row with cells joined by tabs. A sheet that cannot be read is
/// skipped; a workbook that cannot be opened is a format error.
pub fn parse_xlsx(bytes: &[u8]) -> (r: Result<ParsedDocument, ParseError>)
    ensures
        xlsx_result(bytes@, r),
{
    let names = match open_workbook(bytes) {
        Err(m) => return Err(ParseError::Format(prefixed("XLSX open failed: ", m))),
        Ok(n) => n,
    };
    let ghost all = views(names@);
    let mut lines: Vec<String> = Vec::new();
    assert(views(lines@) =~= Seq::<Seq<char>>::empty());
    let mut i: usize = 0;
    while i < names.len()
        invariant
            i <= names@.len(),
            all == views(names@),
            views(lines@) == workbook_lines(bytes@, all.take(i as int)),
        decreases names.len() - i,
    {
        assert(all.take(i + 1).drop_last() =~= all.take(i as int));
        let name = &names[i];
        match sheet_rows(bytes, name.as_str()) {
            None => {
                assert(views(lines@) =~= workbook_lines(bytes@, all.take(i + 1)));
            },
            Some(rows) => {
                let ghost base = views(lines@);
                let ghost rv = rows@.map_values(|row: Vec<String>| views(row@));
                let mut header = String::from_str("--- Sheet: ");
                header.append(name.as_str());
                header.append(" ---");
                lines.push(header);
                assert(views(lines@) =~= base + seq![sheet_header(name@)]);
                let mut j: usize = 0;
                while j < rows.len()
                    invariant
                        j <= rows@.len(),
                        rv == rows@.map_values(|row: Vec<String>| views(row@)),
                        views(lines@) == base + seq![sheet_header(name@)]
                            + Seq::new(j as nat, |k: int| join(rv[k], "\t"@)),
                    decreases rows.len() - j,
                {
                    let ghost before = views(lines@);
                    lines.push(crate::text::join_strings(&rows[j], "\t"));
                    assert(views(lines@) =~= before.push(join(rv[j as int], "\t"@)));
                    assert(views(lines@) =~= base + seq![sheet_header(name@)]
                        + Seq::new((j + 1) as nat, |k: int| join(rv[k], "\t"@)));
                    j = j + 1;
                }
                assert(views(lines@) =~= workbook_lines(bytes@, all.take(i + 1)));
            },
        }
        i = i + 1;
    }
    assert(all.take(names.len() as int) =~= all);
    let count = names.len();
    let mut metadata = Metadata::for_format("xlsx");
    metadata.push_list("sheet_names", names);
    metadata.push_count("sheet_count", count);
    let r = ParsedDocument { text: crate::text::join_strings(&lines, "\n"), metadata };
    assert(r.metadata@ =~= seq![
        ("format"@, MetaView::Text("xlsx"@)),
        ("sheet_names"@, MetaView::List(all)),
        ("sheet_count"@, MetaView::Count(all.len())),
    ]);
    Ok(r)
}

} // verus!
