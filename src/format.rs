//! Recognising a document's format from its file name or extension.
use vstd::prelude::*;
use crate::text::same_text;

verus! {

/// The ten formats that the library extracts text from.
#[derive(Debug, Clone, Copy, PartialEq, Eq, Structural)]
pub enum DocumentFormat {
    Pdf,
    Docx,
    Xlsx,
    Pptx,
    Html,
    Csv,
    Json,
    Xml,
    Txt,
    Markdown,
}

/// Whether `i` is the index of the first `?` of `p`.
pub open spec fn first_query(p: Seq<char>, i: int) -> bool {
    &&& 0 <= i < p.len()
    &&& p[i] == '?'
    &&& forall|j: int| 0 <= j < i ==> p[j] != '?'
}

/// The part of a path before its first `?`; the whole path where it has none.
pub open spec fn before_query(p: Seq<char>) -> Seq<char> {
    if exists|i: int| first_query(p, i) {
        p.take(choose|i: int| first_query(p, i))
    } else {
        p
    }
}

/// Index of the last `/` before `end`, or -1 when there is none.
pub open spec fn slash_before(p: Seq<char>, end: int) -> int
    decreases end,
{
    if end <= 0 {
        -1
    } else if p[end - 1] == '/' {
        end - 1
    } else {
        slash_before(p, end - 1)
    }
}

/// The bounds of the last component of `p[..end]` that is neither empty nor `.`:
/// the file name, as a Unix path reads it. None where the path ends in `..` or has
/// no such component.
pub open spec fn file_name_in(p: Seq<char>, end: int) -> Option<(int, int)>
    decreases end,
{
    if end <= 0 {
        None
    } else if p[end - 1] == '/' {
        file_name_in(p, end - 1)
    } else {
        let start = slash_before(p, end) + 1;
        if end - start == 1 && p[start] == '.' {
            if start == 0 { None } else { file_name_in(p, start) }
        } else if end - start == 2 && p[start] == '.' && p[start + 1] == '.' {
            None
        } else {
            Some((start, end))
        }
    }
}

/// Index of the last `.` in `p[start..end]`, or -1 when there is none.
pub open spec fn dot_before(p: Seq<char>, start: int, end: int) -> int
    decreases end - start,
{
    if end <= start {
        -1
    } else if p[end - 1] == '.' {
        end - 1
    } else {
        dot_before(p, start, end - 1)
    }
}

/// The extension of a path: what follows the last `.` of its file name, unless
/// that dot opens the name.
pub open spec fn extension_of(p: Seq<char>) -> Option<Seq<char>> {
    match file_name_in(p, p.len() as int) {
        None => None,
        Some((start, end)) => {
            let d = dot_before(p, start, end);
            if d <= start { None } else { Some(p.subrange(d + 1, end)) }
        },
    }
}

/// The fixed table from lower-case extension to format.
pub open spec fn format_of(e: Seq<char>) -> Option<DocumentFormat> {
    if e == "pdf"@ {
        Some(DocumentFormat::Pdf)
    } else if e == "docx"@ {
        Some(DocumentFormat::Docx)
    } else if e == "xlsx"@ {
        Some(DocumentFormat::Xlsx)
    } else if e == "pptx"@ {
        Some(DocumentFormat::Pptx)
    } else if e == "html"@ || e == "htm"@ {
        Some(DocumentFormat::Html)
    } else if e == "csv"@ {
        Some(DocumentFormat::Csv)
    } else if e == "json"@ {
        Some(DocumentFormat::Json)
    } else if e == "xml"@ {
        Some(DocumentFormat::Xml)
    } else if e == "txt"@ || e == "text"@ || e == "log"@ {
        Some(DocumentFormat::Txt)
    } else if e == "md"@ || e == "markdown"@ {
        Some(DocumentFormat::Markdown)
    } else {
        None
    }
}

/// What a path's extension, lower-cased, names.
pub open spec fn format_of_path(p: Seq<char>) -> Option<DocumentFormat> {
    match extension_of(before_query(p)) {
        None => None,
        Some(e) => format_of(lower_of(e)),
    }
}

/// What `str::to_lowercase` makes of a string.
pub uninterp spec fn lower_of(s: Seq<char>) -> Seq<char>;

/// The code of a character once ASCII upper case is folded to lower case.
pub open spec fn ascii_folded(c: char) -> int {
    if 'A' <= c <= 'Z' { c as int + 32 } else { c as int }
}

/// Relies on `str::to_lowercase`: the result depends on the characters alone,
/// and on an ASCII string it folds `A`-`Z` to `a`-`z` and keeps the rest.
#[verifier::external_body]
fn lowercase(s: &str) -> (r: String)
    ensures
        r@ == lower_of(s@),
        (forall|i: int| 0 <= i < s@.len() ==> (#[trigger] s@[i] as u32) < 128) ==> {
            &&& r@.len() == s@.len()
            &&& forall|i: int| 0 <= i < s@.len() ==> #[trigger] r@[i] as int == ascii_folded(s@[i])
        },
{
    s.to_lowercase()
}

fn query_end(p: &str) -> (r: usize)
    ensures
        r <= p@.len(),
        before_query(p@) == p@.take(r as int),
{
    let n = p.unicode_len();
    let mut i: usize = 0;
    while i < n
        invariant
            n == p@.len(),
            i <= n,
            forall|j: int| 0 <= j < i ==> p@[j] != '?',
        decreases n - i,
    {
        if p.get_char(i) == '?' {
            assert(first_query(p@, i as int));
            proof {
                let c = choose|c: int| first_query(p@, c);
                if c < i {
                    assert(p@[c] != '?');
                }
                if c > i {
                    assert(p@[i as int] != '?');
                }
            }
            return i;
        }
        i = i + 1;
    }
    assert(!exists|c: int| first_query(p@, c));
    assert(p@.take(n as int) =~= p@);
    n
}

/// Finds `file_name_in(p, end)` by scanning backwards.
fn file_name_bounds(p: &str, n: usize) -> (r: Option<(usize, usize)>)
    requires
        n <= p@.len(),
    ensures
        match r {
            None => file_name_in(p@, n as int) is None,
            Some((s, e)) => file_name_in(p@, n as int) == Some((s as int, e as int)),
        },
{
    let mut end = n;
    loop
        invariant
            end <= n <= p@.len(),
            file_name_in(p@, end as int) == file_name_in(p@, n as int),
        decreases end,
    {
        if end == 0 {
            return None;
        }
        if p.get_char(end - 1) == '/' {
            end = end - 1;
        } else {
            let mut s = end - 1;
            while s > 0 && p.get_char(s - 1) != '/'
                invariant
                    s < end <= p@.len(),
                    slash_before(p@, s as int) == slash_before(p@, end as int),
                    p@[end - 1] != '/',
                decreases s,
            {
                s = s - 1;
            }
            let start = s;
            if end - start == 1 && p.get_char(start) == '.' {
                if start == 0 {
                    return None;
                }
                end = start;
            } else if end - start == 2 && p.get_char(start) == '.' && p.get_char(start + 1) == '.' {
                return None;
            } else {
                return Some((start, end));
            }
        }
    }
}

/// The extension of `p[..n]`, as `extension_of` reads it.
fn extension_bounds(p: &str, n: usize) -> (r: Option<(usize, usize)>)
    requires
        n <= p@.len(),
    ensures
        match r {
            None => extension_of(p@.take(n as int)) is None,
            Some((s, e)) => s <= e <= n && extension_of(p@.take(n as int)) == Some(p@.subrange(s as int, e as int)),
        },
{
    let ghost q = p@.take(n as int);
    proof { lemma_file_name_prefix(p@, n as int, n as int); }
    match file_name_bounds(p, n) {
        None => None,
        Some((start, end)) => {
            proof {
                lemma_file_name_range(p@, n as int);
            }
            let mut d = end;
            while d > start && p.get_char(d - 1) != '.'
                invariant
                    start <= d <= end <= n <= p@.len(),
                    dot_before(p@, start as int, d as int) == dot_before(p@, start as int, end as int),
                decreases d,
            {
                d = d - 1;
            }
            proof {
                lemma_dot_prefix(p@, n as int, start as int, end as int);
                assert(q.subrange(d as int, end as int) =~= p@.subrange(d as int, end as int));
            }
            if d <= start + 1 {
                None
            } else {
                proof {
                    assert(q.subrange(d as int, end as int) =~= p@.subrange(d as int, end as int));
                }
                Some((d, end))
            }
        },
    }
}

proof fn lemma_slash_prefix(p: Seq<char>, n: int, end: int)
    requires
        0 <= end <= n <= p.len(),
    ensures
        slash_before(p.take(n), end) == slash_before(p, end),
    decreases end,
{
    if end > 0 {
        lemma_slash_prefix(p, n, end - 1);
    }
}

proof fn lemma_file_name_prefix(p: Seq<char>, n: int, end: int)
    requires
        0 <= end <= n <= p.len(),
    ensures
        file_name_in(p.take(n), end) == file_name_in(p, end),
    decreases end,
{
    if end > 0 {
        lemma_slash_prefix(p, n, end);
        let start = slash_before(p, end) + 1;
        lemma_slash_range(p, end);
        lemma_file_name_prefix(p, n, end - 1);
        lemma_slash_range(p, end - 1);
        if 0 < start && p[end - 1] != '/' {
            lemma_file_name_prefix(p, n, start);
        }
    }
}

proof fn lemma_slash_range(p: Seq<char>, end: int)
    requires
        0 <= end <= p.len(),
    ensures
        -1 <= slash_before(p, end) < end,
    decreases end,
{
    if end > 0 {
        lemma_slash_range(p, end - 1);
    }
}

proof fn lemma_file_name_range(p: Seq<char>, end: int)
    requires
        0 <= end <= p.len(),
    ensures
        match file_name_in(p, end) {
            None => true,
            Some((s, e)) => 0 <= s < e <= end,
        },
    decreases end,
{
    if end > 0 {
        lemma_slash_range(p, end);
        lemma_file_name_range(p, end - 1);
        lemma_slash_range(p, end - 1);
        let start = slash_before(p, end) + 1;
        if 0 < start && p[end - 1] != '/' {
            lemma_file_name_range(p, start);
        }
    }
}

proof fn lemma_dot_prefix(p: Seq<char>, n: int, start: int, end: int)
    requires
        0 <= start <= end <= n <= p.len(),
    ensures
        dot_before(p.take(n), start, end) == dot_before(p, start, end),
        start <= end ==> -1 <= dot_before(p, start, end) < end,
        dot_before(p, start, end) >= 0 ==> dot_before(p, start, end) >= start,
    decreases end - start,
{
    if end > start {
        lemma_dot_prefix(p, n, start, end - 1);
    }
}

fn format_for_lower(e: &str) -> (r: Option<DocumentFormat>)
    ensures
        r == format_of(e@),
{
    if same_text(e, "pdf") {
        Some(DocumentFormat::Pdf)
    } else if same_text(e, "docx") {
        Some(DocumentFormat::Docx)
    } else if same_text(e, "xlsx") {
        Some(DocumentFormat::Xlsx)
    } else if same_text(e, "pptx") {
        Some(DocumentFormat::Pptx)
    } else if same_text(e, "html") || same_text(e, "htm") {
        Some(DocumentFormat::Html)
    } else if same_text(e, "csv") {
        Some(DocumentFormat::Csv)
    } else if same_text(e, "json") {
        Some(DocumentFormat::Json)
    } else if same_text(e, "xml") {
        Some(DocumentFormat::Xml)
    } else if same_text(e, "txt") || same_text(e, "text") || same_text(e, "log") {
        Some(DocumentFormat::Txt)
    } else if same_text(e, "md") || same_text(e, "markdown") {
        Some(DocumentFormat::Markdown)
    } else {
        None
    }
}

impl DocumentFormat {
    /// The format that a path's extension names, ignoring case and anything
    /// from the first `?` on; None for a missing or unknown extension.
    pub fn from_extension(path: &str) -> (r: Option<DocumentFormat>)
        ensures
            r == format_of_path(path@),
    {
        let n = query_end(path);
        match extension_bounds(path, n) {
            None => None,
            Some((s, e)) => {
                let ext = path.substring_char(s, e);
                let lower = lowercase(ext);
                format_for_lower(lower.as_str())
            },
        }
    }

    /// The format with this name, looked up as the extension of `file.<name>`.
    pub fn from_str_name(name: &str) -> (r: Option<DocumentFormat>)
        ensures
            r == format_of_path("file."@ + name@),
    {
        let dummy = String::from_str("file.").concat(name);
        DocumentFormat::from_extension(dummy.as_str())
    }

    /// The canonical lower-case name of the format.
    pub fn as_str(&self) -> (r: &'static str)
        ensures
            r@ == self.name(),
    {
        match self {
            DocumentFormat::Pdf => "pdf",
            DocumentFormat::Docx => "docx",
            DocumentFormat::Xlsx => "xlsx",
            DocumentFormat::Pptx => "pptx",
            DocumentFormat::Html => "html",
            DocumentFormat::Csv => "csv",
            DocumentFormat::Json => "json",
            DocumentFormat::Xml => "xml",
            DocumentFormat::Txt => "txt",
            DocumentFormat::Markdown => "markdown",
        }
    }

    pub open spec fn name(&self) -> Seq<char> {
        match self {
            DocumentFormat::Pdf => "pdf"@,
            DocumentFormat::Docx => "docx"@,
            DocumentFormat::Xlsx => "xlsx"@,
            DocumentFormat::Pptx => "pptx"@,
            DocumentFormat::Html => "html"@,
            DocumentFormat::Csv => "csv"@,
            DocumentFormat::Json => "json"@,
            DocumentFormat::Xml => "xml"@,
            DocumentFormat::Txt => "txt"@,
            DocumentFormat::Markdown => "markdown"@,
        }
    }
}

proof fn lemma_no_slash(p: Seq<char>, end: int)
    requires
        0 <= end <= p.len(),
        forall|i: int| 0 <= i < end ==> p[i] != '/',
    ensures
        slash_before(p, end) == -1,
    decreases end,
{
    if end > 0 {
        lemma_no_slash(p, end - 1);
    }
}

proof fn lemma_dot_at(p: Seq<char>, d: int, end: int)
    requires
        0 <= d < end <= p.len(),
        p[d] == '.',
        forall|i: int| d < i < end ==> p[i] != '.',
    ensures
        dot_before(p, 0, end) == d,
    decreases end,
{
    if end - 1 > d {
        lemma_dot_at(p, d, end - 1);
    }
}

/// A path `stem.ext`, whose stem is not empty and neither part holds `.`, `/` or
/// `?`, names the format that the lower-cased `ext` names in the table.
pub proof fn lemma_stem_dot_extension(stem: Seq<char>, ext: Seq<char>)
    requires
        stem.len() > 0,
        forall|i: int| 0 <= i < stem.len() ==> #[trigger] stem[i] != '.' && stem[i] != '/' && stem[i] != '?',
        forall|i: int| 0 <= i < ext.len() ==> #[trigger] ext[i] != '.' && ext[i] != '/' && ext[i] != '?',
    ensures
        format_of_path(stem + seq!['.'] + ext) == format_of(lower_of(ext)),
{
    let p = stem + seq!['.'] + ext;
    let n = p.len() as int;
    let d = stem.len() as int;
    assert forall|i: int| 0 <= i < n implies p[i] != '?' && p[i] != '/' by {
        if i < d {
            assert(p[i] == stem[i]);
        } else if i > d {
            assert(p[i] == ext[i - d - 1]);
        }
    }
    assert(!exists|i: int| first_query(p, i));
    assert(before_query(p) == p);
    lemma_no_slash(p, n);
    assert(p[0] == stem[0]);
    assert(file_name_in(p, n) == Some((0int, n)));
    assert forall|i: int| d < i < n implies p[i] != '.' by {
        assert(p[i] == ext[i - d - 1]);
    }
    lemma_dot_at(p, d, n);
    assert(p.subrange(d + 1, n) =~= ext);
}

} // verus!
