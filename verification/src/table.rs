//! The version table of a package page: from the rows that a page holds to
//! the records that they stand for.

use crate::error::Error;
use crate::error::ErrorView;
use crate::text::lemma_trimmed_is_trim;
use crate::text::trim;
use crate::text::trimmed;
use scraper::ElementRef;
use scraper::Html;
use scraper::Selector;
use vstd::prelude::*;

verus! {

/// The query that finds the rows of the version table: the rows in the
/// body of the table whose identifier is `version-table`.
pub const ROW_QUERY: &'static str = "table#version-table > tbody > tr";

/// The longest document, in characters, that is handed to the parser. The
/// parser counts the bytes of a text in 32 bits and doubles its buffers as
/// they grow; a character has up to four bytes, and the parser may put
/// three bytes where it read one.
pub const MAX_DOCUMENT_CHARS: usize = 0x800_0000;

/// One row of the version table: a distribution and the version that it
/// ships. Both texts are trimmed; either may be empty.
#[derive(Debug, PartialEq, Eq)]
pub struct Version {
    pub distribution: String,
    pub version: String,
}

/// A [`Version`] with its texts as sequences of characters.
pub struct VersionView {
    pub distribution: Seq<char>,
    pub version: Seq<char>,
}

impl VersionView {
    /// Both texts are trimmed.
    pub open spec fn well_formed(self) -> bool {
        trimmed(self.distribution) == self.distribution && trimmed(self.version) == self.version
    }
}

impl DeepView for Version {
    type V = VersionView;

    open spec fn deep_view(&self) -> VersionView {
        VersionView { distribution: self.distribution@, version: self.version@ }
    }
}

impl Clone for Version {
    fn clone(&self) -> (copy: Version)
        ensures
            copy.deep_view() == self.deep_view(),
    {
        Version { distribution: self.distribution.clone(), version: self.version.clone() }
    }
}

/// The text below one child element of a row: its text nodes, in document
/// order. The cell stands for their concatenation.
#[derive(Debug, PartialEq, Eq)]
pub struct Cell {
    pub texts: Vec<String>,
}

impl DeepView for Cell {
    type V = Seq<char>;

    open spec fn deep_view(&self) -> Seq<char> {
        self.texts.deep_view().flatten()
    }
}

impl Cell {
    /// The text of the cell in one piece.
    pub fn text(&self) -> (whole: String)
        ensures
            whole@ == self.deep_view(),
    {
        let mut whole = String::new();
        let ghost parts = self.texts.deep_view();
        for i in 0..self.texts.len()
            invariant
                parts == self.texts.deep_view(),
                whole@ == parts.take(i as int).flatten(),
        {
            proof {
                assert(parts.take(i + 1) == parts.take(i as int).push(parts[i as int]));
                parts.take(i as int).lemma_flatten_push(parts[i as int]);
            }
            whole.append(self.texts[i].as_str());
        }
        assert(parts.take(parts.len() as int) == parts);
        whole
    }
}

/// One selected element: its child elements, in document order.
#[derive(Debug, PartialEq, Eq)]
pub struct Row {
    pub cells: Vec<Cell>,
}

impl DeepView for Row {
    type V = Seq<Seq<char>>;

    open spec fn deep_view(&self) -> Seq<Seq<char>> {
        self.cells.deep_view()
    }
}

/// A row has the two cells of which a record is made.
pub open spec fn is_full(row: Seq<Seq<char>>) -> bool {
    row.len() >= 2
}

/// What a full row says: the trimmed texts of its first two cells.
pub open spec fn record_in(row: Seq<Seq<char>>) -> VersionView {
    VersionView { distribution: trimmed(row[0]), version: trimmed(row[1]) }
}

/// The record of a row; a row that is not full has none.
pub open spec fn record_of(row: Seq<Seq<char>>) -> Option<VersionView> {
    if is_full(row) {
        Some(record_in(row))
    } else {
        None
    }
}

/// The records of the rows that have one, in the order of the rows.
pub open spec fn records_of(rows: Seq<Seq<Seq<char>>>) -> Seq<VersionView> {
    rows.filter_map(|row: Seq<Seq<char>>| record_of(row))
}

/// A row more at the end of a table adds its record, if it has one, at the
/// end of the records.
pub proof fn lemma_records_of_push(rows: Seq<Seq<Seq<char>>>, row: Seq<Seq<char>>)
    ensures
        records_of(rows.push(row)) == match record_of(row) {
            Some(record) => records_of(rows).push(record),
            None => records_of(rows),
        },
{
    assert(rows.push(row).drop_last() == rows);
}

/// Reads the records off the rows of a table. Rows with fewer than two
/// cells, such as headers and separators, are passed over.
pub fn records_from_rows(rows: &Vec<Row>) -> (records: Vec<Version>)
    ensures
        records.deep_view() == records_of(rows.deep_view()),
{
    let mut records: Vec<Version> = Vec::new();
    let ghost table = rows.deep_view();
    for i in 0..rows.len()
        invariant
            table == rows.deep_view(),
            records.deep_view() == records_of(table.take(i as int)),
    {
        let row = &rows[i];
        proof {
            assert(table.take(i + 1) == table.take(i as int).push(row.deep_view()));
            lemma_records_of_push(table.take(i as int), row.deep_view());
        }
        if row.cells.len() >= 2 {
            let distribution = trim(row.cells[0].text().as_str()).to_owned();
            let version = trim(row.cells[1].text().as_str()).to_owned();
            records.push(Version { distribution, version });
        }
    }
    assert(table.take(table.len() as int) == table);
    records
}

/// The message with which `scraper::Selector::parse` refuses `query`;
/// `None` where the query compiles.
pub uninterp spec fn selector_error(query: Seq<char>) -> Option<Seq<char>>;

/// What `scraper::Html::select` finds in `document` with a `query` that
/// compiles: for each element selected, in the order in which `select`
/// yields them, the text below each of its child elements.
pub uninterp spec fn selected_rows(document: Seq<char>, query: Seq<char>) -> Seq<Seq<Seq<char>>>;

/// Compiles `query` with `scraper::Selector::parse`, parses `document`
/// with `scraper::Html::parse_document` and walks what `Html::select`
/// yields. Each selected element becomes a [`Row`], each of its
/// `child_elements` a [`Cell`], each text node that `ElementRef::text`
/// yields below it a text of that cell. A query that does not compile
/// comes back as the message of its error.
///
/// Not proved: that the outcome is a function of the two texts, which is
/// all that [`selector_error`] and [`selected_rows`] claim. The parser
/// takes any text, well-formed or not; the bound keeps it within the 32
/// bits in which it counts bytes.
#[verifier::external_body]
fn select_rows(document: &str, query: &str) -> (result: Result<Vec<Row>, String>)
    requires
        document@.len() <= MAX_DOCUMENT_CHARS,
    ensures
        match result {
            Ok(rows) => selector_error(query@) is None && rows.deep_view() == selected_rows(
                document@,
                query@,
            ),
            Err(message) => selector_error(query@) == Some(message@),
        },
{
    let selector = Selector::parse(query).map_err(|error| error.to_string())?;
    let html = Html::parse_document(document);
    let cell = |element: ElementRef| Cell { texts: element.text().map(String::from).collect() };
    let row = |element: ElementRef| Row { cells: element.child_elements().map(cell).collect() };
    Ok(html.select(&selector).map(row).collect())
}

/// The view of what [`extract`] and [`extract_with`] return.
pub open spec fn extraction_view(result: Result<Vec<Version>, Error>) -> Result<
    Seq<VersionView>,
    ErrorView,
> {
    match result {
        Ok(records) => Ok(records.deep_view()),
        Err(error) => Err(error.deep_view()),
    }
}

/// The records of the rows that `query` selects in `document`. The error,
/// if the query does not compile, is the same for every document.
pub open spec fn extracted_with(document: Seq<char>, query: Seq<char>) -> Result<
    Seq<VersionView>,
    ErrorView,
> {
    match selector_error(query) {
        Some(message) => Err(ErrorView::Selector(message)),
        None => Ok(records_of(selected_rows(document, query))),
    }
}

/// The records of the version table of `document`: those of the rows that
/// [`ROW_QUERY`] selects.
pub open spec fn extracted(document: Seq<char>) -> Result<Seq<VersionView>, ErrorView> {
    extracted_with(document, ROW_QUERY@)
}

/// Reads the records off the elements that `query` selects in an HTML
/// document, in the order in which they are found. Only a query that does
/// not compile is an error; nothing in a document is one.
pub fn extract_with(document: &str, query: &str) -> (result: Result<Vec<Version>, Error>)
    requires
        document@.len() <= MAX_DOCUMENT_CHARS,
    ensures
        extraction_view(result) == extracted_with(document@, query@),
{
    match select_rows(document, query) {
        Ok(rows) => Ok(records_from_rows(&rows)),
        Err(message) => Err(Error::Selector(message)),
    }
}

/// Finds the version table in an HTML document and reads its records, in
/// the order in which its rows are found. A document without that table
/// has no records, which is no error.
pub fn extract(document: &str) -> (result: Result<Vec<Version>, Error>)
    requires
        document@.len() <= MAX_DOCUMENT_CHARS,
    ensures
        extraction_view(result) == extracted(document@),
{
    extract_with(document, ROW_QUERY)
}

/// Each full row of a table gives one record, the trimmed texts of its
/// first two cells, and the records stand in the order of their rows; the
/// other rows give nothing.
pub proof fn lemma_records_follow_full_rows(rows: Seq<Seq<Seq<char>>>)
    ensures
        records_of(rows) == rows.filter(|row: Seq<Seq<char>>| is_full(row)).map_values(
            |row: Seq<Seq<char>>| record_in(row),
        ),
    decreases rows.len(),
{
    reveal(Seq::filter);
    if rows.len() > 0 {
        lemma_records_follow_full_rows(rows.drop_last());
        lemma_records_of_push(rows.drop_last(), rows.last());
    }
}

/// A row with fewer than two cells leaves no trace: the records are those
/// of the rows around it.
pub proof fn lemma_short_row_omitted(
    before: Seq<Seq<Seq<char>>>,
    row: Seq<Seq<char>>,
    after: Seq<Seq<Seq<char>>>,
)
    requires
        row.len() < 2,
    ensures
        records_of(before + seq![row] + after) == records_of(before + after),
    decreases after.len(),
{
    if after.len() == 0 {
        assert(before + seq![row] + after == before.push(row));
        lemma_records_of_push(before, row);
    } else {
        let init = after.drop_last();
        lemma_short_row_omitted(before, row, init);
        assert(before + seq![row] + after == (before + seq![row] + init).push(after.last()));
        assert(before + after == (before + init).push(after.last()));
        lemma_records_of_push(before + seq![row] + init, after.last());
        lemma_records_of_push(before + init, after.last());
    }
}

/// A document in which the row query finds nothing, as one that has no
/// version table, has no records, and that is no error.
pub proof fn lemma_nothing_selected_nothing_extracted(document: Seq<char>)
    requires
        selector_error(ROW_QUERY@) is None,
        selected_rows(document, ROW_QUERY@).len() == 0,
    ensures
        extracted(document) == Ok::<Seq<VersionView>, ErrorView>(Seq::empty()),
{
}

/// Every record of a table is well formed: trimming either text again
/// changes nothing.
pub proof fn lemma_records_well_formed(rows: Seq<Seq<Seq<char>>>, i: int)
    requires
        0 <= i < records_of(rows).len(),
    ensures
        records_of(rows)[i].well_formed(),
    decreases rows.len(),
{
    if rows.len() > 0 {
        let init = rows.drop_last();
        lemma_records_of_push(init, rows.last());
        if i < records_of(init).len() {
            lemma_records_well_formed(init, i);
        } else {
            lemma_trimmed_is_trim(rows.last()[0]);
            lemma_trimmed_is_trim(rows.last()[1]);
        }
    }
}

} // verus!
