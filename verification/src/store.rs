//! The rows that record rendered pages, as plain values for the store that
//! keeps them.

use crate::text::string_views;
use vstd::prelude::*;
use vstd::string::StringExecFns;

verus! {

/// One row of the store: the path of a rendered page. The store numbers
/// the rows itself, so a row that was not stored yet has no number.
#[derive(Debug, PartialEq, Eq)]
pub struct HtmlMetadata {
    pub id: Option<i32>,
    pub file_path: String,
}

/// The name of the table that holds the rows.
pub open spec fn table_name_text() -> Seq<char> {
    "html_metadata"@
}

/// The query that asks the store whether it has a table of the given name.
pub open spec fn table_query_text(table: Seq<char>) -> Seq<char> {
    "SELECT name FROM sqlite_master WHERE type='table' AND name='"@ + table + "';"@
}

/// Whether `rows` are the new rows for `paths`: one row for each path, in
/// the same order, none of them numbered. A path that occurs twice gets two
/// rows.
pub open spec fn are_rows_of(rows: Seq<HtmlMetadata>, paths: Seq<Seq<char>>) -> bool {
    &&& rows.len() == paths.len()
    &&& forall|i: int|
        0 <= i < rows.len() ==> (#[trigger] rows[i]).id is None && rows[i].file_path@ == paths[i]
}

/// The name of the table that holds the rows.
pub fn table_name() -> (name: &'static str)
    ensures
        name@ == table_name_text(),
{
    "html_metadata"
}

/// The query that asks the store whether it has a table of the given name.
pub fn table_exists_query(table: &str) -> (query: String)
    ensures
        query@ == table_query_text(table@),
{
    let mut query = String::from_str(
        "SELECT name FROM sqlite_master WHERE type='table' AND name='",
    );
    query.append(table);
    query.append("';");
    query
}

/// The rows to store for a list of rendered pages.
pub fn new_rows(paths: &Vec<String>) -> (rows: Vec<HtmlMetadata>)
    ensures
        are_rows_of(rows@, string_views(paths@)),
{
    let mut rows: Vec<HtmlMetadata> = Vec::new();
    let mut i: usize = 0;
    while i < paths.len()
        invariant
            i <= paths.len(),
            are_rows_of(rows@, string_views(paths@).take(i as int)),
        decreases paths.len() - i,
    {
        rows.push(HtmlMetadata { id: None, file_path: paths[i].clone() });
        i += 1;
    }
    assert(string_views(paths@).take(paths.len() as int) == string_views(paths@));
    rows
}

} // verus!
