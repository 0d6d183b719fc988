//! The parts of the database layer that compute: the ids that the
//! neighbour queries look at, what a missing neighbour is called, and what a
//! write reports. The queries themselves run against the database outside
//! this library.

use vstd::prelude::*;

verus! {

/// An entry of the list of articles, as the older schema reads it.
#[derive(Debug)]
pub struct ArticleListItem {
    /// The date the article was added, as it is displayed (`YYYY-MM-DD`).
    pub added: String,
    pub title: String,
}

/// One article, as the older schema reads it.
#[derive(Debug)]
pub struct ArticleItem {
    pub body: String,
    pub title: String,
    pub id: u32,
    pub is_last: bool,
    pub is_first: bool,
}

/// The id from which the next article is looked for: the one after `id`,
/// or `id` itself at the top of the range. The query takes the article with
/// that id, or else the first one above it.
pub fn next_article_id(id: u32) -> (from: u32)
    ensures
        from == (if id < u32::MAX { id + 1 } else { id as int }),
{
    id.saturating_add(1)
}

/// The id from which the previous article is looked for: the one before
/// `id`, or `0` at the bottom. The query takes the article with that id, or
/// else the last one below it.
pub fn prev_article_id(id: u32) -> (from: u32)
    ensures
        from == (if id > 0 { id - 1 } else { 0 }),
{
    id.saturating_sub(1)
}

/// The same for the older schema's signed ids, which add without a check:
/// the id must have a successor.
pub fn next_article_id_signed(id: i64) -> (from: i64)
    requires
        id < i64::MAX,
    ensures
        from == id + 1,
{
    id + 1
}

/// The same for the older schema's signed ids, which subtract without a
/// check: the id must have a predecessor.
pub fn prev_article_id_signed(id: i64) -> (from: i64)
    requires
        id > i64::MIN,
    ensures
        from == id - 1,
{
    id - 1
}

/// The title of a neighbour, or `Deleted` where the query found none.
pub fn title_or_deleted(title: Option<String>) -> (shown: String)
    ensures
        shown@ == (match title {
            Some(t) => t@,
            None => "Deleted"@,
        }),
{
    match title {
        Some(t) => t,
        None => String::from_str("Deleted"),
    }
}

/// Whether a write changed anything: whether it affected any row.
pub fn changed_rows(rows_affected: u64) -> (changed: bool)
    ensures
        changed == (rows_affected != 0),
{
    rows_affected != 0
}

} // verus!
