//! The articles as the pages and the repository see them.

use vstd::prelude::*;
use vstd::utf8::encode_utf8;
use crate::text::{decimal, decimal_string};

verus! {

/// An entry of the list of articles.
#[derive(Debug)]
pub struct ListItem {
    pub id: u32,
    /// The date the article was added, as it is displayed (`YYYY-MM-DD`).
    pub added: String,
    /// The title: percent-encoded as it is stored and fetched, decoded in the
    /// lists that the pages are given (`decode_titles`).
    pub title: String,
}

/// One article, with its place among the others.
pub struct Item {
    pub id: u32,
    /// The title, percent-encoded as it is stored.
    pub title: String,
    /// The Markdown body, Base64-encoded as it is stored.
    pub body: String,
    /// Whether no article has a larger id.
    pub is_last: bool,
    /// Whether no article has a smaller id.
    pub is_first: bool,
}

/// What `{:?}` gives for a `str`: the text between double quotes, with
/// std's debug escapes.
pub uninterp spec fn debug_quoted(s: Seq<char>) -> Seq<char>;

/// Formats a text with `{:?}` (std's `Debug` for `str`).
/// Claimed: the result is `debug_quoted` of the text.
#[verifier::external_body]
fn debug_str(s: &str) -> (quoted: String)
    ensures
        quoted@ == debug_quoted(s@),
{
    format!("{:?}", s)
}

/// `true` or `false`, as `Debug` writes a `bool`.
pub open spec fn bool_text(b: bool) -> Seq<char> {
    if b {
        "true"@
    } else {
        "false"@
    }
}

fn bool_string(b: bool) -> (s: String)
    ensures
        s@ == bool_text(b),
{
    if b {
        String::from_str("true")
    } else {
        String::from_str("false")
    }
}

impl Item {
    /// The debug form of an item: its fields, with the body given by its
    /// length in bytes only.
    pub open spec fn debug_text(self) -> Seq<char> {
        "Item { id: "@ + decimal(self.id as nat) + ", title: "@ + debug_quoted(self.title@)
            + ", #: "@ + decimal((encode_utf8(self.body@).len() as usize) as nat) + ", is_last: "@ + bool_text(
            self.is_last,
        ) + ", is_first: "@ + bool_text(self.is_first) + " }"@
    }

    /// Writes the item as its `Debug` form shows it, e.g.
    /// `Item { id: 1, title: "a", #: 3, is_last: true, is_first: true }`.
    pub fn debug_string(&self) -> (s: String)
        ensures
            s@ == self.debug_text(),
    {
        let mut s = String::from_str("Item { id: ");
        s.append(decimal_string(self.id as u64).as_str());
        s.append(", title: ");
        s.append(debug_str(self.title.as_str()).as_str());
        s.append(", #: ");
        let len = self.body.as_str().len();
        s.append(decimal_string(len as u64).as_str());
        s.append(", is_last: ");
        s.append(bool_string(self.is_last).as_str());
        s.append(", is_first: ");
        s.append(bool_string(self.is_first).as_str());
        s.append(" }");
        assert(s@ =~= self.debug_text());
        s
    }
}

} // verus!
