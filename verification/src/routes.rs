//! The addresses the server answers on, and where an address with a
//! trailing slash is redirected.

use vstd::prelude::*;
use crate::text::{signed_decimal, signed_decimal_string};

verus! {

/// Where `/blog/next/{id}/` is redirected.
pub fn next_path(id: i64) -> (path: String)
    ensures
        path@ == "/blog/next/"@ + signed_decimal(id as int),
{
    let mut path = String::from_str("/blog/next/");
    path.append(signed_decimal_string(id).as_str());
    path
}

/// Where `/blog/prev/{id}/` is redirected.
pub fn prev_path(id: i64) -> (path: String)
    ensures
        path@ == "/blog/prev/"@ + signed_decimal(id as int),
{
    let mut path = String::from_str("/blog/prev/");
    path.append(signed_decimal_string(id).as_str());
    path
}

/// Where `/blog/{title}/` is redirected.
pub fn article_path(title: &str) -> (path: String)
    ensures
        path@ == "/blog/"@ + title@,
{
    let mut path = String::from_str("/blog/");
    path.append(title);
    path
}

} // verus!
