//! The archive and file selection as they stand in the page's query string.
use vstd::prelude::*;
use crate::state::opt_view;
use crate::cookies::{trim_chars, trimmed};
use crate::text::{chars_of, string_from_chars};

verus! {

/// The query parameters that name the open archive and the selected file.
pub struct QueryState {
    /// The archive's URL, the `zip` parameter.
    pub zip_url: String,
    /// The selected file, the `file` parameter, left out when nothing is selected.
    pub selected_file: Option<String>,
}

impl QueryState {
    /// The query parameters for an archive and an optional selected file.
    pub fn new(zip_url: &str, selected_file: Option<&str>) -> (r: QueryState)
        ensures
            r.zip_url@ == zip_url@,
            opt_view(r.selected_file) == (match selected_file {
                Some(f) => Some(f@),
                None => None,
            }),
    {
        QueryState {
            zip_url: zip_url.to_string(),
            selected_file: match selected_file {
                Some(f) => Some(f.to_string()),
                None => None,
            },
        }
    }
}

/// The search part of a URL for an encoded query: the query behind a `?`.
pub fn search_string(query: &str) -> (r: String)
    ensures
        r@ == seq!['?'] + query@,
{
    let mut search = String::from_str("?");
    search.append(query);
    proof {
        reveal_strlit("?");
    }
    search
}

/// The encoded query inside a URL's search part: the text behind a leading
/// `?`, or the whole text where it has none.
pub fn query_text(search: &str) -> (r: &str)
    ensures
        r@ == (if search@.len() > 0 && search@[0] == '?' {
            search@.skip(1)
        } else {
            search@
        }),
{
    let len = search.unicode_len();
    if len > 0 && search.get_char(0) == '?' {
        search.substring_char(1, len)
    } else {
        search
    }
}


/// The URL submitted in the URL dialog: the input without surrounding white
/// space, when anything is left.
pub fn submitted_url(input: &str) -> (r: Option<String>)
    ensures
        match r {
            Some(url) => url@ == trimmed(input@) && url@.len() > 0,
            None => trimmed(input@).len() == 0,
        },
{
    let url = trim_chars(&chars_of(input));
    if url.len() == 0 {
        None
    } else {
        Some(string_from_chars(&url))
    }
}

} // verus!
