//! The trusted boundary: the only calls into the outside crates (`linkify`
//! for locating URL-like substrings, `url` for parsing and re-serializing
//! URLs) and into the one `str` comparison that vstd gives no contract for.
//! Each wrapper's contract states what the outside call returns in terms of
//! the named results of `crate::model`.
use vstd::prelude::*;

use crate::model::{link_segments, pair_seq_view, opt_string_view, segs_concat, url_host,
    url_ok, url_query_pairs, url_with_query};

verus! {

/// Relies on `str`'s `PartialEq`: two string slices are equal exactly when
/// their character sequences are equal.
#[verifier::external_body]
pub(crate) fn str_eq(a: &str, b: &str) -> (r: bool)
    ensures
        r == (a@ == b@),
{
    a == b
}

/// Relies on `linkify::LinkFinder::links` with the `Url` kind: the links it
/// yields are non-overlapping substrings of the text, in order, so slicing
/// around them splits the text into consecutive pieces whose concatenation
/// is the whole text. Returns one `(gap, link)` pair per link and a final
/// `(gap, empty)` pair for the text after the last link.
#[verifier::external_body]
pub(crate) fn scan_segments(text: &str) -> (r: Vec<(String, String)>)
    ensures
        pair_seq_view(r@) == link_segments(text@),
        segs_concat(pair_seq_view(r@)) == text@,
        r@.len() >= 1,
        r@.last().1@.len() == 0,
{
    let mut finder = linkify::LinkFinder::new();
    finder.kinds(&[linkify::LinkKind::Url]);
    let mut out: Vec<(String, String)> = Vec::new();
    let mut last: usize = 0;
    for link in finder.links(text) {
        out.push((text[last..link.start()].to_string(), link.as_str().to_string()));
        last = link.end();
    }
    out.push((text[last..].to_string(), String::new()));
    out
}

/// Relies on `url::Url::parse`, `Url::host_str` and `Url::query_pairs`:
/// parsing either fails or yields a URL whose host and decoded query pairs
/// are functions of the input string alone.
#[verifier::external_body]
pub(crate) fn parse_url_parts(s: &str) -> (r: Option<(Option<String>, Vec<(String, String)>)>)
    ensures
        r is Some <==> url_ok(s@),
        r matches Some(p) ==> opt_string_view(p.0) == url_host(s@) && pair_seq_view(p.1@)
            == url_query_pairs(s@),
{
    match url::Url::parse(s) {
        Ok(u) => {
            let host = u.host_str().map(|h| h.to_string());
            let pairs = u.query_pairs().map(|(k, v)| (k.into_owned(), v.into_owned())).collect();
            Some((host, pairs))
        },
        Err(_) => None,
    }
}

/// Relies on `url::Url::parse`, `Url::set_query` and `Url`'s `Display`:
/// replacing the query of a parsed URL and re-serializing it is a function
/// of the original string and the new query alone; `set_query` touches no
/// other part of the URL.
#[verifier::external_body]
pub(crate) fn reserialize_with_query(s: &str, q: Option<&String>) -> (r: Option<String>)
    ensures
        r is Some <==> url_ok(s@),
        r matches Some(t) ==> t@ == url_with_query(
            s@,
            match q {
                Some(x) => Some(x@),
                None => None,
            },
        ),
{
    match url::Url::parse(s) {
        Ok(mut u) => {
            u.set_query(q.map(|x| x.as_str()));
            Some(u.to_string())
        },
        Err(_) => None,
    }
}

} // verus!
