//! Mathematical model of the cleaning engine: what the URL parser and the
//! link lexer yield (as named, uninterpreted results), how one site rule
//! filters a query, and how a text is rebuilt around its link spans.
use vstd::prelude::*;

verus! {

/// A decoded query parameter: key and value, as character sequences.
pub type QueryPair = (Seq<char>, Seq<char>);

// ----- Named results of the outside URL parser (the `url` crate). -----
// Parsing, reading and re-serializing a URL are functions of the raw
// string alone; their exact value is left uninterpreted.
/// Whether the URL parser accepts the string.
pub uninterp spec fn url_ok(s: Seq<char>) -> bool;

/// The host of the parsed URL, if it has one.
pub uninterp spec fn url_host(s: Seq<char>) -> Option<Seq<char>>;

/// The decoded query pairs of the parsed URL, in order, duplicates kept.
pub uninterp spec fn url_query_pairs(s: Seq<char>) -> Seq<QueryPair>;

/// The serialization of the parsed URL after its query is replaced by `q`
/// (`None` erases the query); every other part is carried through.
pub uninterp spec fn url_with_query(s: Seq<char>, q: Option<Seq<char>>) -> Seq<char>;

// ----- Named result of the outside link lexer (the `linkify` crate). -----
/// The segmentation of a text around the URL-like substrings the lexer
/// finds: one `(gap, link)` entry per link, where `gap` is the text strictly
/// between the previous link (or the start) and this link, followed by one
/// final `(gap, empty)` entry carrying the text after the last link.
pub uninterp spec fn link_segments(text: Seq<char>) -> Seq<(Seq<char>, Seq<char>)>;

// ----- Views from executable values to the model. -----
pub open spec fn str_seq_view(s: Seq<&str>) -> Seq<Seq<char>> {
    s.map_values(|x: &str| x@)
}

pub open spec fn string_seq_view(s: Seq<String>) -> Seq<Seq<char>> {
    s.map_values(|x: String| x@)
}

pub open spec fn pair_seq_view(s: Seq<(String, String)>) -> Seq<QueryPair> {
    s.map_values(|p: (String, String)| (p.0@, p.1@))
}

pub open spec fn opt_string_view(o: Option<String>) -> Option<Seq<char>> {
    match o {
        Some(s) => Some(s@),
        None => None,
    }
}

/// An optional outcome as a sequence of zero or one entries.
pub open spec fn opt_to_seq(o: Option<Seq<char>>) -> Seq<Seq<char>> {
    match o {
        Some(s) => seq![s],
        None => Seq::empty(),
    }
}

// ----- One site rule applied to one query. -----
/// The host a rule is matched against: the parsed host, or the empty
/// string for a URL without one.
pub open spec fn host_or_empty(h: Option<Seq<char>>) -> Seq<char> {
    match h {
        Some(s) => s,
        None => Seq::empty(),
    }
}

/// Every pair's value is empty (vacuously true of an empty query).
pub open spec fn all_values_empty(ps: Seq<QueryPair>) -> bool {
    forall|i: int| 0 <= i < ps.len() ==> ps[i].1.len() == 0
}

/// The pairs that survive cleaning: every pair whose key is one of the
/// tracking parameters is dropped; order and values are kept.
pub open spec fn filter_pairs(ps: Seq<QueryPair>, params: Seq<Seq<char>>) -> Seq<QueryPair>
    decreases ps.len(),
{
    if ps.len() == 0 {
        Seq::empty()
    } else {
        let rest = filter_pairs(ps.drop_last(), params);
        if params.contains(ps.last().0) {
            rest
        } else {
            rest.push(ps.last())
        }
    }
}

/// One `key=value` unit of a rebuilt query string.
pub open spec fn pair_str(p: QueryPair) -> Seq<char> {
    p.0 + seq!['='] + p.1
}

/// The rebuilt query string: `key=value` pairs joined by `&`.
pub open spec fn query_of(ps: Seq<QueryPair>) -> Seq<char>
    decreases ps.len(),
{
    if ps.len() == 0 {
        Seq::empty()
    } else if ps.len() == 1 {
        pair_str(ps[0])
    } else {
        query_of(ps.drop_last()) + seq!['&'] + pair_str(ps.last())
    }
}

/// What one rule decides about a query, host questions aside:
/// `None` means nothing to sanitize (the degenerate all-empty-values query
/// is deliberately left alone, and so is a query from which no pair would
/// be dropped); `Some(q)` means the query is to be replaced by `q`, where
/// `q` is `None` when no pair survives.
pub open spec fn clean_query(ps: Seq<QueryPair>, params: Seq<Seq<char>>) -> Option<
    Option<Seq<char>>,
> {
    if all_values_empty(ps) {
        None
    } else {
        let kept = filter_pairs(ps, params);
        if kept.len() == ps.len() {
            None
        } else if kept.len() == 0 {
            Some(None)
        } else {
            Some(Some(query_of(kept)))
        }
    }
}

/// What one rule decides about a whole URL: `None` if the host is not
/// accepted or the query gives no reason to change, otherwise the
/// re-serialized URL with the filtered query.
pub open spec fn evaluate_rule(raw: Seq<char>, hosts: Seq<Seq<char>>, params: Seq<Seq<char>>) -> Option<
    Seq<char>,
> {
    if !hosts.contains(host_or_empty(url_host(raw))) {
        None
    } else {
        match clean_query(url_query_pairs(raw), params) {
            None => None,
            Some(q) => Some(url_with_query(raw, q)),
        }
    }
}

// ----- Splicing a text back together around its link spans. -----
/// The first `n` segments, each gap followed by the matching replacement.
pub open spec fn interleave_upto(
    segs: Seq<(Seq<char>, Seq<char>)>,
    repls: Seq<Seq<char>>,
    n: int,
) -> Seq<char>
    decreases n,
{
    if n <= 0 {
        Seq::empty()
    } else {
        interleave_upto(segs, repls, n - 1) + segs[n - 1].0 + repls[n - 1]
    }
}

/// The links of a segmentation, in order.
pub open spec fn links_of(segs: Seq<(Seq<char>, Seq<char>)>) -> Seq<Seq<char>> {
    segs.map_values(|p: (Seq<char>, Seq<char>)| p.1)
}

/// The text a segmentation came from: all gaps and links, in order.
pub open spec fn segs_concat(segs: Seq<(Seq<char>, Seq<char>)>) -> Seq<char> {
    interleave_upto(segs, links_of(segs), segs.len() as int)
}

} // verus!
