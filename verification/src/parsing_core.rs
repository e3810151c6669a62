//! The cleaning engine: a parsed-URL record holding the plain values the
//! rules read, the rule evaluator, and the two text passes (collecting
//! sanitized URLs, and splicing them back into the text).
use vstd::prelude::*;
use vstd::string::StringExecFns;

use crate::model::{all_values_empty, evaluate_rule, filter_pairs, host_or_empty, interleave_upto,
    link_segments, opt_string_view, opt_to_seq, pair_seq_view, pair_str, query_of, str_seq_view,
    string_seq_view, url_host, url_ok, url_query_pairs, QueryPair};
use crate::outside::{parse_url_parts, reserialize_with_query, scan_segments, str_eq};
use crate::parsing_params::{instagram_rule, parse_instagram_url, parse_spotify_url,
    parse_substack_url, parse_twitter_url, parse_youtube_url, spotify_rule, substack_rule,
    twitter_rule, youtube_rule};

verus! {

/// A URL decoded into the plain values the site rules read: the raw string
/// it was parsed from, its host, and its decoded query pairs in order.
pub struct ParsedUrl {
    raw: String,
    host: Option<String>,
    pairs: Vec<(String, String)>,
}

impl ParsedUrl {
    /// The raw string this record was parsed from.
    pub closed spec fn raw_view(&self) -> Seq<char> {
        self.raw@
    }

    /// The record faithfully holds what the URL parser yields on `raw`.
    pub closed spec fn wf(&self) -> bool {
        &&& url_ok(self.raw@)
        &&& opt_string_view(self.host) == url_host(self.raw@)
        &&& pair_seq_view(self.pairs@) == url_query_pairs(self.raw@)
    }

    /// The host this record was parsed with, or the empty string for a URL
    /// without one (hosts are matched against that empty string).
    pub fn host_str_or_empty(&self) -> (r: &str)
        requires
            self.wf(),
        ensures
            r@ == host_or_empty(url_host(self.raw_view())),
    {
        match &self.host {
            Some(h) => h.as_str(),
            None => {
                proof {
                    reveal_strlit("");
                    assert(""@ =~= Seq::<char>::empty());
                }
                ""
            },
        }
    }

    /// Decodes a URL string, or yields `None` exactly when the URL parser
    /// rejects it.
    pub fn parse(s: &str) -> (r: Option<ParsedUrl>)
        ensures
            r is Some <==> url_ok(s@),
            r matches Some(u) ==> u.wf() && u.raw_view() == s@,
    {
        match parse_url_parts(s) {
            Some((host, pairs)) => Some(ParsedUrl { raw: s.to_owned(), host, pairs }),
            None => None,
        }
    }
}

/// Whether `x` occurs in `list`.
fn contains_str(list: &[&str], x: &str) -> (r: bool)
    ensures
        r == str_seq_view(list@).contains(x@),
{
    let mut i: usize = 0;
    while i < list.len()
        invariant
            0 <= i <= list@.len(),
            forall|j: int| 0 <= j < i ==> str_seq_view(list@)[j] != x@,
        decreases list@.len() - i,
    {
        if str_eq(list[i], x) {
            assert(str_seq_view(list@)[i as int] == x@);
            return true;
        }
        i += 1;
    }
    false
}

// ----- What the whole engine decides about a text. -----
/// Every sanitized form one link gives rise to: each site rule's outcome,
/// in table order, for a link that parses as a URL; nothing for one that
/// does not.
pub open spec fn link_outcomes(link: Seq<char>) -> Seq<Seq<char>> {
    if !url_ok(link) {
        Seq::empty()
    } else {
        opt_to_seq(youtube_rule(link)) + opt_to_seq(twitter_rule(link)) + opt_to_seq(
            instagram_rule(link),
        ) + opt_to_seq(spotify_rule(link)) + opt_to_seq(substack_rule(link))
    }
}

/// The outcomes of the first `n` links of a segmentation, in span order.
pub open spec fn outcomes_upto(segs: Seq<(Seq<char>, Seq<char>)>, n: int) -> Seq<Seq<char>>
    decreases n,
{
    if n <= 0 {
        Seq::empty()
    } else {
        outcomes_upto(segs, n - 1) + link_outcomes(segs[n - 1].1)
    }
}

/// Every sanitized URL the text gives rise to, in span order.
pub open spec fn cleaned_of_text(text: Seq<char>) -> Seq<Seq<char>> {
    let segs = link_segments(text);
    outcomes_upto(segs, segs.len() - 1)
}

/// Whether the lexer finds any link at all in the text.
pub open spec fn has_links(text: Seq<char>) -> bool {
    link_segments(text).len() > 1
}

/// What a link span is replaced by when the text is rebuilt: its first
/// sanitized form, or the link itself when no rule applies.
pub open spec fn repl_of(link: Seq<char>) -> Seq<char> {
    if link_outcomes(link).len() > 0 {
        link_outcomes(link)[0]
    } else {
        link
    }
}

/// The replacement of every link of a segmentation.
pub open spec fn repls_of(segs: Seq<(Seq<char>, Seq<char>)>) -> Seq<Seq<char>> {
    segs.map_values(|p: (Seq<char>, Seq<char>)| repl_of(p.1))
}

/// The rebuilt text: every gap verbatim, every link span replaced by its
/// sanitized form where one exists, and the trailing text verbatim.
pub open spec fn spliced_text(text: Seq<char>) -> Seq<char> {
    let segs = link_segments(text);
    interleave_upto(segs, repls_of(segs), segs.len() - 1) + segs.last().0
}

pub struct Parser {}

impl Parser {
    pub fn new() -> Parser {
        Parser {}
    }

    /// Collects every sanitized form of one link: the record of each site
    /// rule that applies, in table order.
    fn clean_link(&self, link: &str) -> (r: Vec<String>)
        ensures
            string_seq_view(r@) == link_outcomes(link@),
    {
        let mut out: Vec<String> = Vec::new();
        match ParsedUrl::parse(link) {
            None => {
                assert(string_seq_view(out@) =~= link_outcomes(link@));
            },
            Some(u) => {
                if let Some(s) = parse_youtube_url(self, &u) {
                    out.push(s);
                }
                assert(string_seq_view(out@) =~= opt_to_seq(youtube_rule(link@)));
                let ghost o1 = string_seq_view(out@);
                if let Some(s) = parse_twitter_url(self, &u) {
                    out.push(s);
                }
                assert(string_seq_view(out@) =~= o1 + opt_to_seq(twitter_rule(link@)));
                let ghost o2 = string_seq_view(out@);
                if let Some(s) = parse_instagram_url(self, &u) {
                    out.push(s);
                }
                assert(string_seq_view(out@) =~= o2 + opt_to_seq(instagram_rule(link@)));
                let ghost o3 = string_seq_view(out@);
                if let Some(s) = parse_spotify_url(self, &u) {
                    out.push(s);
                }
                assert(string_seq_view(out@) =~= o3 + opt_to_seq(spotify_rule(link@)));
                let ghost o4 = string_seq_view(out@);
                if let Some(s) = parse_substack_url(self, &u) {
                    out.push(s);
                }
                assert(string_seq_view(out@) =~= o4 + opt_to_seq(substack_rule(link@)));
                assert(string_seq_view(out@) =~= link_outcomes(link@));
            },
        }
        out
    }

    /// Scans a text and yields every sanitized URL it gives rise to, in
    /// span order, or `None` when the text holds no link or no rule
    /// applies anywhere.
    pub fn parse_any_text(&self, input: &str) -> (r: Option<Vec<String>>)
        ensures
            ({
                let c = cleaned_of_text(input@);
                match r {
                    Some(v) => has_links(input@) && c.len() > 0 && string_seq_view(v@) == c,
                    None => !has_links(input@) || c.len() == 0,
                }
            }),
    {
        let segs = scan_segments(input);
        let ghost sg = link_segments(input@);
        if segs.len() <= 1 {
            return None;
        }
        let n = segs.len() - 1;
        let mut cleaned: Vec<String> = Vec::new();
        let mut i: usize = 0;
        while i < n
            invariant
                0 <= i <= n,
                pair_seq_view(segs@) == sg,
                n < segs@.len(),
                n as int == sg.len() - 1,
                string_seq_view(cleaned@) == outcomes_upto(sg, i as int),
            decreases n - i,
        {
            let ghost c0 = string_seq_view(cleaned@);
            let seg = &segs[i];
            let mut outs = self.clean_link(seg.1.as_str());
            let ghost ov = string_seq_view(outs@);
            cleaned.append(&mut outs);
            proof {
                assert(sg[i as int].1 == seg.1@);
                assert(string_seq_view(cleaned@) =~= c0 + ov);
                assert(string_seq_view(cleaned@) =~= outcomes_upto(sg, i as int + 1));
            }
            i += 1;
        }
        if cleaned.len() > 0 {
            Some(cleaned)
        } else {
            None
        }
    }

    /// Rewrites the text in place when some rule applies somewhere: every
    /// link span is replaced by its sanitized form where one exists, the
    /// text outside the spans is kept verbatim. Leaves the text untouched
    /// and yields `None` when there is nothing to sanitize.
    pub fn sanitize_in_place(&self, input: &mut String) -> (r: Option<()>)
        ensures
            ({
                let c = cleaned_of_text(old(input)@);
                match r {
                    Some(_) => has_links(old(input)@) && c.len() > 0 && final(input)@ == spliced_text(
                        old(input)@,
                    ),
                    None => (!has_links(old(input)@) || c.len() == 0) && final(input)@ == old(input)@,
                }
            }),
    {
        let original = input.clone();
        let segs = scan_segments(original.as_str());
        let ghost sg = link_segments(old(input)@);
        if segs.len() <= 1 {
            return None;
        }
        let n = segs.len() - 1;
        let mut result = String::new();
        let mut changed = false;
        let mut i: usize = 0;
        while i < n
            invariant
                0 <= i <= n,
                pair_seq_view(segs@) == sg,
                n < segs@.len(),
                n as int == sg.len() - 1,
                result@ == interleave_upto(sg, repls_of(sg), i as int),
                changed <==> outcomes_upto(sg, i as int).len() > 0,
            decreases n - i,
        {
            let seg = &segs[i];
            result.append(seg.0.as_str());
            let outs = self.clean_link(seg.1.as_str());
            if outs.len() > 0 {
                changed = true;
                let first = &outs[0];
                result.append(first.as_str());
                assert(first@ == repl_of(sg[i as int].1));
            } else {
                result.append(seg.1.as_str());
                assert(seg.1@ == repl_of(sg[i as int].1));
            }
            proof {
                assert(repls_of(sg)[i as int] == repl_of(sg[i as int].1));
                assert(result@ =~= interleave_upto(sg, repls_of(sg), i as int + 1));
            }
            i += 1;
        }
        let tail = &segs[n];
        result.append(tail.0.as_str());
        if changed {
            proof {
                assert(sg.last() == sg[n as int]);
                assert(result@ =~= spliced_text(old(input)@));
            }
            *input = result;
            Some(())
        } else {
            None
        }
    }

    /// Evaluates one site rule against a decoded URL: yields the
    /// re-serialized URL with every tracking pair dropped, or `None` when
    /// the host is not accepted, the query's values are all empty, or no
    /// pair would be dropped.
    pub fn parse_url(
        &self,
        parsed_url: &ParsedUrl,
        valid_hosts: &[&str],
        tracking_params: &[&str],
    ) -> (r: Option<String>)
        requires
            parsed_url.wf(),
        ensures
            opt_string_view(r) == evaluate_rule(
                parsed_url.raw_view(),
                str_seq_view(valid_hosts@),
                str_seq_view(tracking_params@),
            ),
    {
        let host_ref: &str = parsed_url.host_str_or_empty();
        if !contains_str(valid_hosts, host_ref) {
            return None;
        }
        let ghost pv = pair_seq_view(parsed_url.pairs@);
        let pairs = &parsed_url.pairs;

        // Degenerate-query guard: a query whose values are all empty carries
        // no information and is deliberately left alone.
        let mut any_nonempty = false;
        let mut i: usize = 0;
        while i < pairs.len()
            invariant
                0 <= i <= pairs@.len(),
                pv == pair_seq_view(pairs@),
                any_nonempty <==> exists|j: int| 0 <= j < i && pv[j].1.len() > 0,
            decreases pairs@.len() - i,
        {
            if !pairs[i].1.as_str().is_empty() {
                assert(pv[i as int].1.len() > 0);
                any_nonempty = true;
            }
            i += 1;
        }
        if !any_nonempty {
            assert(all_values_empty(url_query_pairs(parsed_url.raw@)));
            return None;
        }

        let ghost params = str_seq_view(tracking_params@);
        let mut kept: Vec<(String, String)> = Vec::new();
        let mut i: usize = 0;
        while i < pairs.len()
            invariant
                0 <= i <= pairs@.len(),
                pv == pair_seq_view(pairs@),
                params == str_seq_view(tracking_params@),
                pair_seq_view(kept@) == filter_pairs(pv.subrange(0, i as int), params),
            decreases pairs@.len() - i,
        {
            let ghost kept0 = pair_seq_view(kept@);
            let p = &pairs[i];
            if !contains_str(tracking_params, p.0.as_str()) {
                kept.push((p.0.clone(), p.1.clone()));
                assert(pair_seq_view(kept@) =~= kept0.push((p.0@, p.1@)));
            }
            proof {
                assert(pv.subrange(0, i as int + 1).drop_last() =~= pv.subrange(0, i as int));
                assert(pv.subrange(0, i as int + 1).last() == pv[i as int]);
            }
            i += 1;
        }
        assert(pv.subrange(0, pairs@.len() as int) =~= pv);

        if kept.len() == pairs.len() {
            return None;
        }

        let q: Option<String> = if kept.len() == 0 {
            None
        } else {
            Some(build_query(&kept))
        };
        let q_ref: Option<&String> = match &q {
            Some(s) => Some(s),
            None => None,
        };
        match reserialize_with_query(parsed_url.raw.as_str(), q_ref) {
            Some(t) => Some(t),
            None => None,
        }
    }
}

/// Rebuilds a query string from the surviving pairs: `key=value` units
/// joined by `&`, values used as decoded.
fn build_query(kept: &Vec<(String, String)>) -> (r: String)
    requires
        kept@.len() > 0,
    ensures
        r@ == query_of(pair_seq_view(kept@)),
{
    let ghost kv = pair_seq_view(kept@);
    let mut out = String::new();
    let mut i: usize = 0;
    while i < kept.len()
        invariant
            0 <= i <= kept@.len(),
            kv == pair_seq_view(kept@),
            out@ == query_of(kv.subrange(0, i as int)),
        decreases kept@.len() - i,
    {
        proof {
            reveal_strlit("&");
            reveal_strlit("=");
            assert("&"@ =~= seq!['&']);
            assert("="@ =~= seq!['=']);
            assert(kv.subrange(0, i as int + 1).drop_last() =~= kv.subrange(0, i as int));
            assert(kv.subrange(0, i as int + 1).last() == kv[i as int]);
        }
        if i > 0 {
            out.append("&");
        }
        let p = &kept[i];
        out.append(p.0.as_str());
        out.append("=");
        out.append(p.1.as_str());
        proof {
            if i == 0 {
                assert(out@ =~= pair_str(kv[0]));
            } else {
                assert(out@ =~= query_of(kv.subrange(0, i as int)) + seq!['&'] + pair_str(
                    kv[i as int],
                ));
            }
        }
        i += 1;
    }
    assert(kv.subrange(0, kept@.len() as int) =~= kv);
    out
}

} // verus!
