//! The site rule table: for each recognized site, its accepted hosts and
//! its tracking-parameter names, and the per-site entry points that apply
//! the rule evaluator to a decoded URL.
use vstd::prelude::*;
use vstd::string::StrSliceExecFns;

use crate::model::{evaluate_rule, host_or_empty, str_seq_view, opt_string_view, url_host};
use crate::outside::str_eq;
use crate::parsing_core::{ParsedUrl, Parser};

verus! {

// ----- The rule table, as the contracts state it. -----
pub open spec fn twitter_hosts() -> Seq<Seq<char>> {
    seq!["www.twitter.com"@, "twitter.com"@, "t.co"@, "x.com"@, "www.x.com"@]
}

pub open spec fn twitter_params() -> Seq<Seq<char>> {
    seq![
        "utm_source"@,
        "utm_medium"@,
        "utm_campaign"@,
        "utm_term"@,
        "utm_content"@,
        "s"@,
        "t"@,
        "src"@,
        "ref_src"@,
        "ref_url"@,
        "twclid"@,
    ]
}

pub open spec fn youtube_hosts() -> Seq<Seq<char>> {
    seq![
        "www.youtube.com"@,
        "youtube.com"@,
        "youtu.be"@,
        "yt.be"@,
        "m.youtube.com"@,
        "music.youtube.com"@,
    ]
}

pub open spec fn youtube_params() -> Seq<Seq<char>> {
    seq![
        "utm_source"@,
        "utm_medium"@,
        "utm_campaign"@,
        "utm_term"@,
        "utm_content"@,
        "feature"@,
        "gclid"@,
        "fbclid"@,
        "si"@,
        "pp"@,
    ]
}

pub open spec fn substack_params() -> Seq<Seq<char>> {
    seq![
        "utm_source"@,
        "utm_medium"@,
        "utm_campaign"@,
        "utm_term"@,
        "utm_content"@,
        "source"@,
        "r"@,
        "s"@,
    ]
}

pub open spec fn spotify_hosts() -> Seq<Seq<char>> {
    seq![
        "open.spotify.com"@,
        "play.spotify.com"@,
        "spotify.com"@,
        "www.spotify.com"@,
        "artist.spotify.com"@,
        "embed.spotify.com"@,
    ]
}

pub open spec fn spotify_params() -> Seq<Seq<char>> {
    seq![
        "si"@,
        "utm_source"@,
        "utm_medium"@,
        "utm_campaign"@,
        "utm_term"@,
        "utm_content"@,
        "feature"@,
        "nd"@,
        "context"@,
        "context_id"@,
        "sp_cid"@,
        "sp_ac"@,
        "sp_gaid"@,
        "sp_aid"@,
        "go"@,
        "fbclid"@,
        "product"@,
        "referral"@,
    ]
}

pub open spec fn instagram_hosts() -> Seq<Seq<char>> {
    seq!["www.instagram.com"@, "instagram.com"@]
}

pub open spec fn instagram_params() -> Seq<Seq<char>> {
    seq![
        "utm_source"@,
        "utm_medium"@,
        "utm_campaign"@,
        "utm_term"@,
        "utm_content"@,
        "igshid"@,
        "fbclid"@,
        "_ga"@,
        "_gid"@,
    ]
}

/// A suffix-of test over character sequences.
pub open spec fn suffix_of(suffix: Seq<char>, s: Seq<char>) -> bool {
    suffix.len() <= s.len() && s.subrange(s.len() - suffix.len(), s.len() as int) == suffix
}

/// The one suffix-matching host rule: the site's two exact hosts, or any
/// host under its domain.
pub open spec fn substack_host_ok(h: Seq<char>) -> bool {
    h == "www.substack.com"@ || h == "substack.com"@ || suffix_of(".substack.com"@, h)
}

// ----- What each site's rule decides about a raw URL string. -----
pub open spec fn twitter_rule(raw: Seq<char>) -> Option<Seq<char>> {
    evaluate_rule(raw, twitter_hosts(), twitter_params())
}

pub open spec fn youtube_rule(raw: Seq<char>) -> Option<Seq<char>> {
    evaluate_rule(raw, youtube_hosts(), youtube_params())
}

pub open spec fn spotify_rule(raw: Seq<char>) -> Option<Seq<char>> {
    evaluate_rule(raw, spotify_hosts(), spotify_params())
}

pub open spec fn instagram_rule(raw: Seq<char>) -> Option<Seq<char>> {
    evaluate_rule(raw, instagram_hosts(), instagram_params())
}

pub open spec fn substack_rule(raw: Seq<char>) -> Option<Seq<char>> {
    let h = host_or_empty(url_host(raw));
    if substack_host_ok(h) {
        evaluate_rule(raw, seq![h], substack_params())
    } else {
        None
    }
}

/// Whether `s` ends with `suffix`, by characters.
fn str_ends_with(s: &str, suffix: &str) -> (r: bool)
    ensures
        r == suffix_of(suffix@, s@),
{
    let n = s.unicode_len();
    let m = suffix.unicode_len();
    if m > n {
        return false;
    }
    let tail = s.substring_char(n - m, n);
    str_eq(tail, suffix)
}

pub fn parse_twitter_url(parser: &Parser, parsed_url: &ParsedUrl) -> (r: Option<String>)
    requires
        parsed_url.wf(),
    ensures
        opt_string_view(r) == twitter_rule(parsed_url.raw_view()),
{
    let valid_hosts: [&str; 5] = ["www.twitter.com", "twitter.com", "t.co", "x.com", "www.x.com"];
    let tracking_params: [&str; 11] = [
        "utm_source",
        "utm_medium",
        "utm_campaign",
        "utm_term",
        "utm_content",
        "s",
        "t",
        "src",
        "ref_src",
        "ref_url",
        "twclid",
    ];
    proof {
        assert(str_seq_view(valid_hosts@) =~= twitter_hosts());
        assert(str_seq_view(tracking_params@) =~= twitter_params());
    }
    parser.parse_url(parsed_url, valid_hosts.as_slice(), tracking_params.as_slice())
}

pub fn parse_youtube_url(parser: &Parser, parsed_url: &ParsedUrl) -> (r: Option<String>)
    requires
        parsed_url.wf(),
    ensures
        opt_string_view(r) == youtube_rule(parsed_url.raw_view()),
{
    let valid_hosts: [&str; 6] = [
        "www.youtube.com",
        "youtube.com",
        "youtu.be",
        "yt.be",
        "m.youtube.com",
        "music.youtube.com",
    ];
    let tracking_params: [&str; 10] = [
        "utm_source",
        "utm_medium",
        "utm_campaign",
        "utm_term",
        "utm_content",
        "feature",
        "gclid",
        "fbclid",
        "si",
        "pp",
    ];
    proof {
        assert(str_seq_view(valid_hosts@) =~= youtube_hosts());
        assert(str_seq_view(tracking_params@) =~= youtube_params());
    }
    parser.parse_url(parsed_url, valid_hosts.as_slice(), tracking_params.as_slice())
}

pub fn parse_substack_url(parser: &Parser, parsed_url: &ParsedUrl) -> (r: Option<String>)
    requires
        parsed_url.wf(),
    ensures
        opt_string_view(r) == substack_rule(parsed_url.raw_view()),
{
    let tracking_params: [&str; 8] = [
        "utm_source",
        "utm_medium",
        "utm_campaign",
        "utm_term",
        "utm_content",
        "source",
        "r",
        "s",
    ];
    let host: &str = parsed_url.host_str_or_empty();
    proof {
        assert(str_seq_view(tracking_params@) =~= substack_params());
    }
    if str_eq(host, "www.substack.com") || str_eq(host, "substack.com") || str_ends_with(
        host,
        ".substack.com",
    ) {
        let valid_hosts: [&str; 1] = [host];
        proof {
            assert(str_seq_view(valid_hosts@) =~= seq![host@]);
        }
        parser.parse_url(parsed_url, valid_hosts.as_slice(), tracking_params.as_slice())
    } else {
        None
    }
}

pub fn parse_spotify_url(parser: &Parser, parsed_url: &ParsedUrl) -> (r: Option<String>)
    requires
        parsed_url.wf(),
    ensures
        opt_string_view(r) == spotify_rule(parsed_url.raw_view()),
{
    let valid_hosts: [&str; 6] = [
        "open.spotify.com",
        "play.spotify.com",
        "spotify.com",
        "www.spotify.com",
        "artist.spotify.com",
        "embed.spotify.com",
    ];
    let tracking_params: [&str; 18] = [
        "si",
        "utm_source",
        "utm_medium",
        "utm_campaign",
        "utm_term",
        "utm_content",
        "feature",
        "nd",
        "context",
        "context_id",
        "sp_cid",
        "sp_ac",
        "sp_gaid",
        "sp_aid",
        "go",
        "fbclid",
        "product",
        "referral",
    ];
    proof {
        assert(str_seq_view(valid_hosts@) =~= spotify_hosts());
        assert(str_seq_view(tracking_params@) =~= spotify_params());
    }
    parser.parse_url(parsed_url, valid_hosts.as_slice(), tracking_params.as_slice())
}

pub fn parse_instagram_url(parser: &Parser, parsed_url: &ParsedUrl) -> (r: Option<String>)
    requires
        parsed_url.wf(),
    ensures
        opt_string_view(r) == instagram_rule(parsed_url.raw_view()),
{
    let valid_hosts: [&str; 2] = ["www.instagram.com", "instagram.com"];
    let tracking_params: [&str; 9] = [
        "utm_source",
        "utm_medium",
        "utm_campaign",
        "utm_term",
        "utm_content",
        "igshid",
        "fbclid",
        "_ga",
        "_gid",
    ];
    proof {
        assert(str_seq_view(valid_hosts@) =~= instagram_hosts());
        assert(str_seq_view(tracking_params@) =~= instagram_params());
    }
    parser.parse_url(parsed_url, valid_hosts.as_slice(), tracking_params.as_slice())
}

} // verus!
