//! Removes known tracking query parameters from URLs found in free text.
//!
//! The engine scans a text for URL-like substrings, evaluates each against a
//! fixed table of site rules (accepted hosts and tracking-parameter names),
//! and either reports the sanitized URLs or splices them back into the text,
//! leaving everything outside the link spans byte-for-byte unchanged.
pub mod laws;
pub mod model;
mod outside;
pub mod parsing_core;
pub mod parsing_params;

use vstd::prelude::*;

use crate::parsing_core::{cleaned_of_text, has_links, spliced_text, Parser};
use crate::model::string_seq_view;

pub use crate::parsing_core::ParsedUrl;
pub use crate::parsing_params::{parse_instagram_url, parse_spotify_url, parse_substack_url,
    parse_twitter_url, parse_youtube_url};

verus! {

/// Scans any text for URLs and yields every sanitized URL, in order of
/// appearance, or `None` when no link carries a tracking parameter.
pub fn clean_urls_from_any_text(input: &str) -> (r: Option<Vec<String>>)
    ensures
        ({
            let c = cleaned_of_text(input@);
            match r {
                Some(v) => has_links(input@) && c.len() > 0 && string_seq_view(v@) == c,
                None => !has_links(input@) || c.len() == 0,
            }
        }),
{
    let parser = Parser::new();
    parser.parse_any_text(input)
}

/// Sanitizes the URLs of a mutable text in place: on success the buffer
/// holds the rebuilt text; when nothing is to sanitize it is left
/// byte-for-byte untouched and `None` is returned.
pub fn replace_urls_in_place(input: &mut String) -> (r: Option<()>)
    ensures
        ({
            let c = cleaned_of_text(old(input)@);
            match r {
                Some(_) => has_links(old(input)@) && c.len() > 0 && final(input)@ == spliced_text(
                    old(input)@,
                ),
                None => (!has_links(old(input)@) || c.len() == 0) && final(input)@ == old(input)@,
            }
        }),
{
    let parser = Parser::new();
    parser.sanitize_in_place(input)
}

/// Sanitizes a copy of the text and yields it when anything changed, or
/// `None` when nothing was to sanitize.
pub fn clone_and_sanitize_text(input: &str) -> (r: Option<String>)
    ensures
        ({
            let c = cleaned_of_text(input@);
            match r {
                Some(v) => has_links(input@) && c.len() > 0 && v@ == spliced_text(input@),
                None => !has_links(input@) || c.len() == 0,
            }
        }),
{
    let mut cloned_input = input.to_owned();
    let parser = Parser::new();
    let changes = parser.sanitize_in_place(&mut cloned_input);
    match changes {
        Some(_) => Some(cloned_input),
        None => None,
    }
}

} // verus!
