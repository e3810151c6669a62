use untrack::{
    clean_urls_from_any_text, clone_and_sanitize_text, parse_spotify_url, parse_twitter_url,
    replace_urls_in_place, ParsedUrl,
};
use untrack::parsing_core::Parser;

#[test]
fn clean_list_collects_in_span_order() {
    let input = "See https://twitter.com/user/status/9?s=4 then https://www.youtube.com/watch?v=zz&feature=x";
    let result = clean_urls_from_any_text(input);
    assert_eq!(
        result,
        Some(vec![
            "https://twitter.com/user/status/9".to_string(),
            "https://www.youtube.com/watch?v=zz".to_string(),
        ])
    );
}

#[test]
fn clean_list_none_without_tracking() {
    assert_eq!(
        clean_urls_from_any_text("nothing here, not even https://example.com/a?b=c"),
        None
    );
    assert_eq!(clean_urls_from_any_text(""), None);
}

#[test]
fn copy_keeps_surrounding_text() {
    let input = "before https://t.co/abc?utm_campaign=x after";
    let result = clone_and_sanitize_text(input);
    assert_eq!(result, Some("before https://t.co/abc after".to_string()));
    assert_eq!(clone_and_sanitize_text("plain text"), None);
}

#[test]
fn second_pass_finds_nothing() {
    let mut input =
        String::from("Watch https://www.youtube.com/watch?v=dQw4w9WgXcQ&si=ABC&utm_source=mail");
    assert!(replace_urls_in_place(&mut input).is_some());
    let once = input.clone();
    assert_eq!(replace_urls_in_place(&mut input), None);
    assert_eq!(input, once);
}

#[test]
fn kept_pairs_keep_value_and_order() {
    let parser = Parser::new();
    let url = ParsedUrl::parse("https://twitter.com/u/status/5?a=1&utm_source=x&b=2&s=3&c=")
        .unwrap();
    assert_eq!(
        parse_twitter_url(&parser, &url),
        Some("https://twitter.com/u/status/5?a=1&b=2&c=".to_string())
    );
}

#[test]
fn duplicate_tracking_keys_each_removed() {
    let parser = Parser::new();
    let url = ParsedUrl::parse("https://twitter.com/u/status/5?s=1&q=keep&s=2").unwrap();
    assert_eq!(
        parse_twitter_url(&parser, &url),
        Some("https://twitter.com/u/status/5?q=keep".to_string())
    );
}

#[test]
fn all_empty_values_left_alone_even_with_tracking_keys() {
    let parser = Parser::new();
    let url = ParsedUrl::parse("https://twitter.com/u/status/5?utm_source=&s=").unwrap();
    assert_eq!(parse_twitter_url(&parser, &url), None);
}

#[test]
fn fragment_survives_query_rewrite() {
    let parser = Parser::new();
    let url = ParsedUrl::parse("https://twitter.com/user/status/123?utm_source=test#section1")
        .unwrap();
    assert_eq!(
        parse_twitter_url(&parser, &url),
        Some("https://twitter.com/user/status/123#section1".to_string())
    );
}

#[test]
fn spotify_rule_applies_directly() {
    let parser = Parser::new();
    let url = ParsedUrl::parse("https://open.spotify.com/track/42?si=abc&go=1&keep=yes").unwrap();
    assert_eq!(
        parse_spotify_url(&parser, &url),
        Some("https://open.spotify.com/track/42?keep=yes".to_string())
    );
    let other = ParsedUrl::parse("https://example.org/track/42?si=abc").unwrap();
    assert_eq!(parse_spotify_url(&parser, &other), None);
}

#[test]
fn unparsable_strings_are_rejected() {
    assert!(ParsedUrl::parse("not a url at all").is_none());
    assert!(ParsedUrl::parse("https://www.youtube.com/watch?v=ok").is_some());
}
