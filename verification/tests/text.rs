use untrack::replace_urls_in_place;

#[test]
fn test_no_urls() {
    let mut input = String::from("This is a text without any URLs.");
    let result = replace_urls_in_place(&mut input);
    assert_eq!(result, None);
    assert_eq!(input, "This is a text without any URLs.");
}

#[test]
fn test_twitter_url() {
    let mut input = String::from(
        "Check out this tweet: https://twitter.com/user/status/123456?utm_source=test&s=12345",
    );
    let result = replace_urls_in_place(&mut input);
    assert!(result.is_some());
    assert_eq!(
        input,
        "Check out this tweet: https://twitter.com/user/status/123456"
    );
}

#[test]
fn test_youtube_url() {
    let mut input = String::from("Watch this video: https://www.youtube.com/watch?v=dQw4w9WgXcQ&feature=youtu.be&utm_source=newsletter");
    let result = replace_urls_in_place(&mut input);
    assert!(result.is_some());
    assert_eq!(
        input,
        "Watch this video: https://www.youtube.com/watch?v=dQw4w9WgXcQ"
    );
}

#[test]
fn test_substack_url() {
    let mut input = String::from("Read this article: https://example.substack.com/p/article-title?utm_source=substack&utm_medium=email");
    let result = replace_urls_in_place(&mut input);
    assert!(result.is_some());
    assert_eq!(
        input,
        "Read this article: https://example.substack.com/p/article-title"
    );
}

#[test]
fn test_spotify_url() {
    let mut input = String::from("Listen to this song: https://open.spotify.com/track/1234567890?si=abcdefghijklmnop&utm_source=copy-link");
    let result = replace_urls_in_place(&mut input);
    assert!(result.is_some());
    assert_eq!(
        input,
        "Listen to this song: https://open.spotify.com/track/1234567890"
    );
}

#[test]
fn test_instagram_url() {
    let mut input = String::from("Check out this post: https://www.instagram.com/p/ABC123/?utm_source=ig_web_copy_link&igshid=1234567890");
    let result = replace_urls_in_place(&mut input);
    assert!(result.is_some());
    assert_eq!(
        input,
        "Check out this post: https://www.instagram.com/p/ABC123/"
    );
}

#[test]
fn test_multiple_urls() {
    let mut input = String::from("Multiple URLs: https://twitter.com/user/status/123?s=12 and https://www.youtube.com/watch?v=abc&feature=share");
    let result = replace_urls_in_place(&mut input);
    assert!(result.is_some());
    assert_eq!(input, "Multiple URLs: https://twitter.com/user/status/123 and https://www.youtube.com/watch?v=abc");
}

#[test]
fn test_url_with_no_tracking_params() {
    let mut input = String::from("Clean URL: https://example.com/page");
    let result = replace_urls_in_place(&mut input);
    assert_eq!(result, None);
    assert_eq!(input, "Clean URL: https://example.com/page");
}

#[test]
fn test_url_with_non_tracking_params() {
    let mut input = String::from("URL with params: https://example.com/search?q=test&page=2");
    let result = replace_urls_in_place(&mut input);
    assert_eq!(result, None);
    assert_eq!(
        input,
        "URL with params: https://example.com/search?q=test&page=2"
    );
}

#[test]
fn test_invalid_url() {
    let mut input = String::from("Invalid URL: https://not a valid url.com");
    let result = replace_urls_in_place(&mut input);
    assert_eq!(result, None);
    assert_eq!(input, "Invalid URL: https://not a valid url.com");
}

#[test]
fn test_url_with_fragment() {
    let mut input = String::from(
        "URL with fragment: https://twitter.com/user/status/123?utm_source=test#section1",
    );
    let result = replace_urls_in_place(&mut input);
    assert!(result.is_some());
    assert_eq!(
        input,
        "URL with fragment: https://twitter.com/user/status/123#section1"
    );
}

#[test]
fn test_url_encoding() {
    let mut input = String::from("Encoded URL: https://www.youtube.com/watch?v=abc&utm_source=newsletter&utm_campaign=summer%20sale");
    let result = replace_urls_in_place(&mut input);
    assert!(result.is_some());
    assert_eq!(input, "Encoded URL: https://www.youtube.com/watch?v=abc");
}
