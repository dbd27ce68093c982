use urlvibe_rs::errors::AppError;
use urlvibe_rs::youtube::{extract_video_id, last_query_value, video_id_from_url, ParsedUrl};

fn bad_request(r: Result<String, AppError>) -> String {
    match r {
        Err(AppError::BadRequest(m)) => m,
        other => panic!("unexpected {:?}", other),
    }
}

#[test]
fn parses_watch_urls() {
    assert_eq!(
        extract_video_id("https://www.youtube.com/watch?v=dQw4w9WgXcQ").unwrap(),
        "dQw4w9WgXcQ"
    );
}

#[test]
fn parses_short_urls() {
    assert_eq!(
        extract_video_id("https://youtu.be/dQw4w9WgXcQ").unwrap(),
        "dQw4w9WgXcQ"
    );
}

#[test]
fn parses_shorts_urls() {
    assert_eq!(
        extract_video_id("https://www.youtube.com/shorts/dQw4w9WgXcQ").unwrap(),
        "dQw4w9WgXcQ"
    );
}

#[test]
fn rejects_non_youtube_urls() {
    assert!(extract_video_id("https://example.com/video").is_err());
}

#[test]
fn parses_embed_and_mobile_urls() {
    assert_eq!(
        extract_video_id("https://m.youtube.com/embed/abc_DEF-123").unwrap(),
        "abc_DEF-123"
    );
    assert_eq!(
        extract_video_id("  https://YOUTUBE.com/watch?list=x&v=first&v=last  ").unwrap(),
        "last"
    );
    assert_eq!(extract_video_id("https://www.youtu.be//xyz//").unwrap(), "xyz");
}

#[test]
fn query_value_is_percent_decoded_and_trimmed() {
    assert_eq!(
        extract_video_id("https://youtube.com/watch?v=%20abc%20").unwrap(),
        "abc"
    );
}

#[test]
fn invalid_inputs_have_their_messages() {
    assert_eq!(bad_request(extract_video_id("not a url")), "Please provide a valid YouTube URL");
    assert_eq!(
        bad_request(extract_video_id("https://youtube.com/watch")),
        "Please provide a valid YouTube URL"
    );
    assert_eq!(
        bad_request(extract_video_id("https://youtube.com/playlist?v=abc")),
        "Please provide a valid YouTube URL"
    );
    assert_eq!(
        bad_request(extract_video_id("https://youtu.be/")),
        "Please provide a valid YouTube URL"
    );
    assert_eq!(
        bad_request(extract_video_id("https://youtu.be/abc.def")),
        "Unable to extract a valid YouTube video id"
    );
    assert_eq!(
        bad_request(extract_video_id("mailto:someone@youtube.com")),
        "Please provide a valid YouTube URL"
    );
}

#[test]
fn reads_parts_of_a_parsed_url() {
    let url = ParsedUrl {
        host: Some("WWW.YouTube.com".to_owned()),
        path: "/shorts/ id1 ".to_owned(),
        query: vec![],
    };
    assert_eq!(video_id_from_url(&url).unwrap(), "id1");
    let no_host = ParsedUrl { host: None, path: "/x".to_owned(), query: vec![] };
    assert_eq!(bad_request(video_id_from_url(&no_host)), "Please provide a valid YouTube URL");
}

#[test]
fn last_query_value_wins() {
    let q = vec![
        ("v".to_owned(), "a".to_owned()),
        ("w".to_owned(), "b".to_owned()),
        ("v".to_owned(), "c".to_owned()),
    ];
    assert_eq!(last_query_value(&q, "v"), Some("c".to_owned()));
    assert_eq!(last_query_value(&q, "w"), Some("b".to_owned()));
    assert_eq!(last_query_value(&q, "x"), None);
}
