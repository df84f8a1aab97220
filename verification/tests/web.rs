use melops::web::{processing_count, require_youtube_urls, resolved_or_original, WebConfig};

#[test]
fn creates_web_config() {
    let config = WebConfig {
        page_url: "https://example.com/course".to_string(),
        output_dir: Some("/output".to_string()),
    };

    assert_eq!(config.page_url, "https://example.com/course");
    assert_eq!(config.output_dir, Some("/output".to_string()));
}

#[test]
fn processing_count_applies_limit() {
    assert_eq!(processing_count(None, 7), 7);
    assert_eq!(processing_count(Some(3), 7), 3);
    assert_eq!(processing_count(Some(10), 7), 7);
    assert_eq!(processing_count(Some(0), 7), 0);
}

#[test]
fn page_without_youtube_urls_is_an_error() {
    let err = require_youtube_urls("https://example.com/course", vec![]).unwrap_err();
    assert_eq!(err.page_url, "https://example.com/course");
    let ok = require_youtube_urls("p", vec!["https://youtu.be/x".to_string()]).unwrap();
    assert_eq!(ok, vec!["https://youtu.be/x".to_string()]);
}

#[test]
fn resolution_falls_back_to_original() {
    let url = "https://invalid.example.com/nonexistent";
    assert_eq!(resolved_or_original(url, None), url);
    assert_eq!(
        resolved_or_original("https://youtu.be/dQw4w9WgXcQ", Some("https://www.youtube.com/watch?v=dQw4w9WgXcQ".to_string())),
        "https://www.youtube.com/watch?v=dQw4w9WgXcQ"
    );
}
