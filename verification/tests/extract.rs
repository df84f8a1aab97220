use melops::urlword::url_in_word;
use melops::web::{
    append_new_urls, extract_youtube_urls, is_youtube_url, select_text_links, select_youtube_links,
    text_words,
};

#[test]
fn extracts_youtube_com_watch_url() {
    let html = r#"<a href="https://www.youtube.com/watch?v=dQw4w9WgXcQ">video</a>"#;
    let urls = extract_youtube_urls(html).unwrap();
    assert_eq!(urls.len(), 1);
    assert_eq!(urls[0], "https://www.youtube.com/watch?v=dQw4w9WgXcQ");
}

#[test]
fn extracts_youtu_be_short_url() {
    let html = r#"<a href="https://youtu.be/dQw4w9WgXcQ">video</a>"#;
    let urls = extract_youtube_urls(html).unwrap();
    assert_eq!(urls.len(), 1);
    assert_eq!(urls[0], "https://youtu.be/dQw4w9WgXcQ");
}

#[test]
fn extracts_embed_url() {
    let html = r#"<iframe src="https://www.youtube.com/embed/dQw4w9WgXcQ"></iframe>"#;
    let urls = extract_youtube_urls(html).unwrap();
    assert_eq!(urls.len(), 0); // iframe uses src, not href
}

#[test]
fn extracts_multiple_urls() {
    let html = r#"
        <a href="https://youtu.be/video1">first</a>
        <a href="https://www.youtube.com/watch?v=video2">second</a>
        <a href="https://example.com">not youtube</a>
        <a href="https://m.youtube.com/watch?v=video3">third</a>
    "#;
    let urls = extract_youtube_urls(html).unwrap();
    assert_eq!(urls.len(), 3);
}

#[test]
fn ignores_non_youtube_urls() {
    let html = r#"
        <a href="https://example.com">example</a>
        <a href="https://github.com">github</a>
    "#;
    let urls = extract_youtube_urls(html).unwrap();
    assert_eq!(urls.len(), 0);
}

#[test]
fn handles_empty_html() {
    let urls = extract_youtube_urls("").unwrap();
    assert_eq!(urls.len(), 0);
}

#[test]
fn handles_html_without_links() {
    let html = "<p>No links here</p>";
    let urls = extract_youtube_urls(html).unwrap();
    assert_eq!(urls.len(), 0);
}

#[test]
fn extracted_urls_keep_document_order() {
    let html = r#"
        <a href="https://youtu.be/b">b</a>
        <a>no href</a>
        <a href="https://youtube.com/watch?v=a">a</a>
    "#;
    let urls = extract_youtube_urls(html).unwrap();
    assert_eq!(urls, vec!["https://youtu.be/b".to_string(), "https://youtube.com/watch?v=a".to_string()]);
}

#[test]
fn youtube_url_recognition() {
    assert!(is_youtube_url("https://www.youtube.com/watch?v=x"));
    assert!(is_youtube_url("youtu.be"));
    assert!(is_youtube_url("xyoutu.bey"));
    assert!(!is_youtube_url("https://youtu.b/x"));
    assert!(!is_youtube_url("https://example.com/youtube"));
    assert!(!is_youtube_url(""));
}

#[test]
fn selects_youtube_hrefs_skipping_missing() {
    let hrefs = vec![
        None,
        Some("https://youtu.be/1".to_string()),
        Some("https://vimeo.com/2".to_string()),
        Some("https://m.youtube.com/3".to_string()),
    ];
    assert_eq!(
        select_youtube_links(&hrefs),
        vec!["https://youtu.be/1".to_string(), "https://m.youtube.com/3".to_string()]
    );
}

#[test]
fn extracts_url_from_text_content() {
    let urls = extract_youtube_urls("<p>Watch https://youtu.be/dQw4w9WgXcQ</p>").unwrap();
    assert!(urls.contains(&"https://youtu.be/dQw4w9WgXcQ".to_string()));
    assert_eq!(urls, vec!["https://youtu.be/dQw4w9WgXcQ".to_string()]);
}

#[test]
fn link_urls_come_before_text_urls() {
    let html = r#"<p>see www.youtube.com/watch?v=t.</p><a href="https://youtu.be/h">here</a>"#;
    let urls = extract_youtube_urls(html).unwrap();
    assert_eq!(urls, vec!["https://youtu.be/h".to_string(), "www.youtube.com/watch?v=t".to_string()]);
}

#[test]
fn text_words_split_on_ascii_whitespace() {
    assert_eq!(text_words("  a\tbc  d "), vec!["a".to_string(), "bc".to_string(), "d".to_string()]);
    assert_eq!(text_words(""), Vec::<String>::new());
    assert_eq!(text_words(" \n "), Vec::<String>::new());
    assert_eq!(text_words("x"), vec!["x".to_string()]);
}

#[test]
fn selects_youtube_words_of_text_nodes() {
    let texts = vec![
        "Watch https://youtu.be/1 now".to_string(),
        "nothing here".to_string(),
        "https://vimeo.com/2 and m.youtube.com/3".to_string(),
    ];
    assert_eq!(
        select_text_links(&texts),
        vec!["https://youtu.be/1".to_string(), "m.youtube.com/3".to_string()]
    );
}

#[test]
fn bare_mentions_in_text_are_not_urls() {
    assert_eq!(extract_youtube_urls("<p>see youtube.com</p>").unwrap(), Vec::<String>::new());
    assert_eq!(extract_youtube_urls("<p>I like youtu.be links</p>").unwrap(), Vec::<String>::new());
}

#[test]
fn link_text_equal_to_its_href_is_listed_once() {
    let html = r#"<a href="https://youtu.be/x">https://youtu.be/x</a> <p>(https://youtu.be/x)</p>"#;
    assert_eq!(extract_youtube_urls(html).unwrap(), vec!["https://youtu.be/x".to_string()]);
}

#[test]
fn url_words_are_trimmed_and_shaped() {
    assert_eq!(url_in_word("(https://youtu.be/x)."), Some("https://youtu.be/x".to_string()));
    assert_eq!(url_in_word("\"http://m.youtube.com/watch?v=1\","), Some("http://m.youtube.com/watch?v=1".to_string()));
    assert_eq!(url_in_word("www.youtube.com"), Some("www.youtube.com".to_string()));
    assert_eq!(url_in_word("https://www.youtube.com/embed/a"), Some("https://www.youtube.com/embed/a".to_string()));
    assert_eq!(url_in_word("youtube.com/watch?v=1"), None);
    assert_eq!(url_in_word("https://youtube.community/x"), None);
    assert_eq!(url_in_word("https://example.com/youtube.com"), None);
    assert_eq!(url_in_word("..."), None);
    assert_eq!(url_in_word(""), None);
}

#[test]
fn append_new_urls_skips_listed_ones() {
    let found = vec!["a".to_string(), "b".to_string()];
    let more = vec!["b".to_string(), "c".to_string(), "c".to_string(), "a".to_string(), "d".to_string()];
    assert_eq!(
        append_new_urls(found, &more),
        vec!["a".to_string(), "b".to_string(), "c".to_string(), "d".to_string()]
    );
}
