use feedscan::feed::{normalize_rss_url, parse_feed_content};

#[test]
fn rsshub_route_goes_to_public_instance() {
    assert_eq!(
        normalize_rss_url("rsshub://bilibili/user/dynamic/2267573"),
        "https://rsshub.app/bilibili/user/dynamic/2267573"
    );
}

#[test]
fn rsshub_custom_host_is_kept() {
    assert_eq!(
        normalize_rss_url("rsshub://rsshub.example.com/github/issue/rust"),
        "https://rsshub.example.com/github/issue/rust"
    );
    assert_eq!(normalize_rss_url("rsshub://localhost:1200/abc"), "https://localhost:1200/abc");
}

#[test]
fn rsshub_colon_form_drops_leading_slashes() {
    assert_eq!(normalize_rss_url("rsshub:/twitter/user/x"), "https://rsshub.app/twitter/user/x");
    assert_eq!(normalize_rss_url("rsshub:example.org"), "https://example.org");
}

#[test]
fn rsshub_double_slash_form_keeps_extra_slash() {
    assert_eq!(normalize_rss_url("rsshub:///github/repos"), "https://rsshub.app//github/repos");
    assert_eq!(normalize_rss_url("rsshub://"), "https://rsshub.app/");
}

#[test]
fn plain_urls_are_unchanged() {
    assert_eq!(normalize_rss_url("https://example.com/feed.xml"), "https://example.com/feed.xml");
    assert_eq!(normalize_rss_url(""), "");
    assert_eq!(normalize_rss_url("rsshu"), "rsshu");
}

#[test]
fn normalizing_twice_changes_nothing() {
    for u in [
        "rsshub://bilibili/user/1",
        "rsshub:host.io/x",
        "rsshub://",
        "http://a.b/c",
        "rsshub:///x",
    ] {
        let once = normalize_rss_url(u);
        assert_eq!(normalize_rss_url(&once), once);
    }
}

#[test]
fn normalized_rsshub_urls_are_https() {
    for u in ["rsshub://a/b", "rsshub:a.b", "rsshub:", "rsshub://localhost"] {
        assert!(normalize_rss_url(u).starts_with("https://"));
    }
}

#[test]
fn rss_document_becomes_feed_data() {
    let doc = br#"<?xml version="1.0"?>
<rss version="2.0"><channel>
<title>Demo</title><link>https://example.com/</link><description>About</description>
<item><title>First</title><link>https://example.com/1</link><description>Summary one</description></item>
<item><link>https://example.com/2</link></item>
</channel></rss>"#;
    let data = parse_feed_content(doc).unwrap();
    assert_eq!(data.title, "Demo");
    assert_eq!(data.description.as_deref(), Some("About"));
    assert_eq!(data.link.as_deref(), Some("https://example.com/"));
    assert_eq!(data.items.len(), 2);
    assert_eq!(data.items[0].title, "First");
    assert_eq!(data.items[0].link.as_deref(), Some("https://example.com/1"));
    assert_eq!(data.items[0].description.as_deref(), Some("Summary one"));
    assert_eq!(data.items[0].author, None);
    assert_eq!(data.items[1].title, "");
    assert_eq!(data.items[1].link.as_deref(), Some("https://example.com/2"));
}

#[test]
fn garbage_is_not_a_feed() {
    assert!(parse_feed_content(b"this is not a feed").is_err());
}
