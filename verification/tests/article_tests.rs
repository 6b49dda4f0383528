use feedscan::article::{
    article_answer, check_fetch_url, extract_article_content, favicon_accepted, favicon_answer,
    favicon_url, feed_timeout_secs, is_http,
};
use feedscan::json::JsonValue;

#[test]
fn article_tag_wins() {
    let html = "<html><body><nav>menu</nav><article class=\"x\">Hello <b>world</b></article></body></html>";
    assert_eq!(extract_article_content(html), "Hello <b>world</b>");
}

#[test]
fn main_tag_when_no_article() {
    let html = "<body><MAIN id=m>Main text<script>evil()</script></MAIN></body>";
    assert_eq!(extract_article_content(html), "Main text");
}

#[test]
fn content_div_is_found() {
    let html = "<div class=\"post-content big\">Body here</div>";
    assert_eq!(extract_article_content(html), "Body here");
}

#[test]
fn body_is_the_fallback() {
    let html = "<html><body><header>h</header>Just text<footer>f</footer></body></html>";
    assert_eq!(extract_article_content(html), "Just text");
}

#[test]
fn page_without_containers_is_cleaned_whole() {
    let html = "plain <style>p{}</style>words<aside>side</aside>";
    assert_eq!(extract_article_content(html), "plain words");
}

#[test]
fn only_http_urls_are_fetched() {
    assert!(is_http("http://a"));
    assert!(is_http("https://a"));
    assert!(!is_http("ftp://a"));
    assert_eq!(check_fetch_url("https://x.org"), Ok(()));
    assert_eq!(check_fetch_url("file:///etc"), Err("只支持 HTTP 和 HTTPS URL".to_string()));
}

#[test]
fn favicon_at_host_root() {
    assert_eq!(favicon_url("https://example.com/a/b?c"), Ok("https://example.com/favicon.ico".to_string()));
    assert_eq!(favicon_url("http://example.com"), Ok("http://example.com/favicon.ico".to_string()));
    assert_eq!(favicon_url("gopher://x"), Err("只支持 HTTP 和 HTTPS URL".to_string()));
}

#[test]
fn favicon_needs_success_and_image_type() {
    assert!(favicon_accepted(true, &Some(Some("image/x-icon".to_string()))));
    assert!(!favicon_accepted(true, &Some(Some("text/html".to_string()))));
    assert!(favicon_accepted(true, &Some(None)));
    assert!(favicon_accepted(true, &None));
    assert!(!favicon_accepted(false, &None));
}

#[test]
fn feed_timeout_defaults_to_thirty() {
    assert_eq!(feed_timeout_secs(None), 30);
    assert_eq!(feed_timeout_secs(Some(7)), 7);
}

fn member<'a>(v: &'a JsonValue, key: &str) -> &'a JsonValue {
    match v {
        JsonValue::Object(entries) => &entries.iter().find(|(k, _)| k == key).unwrap().1,
        _ => panic!("not an object"),
    }
}

#[test]
fn article_answer_has_content_and_url() {
    let a = article_answer("text".to_string(), "https://u".to_string());
    assert_eq!(member(&a, "success"), &JsonValue::Bool(true));
    assert_eq!(member(&a, "content"), &JsonValue::Str("text".to_string()));
    assert_eq!(member(&a, "url"), &JsonValue::Str("https://u".to_string()));
}

#[test]
fn favicon_answer_reports_found_icon() {
    let found = favicon_answer("https://h/favicon.ico", &Some((true, Some(Some("image/png".to_string())))));
    assert_eq!(member(&found, "success"), &JsonValue::Bool(true));
    assert_eq!(member(&found, "favicon"), &JsonValue::Str("https://h/favicon.ico".to_string()));
    let refused = favicon_answer("https://h/favicon.ico", &Some((false, None)));
    assert_eq!(member(&refused, "success"), &JsonValue::Bool(false));
    assert_eq!(member(&refused, "favicon"), &JsonValue::Null);
    let failed = favicon_answer("https://h/favicon.ico", &None);
    assert_eq!(member(&failed, "favicon"), &JsonValue::Null);
}
