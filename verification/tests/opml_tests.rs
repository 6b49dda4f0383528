use feedscan::opml::{parse_opml, parse_opml_events, OpmlEvent, OpmlParser, XmlAttribute, XmlTag};

const DOC: &str = r#"<?xml version="1.0" encoding="UTF-8"?>
<opml version="2.0">
  <head><title> My Feeds </title></head>
  <body>
    <outline text="Tech" title="Tech">
      <outline type="rss" text="Rust Blog" xmlUrl="https://blog.rust-lang.org/feed.xml" htmlUrl="https://blog.rust-lang.org/"/>
      <outline text="Hacker News" xmlUrl="https://hnrss.org/frontpage" category="All, News ,Daily"/>
      <outline type="link" text="Not a feed" xmlUrl="https://example.com/page"/>
    </outline>
    <outline type="rss" xmlUrl="https://example.com/rss" description="desc"/>
  </body>
</opml>"#;

#[test]
fn opml_document_lists_its_feeds() {
    let d = parse_opml(DOC).unwrap();
    assert_eq!(d.title.as_deref(), Some("My Feeds"));
    assert_eq!(d.feeds.len(), 3);
    let rust = &d.feeds[0];
    assert_eq!(rust.title, "Rust Blog");
    assert_eq!(rust.url, "https://blog.rust-lang.org/feed.xml");
    assert_eq!(rust.category.as_deref(), Some("Tech"));
    assert_eq!(rust.html_url.as_deref(), Some("https://blog.rust-lang.org/"));
    assert_eq!(rust.description, None);
    let hn = &d.feeds[1];
    assert_eq!(hn.title, "Hacker News");
    assert_eq!(hn.category.as_deref(), Some("News"));
    let last = &d.feeds[2];
    assert_eq!(last.title, "未命名订阅");
    assert_eq!(last.url, "https://example.com/rss");
    assert_eq!(last.description.as_deref(), Some("desc"));
    // The folder Tech has closed before this outline.
    assert_eq!(last.category, None);
}

#[test]
fn nested_folders_join_their_names() {
    let doc = r#"<opml><body><outline text="A"><outline title="B"><outline xmlUrl="u1"></outline></outline></outline></body></opml>"#;
    let d = parse_opml(doc).unwrap();
    assert_eq!(d.title, None);
    assert_eq!(d.feeds.len(), 1);
    assert_eq!(d.feeds[0].url, "u1");
    assert_eq!(d.feeds[0].title, "未命名订阅");
    assert_eq!(d.feeds[0].category.as_deref(), Some("A / B"));
}

#[test]
fn feed_outside_folders_has_no_category() {
    let doc = r#"<opml><body><outline text="X" xmlUrl="u" category="all, ,"/></body></opml>"#;
    let d = parse_opml(doc).unwrap();
    assert_eq!(d.feeds.len(), 1);
    assert_eq!(d.feeds[0].category, None);
}

#[test]
fn empty_outlines_outside_body_are_ignored() {
    let doc = r#"<opml><head><outline text="h" xmlUrl="u"/></head><body></body></opml>"#;
    assert_eq!(parse_opml(doc).unwrap().feeds.len(), 0);
}

#[test]
fn broken_document_is_refused() {
    let e = parse_opml("<opml><body><!-- never closed").unwrap_err();
    assert!(e.starts_with("解析 OPML 失败: "), "{}", e);
    assert!(e.contains("(位置: "));
}

fn tag(name: &str, attrs: &[(&str, &str)]) -> XmlTag {
    XmlTag {
        name: name.as_bytes().to_vec(),
        attributes: attrs
            .iter()
            .map(|(k, v)| {
                Some(XmlAttribute {
                    key: k.as_bytes().to_vec(),
                    value: Some(v.to_string()),
                    raw: v.as_bytes().to_vec(),
                })
            })
            .collect(),
    }
}

#[test]
fn events_drive_the_reader() {
    let events = vec![
        OpmlEvent::Start(tag("head", &[])),
        OpmlEvent::Start(tag("title", &[])),
        OpmlEvent::Text(Some("T &amp; U".to_string()), b"raw".to_vec()),
        OpmlEvent::Text(None, b"!".to_vec()),
        OpmlEvent::End(b"title".to_vec()),
        OpmlEvent::Start(tag("body", &[])),
        OpmlEvent::Empty(tag("outline", &[("xmlUrl", "a"), ("text", "first"), ("text", "second")])),
        OpmlEvent::Eof,
        OpmlEvent::Empty(tag("outline", &[("xmlUrl", "after-eof")])),
    ];
    let d = parse_opml_events(&events).unwrap();
    assert_eq!(d.title.as_deref(), Some("T &amp; U!"));
    assert_eq!(d.feeds.len(), 1);
    assert_eq!(d.feeds[0].title, "second");
}

#[test]
fn reader_failure_is_reported_with_position() {
    let events = vec![OpmlEvent::Other, OpmlEvent::Failed("bad".to_string(), 12)];
    assert_eq!(parse_opml_events(&events).unwrap_err(), "解析 OPML 失败: bad (位置: 12)");
}

#[test]
fn parser_by_hand() {
    let mut p = OpmlParser::new();
    p.handle(&OpmlEvent::Start(tag("body", &[])));
    p.handle(&OpmlEvent::Empty(tag("outline", &[("xmlUrl", "z"), ("type", "atom")])));
    let d = p.into_data();
    assert_eq!(d.feeds.len(), 1);
    assert_eq!(d.feeds[0].url, "z");
}

#[test]
fn folder_category_ends_with_the_folder() {
    let doc = "<opml><body><outline text='Tech'><outline text='A' xmlUrl='u1'/></outline><outline text='B' xmlUrl='u2'/></body></opml>";
    let d = parse_opml(doc).unwrap();
    assert_eq!(d.feeds.len(), 2);
    assert_eq!(d.feeds[0].category.as_deref(), Some("Tech"));
    assert_eq!(d.feeds[1].category, None);
}

#[test]
fn attribute_values_are_unescaped() {
    let doc = "<opml><body><outline text='A &amp; B' xmlUrl='http://a.com/?x=1&amp;y=2'/></body></opml>";
    let d = parse_opml(doc).unwrap();
    assert_eq!(d.feeds.len(), 1);
    assert_eq!(d.feeds[0].url, "http://a.com/?x=1&y=2");
    assert_eq!(d.feeds[0].title, "A & B");
}

#[test]
fn feed_outline_with_end_tag_keeps_its_own_attributes() {
    let doc = r#"<opml><body><outline text="Outer" xmlUrl="o"><outline text="Inner" xmlUrl="i"/></outline></body></opml>"#;
    let d = parse_opml(doc).unwrap();
    let urls: Vec<&str> = d.feeds.iter().map(|f| f.url.as_str()).collect();
    assert_eq!(urls, vec!["i", "o"]);
    assert_eq!(d.feeds[1].title, "Outer");
}

#[test]
fn unresolvable_entity_keeps_raw_value() {
    let events = vec![
        OpmlEvent::Start(tag("body", &[])),
        OpmlEvent::Empty(XmlTag {
            name: b"outline".to_vec(),
            attributes: vec![
                Some(XmlAttribute { key: b"xmlUrl".to_vec(), value: None, raw: b"a&bogus;".to_vec() }),
                None,
            ],
        }),
    ];
    let d = parse_opml_events(&events).unwrap();
    assert_eq!(d.feeds[0].url, "a&bogus;");
}

#[test]
fn each_feed_outline_in_the_body_gives_one_feed() {
    let doc = r#"<opml><head><outline text="h" xmlUrl="head-url"/></head><body>
<outline text="" title="T" xmlUrl="a"/>
<outline title="Only title" xmlUrl="b" type="RSS"/>
<outline title="Titled" xmlUrl="c" type="atom"/>
<outline text="Folder"><outline xmlUrl="d" type=""/></outline>
<outline text="Page" xmlUrl="e" type="link"/>
</body></opml>"#;
    let d = parse_opml(doc).unwrap();
    let keys: Vec<(&str, &str)> = d.feeds.iter().map(|f| (f.url.as_str(), f.title.as_str())).collect();
    assert_eq!(keys, vec![("a", "未命名订阅"), ("c", "Titled"), ("d", "未命名订阅")]);
}
