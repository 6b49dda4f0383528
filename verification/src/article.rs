//! Extracting the readable part of a web page, and the URL rules of the
//! fetch commands.

use vstd::prelude::*;
use crate::json::JsonValue;
use crate::patterns::{compile, first_capture, first_group, regex_accepts, remove_matches, without_matches};
use crate::text::{chars_of, has_prefix, split_char, split_chars, starts_with_chars, string_of, push_chars};

verus! {

// ---------------------------------------------------------------------------
// Article extraction
// ---------------------------------------------------------------------------

/// The containers that usually hold a page's article, tried in order; group
/// 1 is the container's inner HTML.
pub open spec fn container_patterns() -> Seq<Seq<char>> {
    seq![
        r#"(?i)<article[^>]*>([\s\S]*?)</article>"#@,
        r#"(?i)<main[^>]*>([\s\S]*?)</main>"#@,
        r#"(?i)<div[^>]*class="[^"]*content[^"]*"[^>]*>([\s\S]*?)</div>"#@,
        r#"(?i)<div[^>]*class="[^"]*post[^"]*"[^>]*>([\s\S]*?)</div>"#@,
        r#"(?i)<div[^>]*class="[^"]*article[^"]*"[^>]*>([\s\S]*?)</div>"#@,
        r#"(?i)<div[^>]*id="[^"]*content[^"]*"[^>]*>([\s\S]*?)</div>"#@,
    ]
}

/// The page body, the fall-back container.
pub open spec fn body_pattern() -> Seq<char> {
    r#"(?i)<body[^>]*>([\s\S]*?)</body>"#@
}

/// The elements removed from the extracted content, in order.
pub open spec fn cleanup_patterns() -> Seq<Seq<char>> {
    seq![
        r#"(?i)<script[^>]*>[\s\S]*?</script>"#@,
        r#"(?i)<style[^>]*>[\s\S]*?</style>"#@,
        r#"(?i)<nav[^>]*>[\s\S]*?</nav>"#@,
        r#"(?i)<header[^>]*>[\s\S]*?</header>"#@,
        r#"(?i)<footer[^>]*>[\s\S]*?</footer>"#@,
        r#"(?i)<aside[^>]*>[\s\S]*?</aside>"#@,
    ]
}

/// Group 1 of the first match of a pattern that compiles.
pub open spec fn matched_group(pattern: Seq<char>, text: Seq<char>) -> Option<Seq<char>> {
    if regex_accepts(pattern) {
        first_group(pattern, text)
    } else {
        None
    }
}

/// The inner HTML of the first container pattern that matches.
pub open spec fn first_container(ps: Seq<Seq<char>>, html: Seq<char>) -> Option<Seq<char>>
    decreases ps.len(),
{
    if ps.len() == 0 {
        None
    } else {
        match matched_group(ps[0], html) {
            Some(c) => Some(c),
            None => first_container(ps.drop_first(), html),
        }
    }
}

/// The text with the matches of each compiling pattern removed, in turn.
pub open spec fn strip_all(ps: Seq<Seq<char>>, text: Seq<char>) -> Seq<char>
    decreases ps.len(),
{
    if ps.len() == 0 {
        text
    } else {
        strip_all(
            ps.drop_first(),
            if regex_accepts(ps[0]) {
                without_matches(ps[0], text)
            } else {
                text
            },
        )
    }
}

/// The readable content of a page: the first article container found, or,
/// when what was found is the whole page (nothing was found, or a container
/// held the whole page), the page body, or else the page; then scripts,
/// styles, navigation, headers, footers and asides are removed.
pub open spec fn article_content(html: Seq<char>) -> Seq<char> {
    let found = match first_container(container_patterns(), html) {
        Some(c) => c,
        None => html,
    };
    let chosen = if found == html {
        match matched_group(body_pattern(), html) {
            Some(b) => b,
            None => found,
        }
    } else {
        found
    };
    strip_all(cleanup_patterns(), chosen)
}

/// The text with the matches of a pattern removed, when the pattern
/// compiles.
pub open spec fn removing(pattern: Seq<char>, text: Seq<char>) -> Seq<char> {
    if regex_accepts(pattern) {
        without_matches(pattern, text)
    } else {
        text
    }
}

/// The content of a page is a piece of it with, in this order, its
/// `<script>`, `<style>`, `<nav>`, `<header>`, `<footer>` and `<aside>`
/// elements (any letter case, any attributes, up to the nearest closing
/// tag) removed.
pub proof fn lemma_article_cleanup(html: Seq<char>)
    ensures
        exists|chosen: Seq<char>|
            article_content(html) == removing(
                r#"(?i)<aside[^>]*>[\s\S]*?</aside>"#@,
                removing(
                    r#"(?i)<footer[^>]*>[\s\S]*?</footer>"#@,
                    removing(
                        r#"(?i)<header[^>]*>[\s\S]*?</header>"#@,
                        removing(
                            r#"(?i)<nav[^>]*>[\s\S]*?</nav>"#@,
                            removing(
                                r#"(?i)<style[^>]*>[\s\S]*?</style>"#@,
                                removing(r#"(?i)<script[^>]*>[\s\S]*?</script>"#@, chosen),
                            ),
                        ),
                    ),
                ),
            ),
{
    let found = match first_container(container_patterns(), html) {
        Some(c) => c,
        None => html,
    };
    let chosen = if found == html {
        match matched_group(body_pattern(), html) {
            Some(b) => b,
            None => found,
        }
    } else {
        found
    };
    let p0 = cleanup_patterns();
    let p1 = p0.drop_first();
    let p2 = p1.drop_first();
    let p3 = p2.drop_first();
    let p4 = p3.drop_first();
    let p5 = p4.drop_first();
    let p6 = p5.drop_first();
    assert(p6 =~= Seq::<Seq<char>>::empty());
    let t1 = removing(p0[0], chosen);
    let t2 = removing(p1[0], t1);
    let t3 = removing(p2[0], t2);
    let t4 = removing(p3[0], t3);
    let t5 = removing(p4[0], t4);
    let t6 = removing(p5[0], t5);
    assert(strip_all(p6, t6) == t6);
    assert(strip_all(p5, t5) == strip_all(p6, t6));
    assert(strip_all(p4, t4) == strip_all(p5, t5));
    assert(strip_all(p3, t3) == strip_all(p4, t4));
    assert(strip_all(p2, t2) == strip_all(p3, t3));
    assert(strip_all(p1, t1) == strip_all(p2, t2));
    assert(strip_all(p0, chosen) == strip_all(p1, t1));
    assert(article_content(html) == t6);
}

fn container_pattern(i: usize) -> (res: &'static str)
    requires
        i < 6,
    ensures
        res@ == container_patterns()[i as int],
{
    if i == 0 {
        r#"(?i)<article[^>]*>([\s\S]*?)</article>"#
    } else if i == 1 {
        r#"(?i)<main[^>]*>([\s\S]*?)</main>"#
    } else if i == 2 {
        r#"(?i)<div[^>]*class="[^"]*content[^"]*"[^>]*>([\s\S]*?)</div>"#
    } else if i == 3 {
        r#"(?i)<div[^>]*class="[^"]*post[^"]*"[^>]*>([\s\S]*?)</div>"#
    } else if i == 4 {
        r#"(?i)<div[^>]*class="[^"]*article[^"]*"[^>]*>([\s\S]*?)</div>"#
    } else {
        r#"(?i)<div[^>]*id="[^"]*content[^"]*"[^>]*>([\s\S]*?)</div>"#
    }
}

fn cleanup_pattern(i: usize) -> (res: &'static str)
    requires
        i < 6,
    ensures
        res@ == cleanup_patterns()[i as int],
{
    if i == 0 {
        r#"(?i)<script[^>]*>[\s\S]*?</script>"#
    } else if i == 1 {
        r#"(?i)<style[^>]*>[\s\S]*?</style>"#
    } else if i == 2 {
        r#"(?i)<nav[^>]*>[\s\S]*?</nav>"#
    } else if i == 3 {
        r#"(?i)<header[^>]*>[\s\S]*?</header>"#
    } else if i == 4 {
        r#"(?i)<footer[^>]*>[\s\S]*?</footer>"#
    } else {
        r#"(?i)<aside[^>]*>[\s\S]*?</aside>"#
    }
}

fn group_of(source: &str, text: &str) -> (res: Option<String>)
    ensures
        match res {
            Some(g) => matched_group(source@, text@) == Some(g@),
            None => matched_group(source@, text@) is None,
        },
{
    match compile(source) {
        Some(p) => first_capture(&p, text),
        None => None,
    }
}

/// Extracts the readable content of a page.
pub fn extract_article_content(html: &str) -> (res: String)
    ensures
        res@ == article_content(html@),
{
    let mut found: Option<String> = None;
    let mut i: usize = 0;
    proof {
        assert(container_patterns().skip(0) == container_patterns());
    }
    while i < 6
        invariant_except_break
            i <= 6,
            found is None,
            first_container(container_patterns(), html@) == first_container(
                container_patterns().skip(i as int),
                html@,
            ),
        ensures
            match found {
                Some(c) => first_container(container_patterns(), html@) == Some(c@),
                None => first_container(container_patterns(), html@) is None,
            },
        decreases 6 - i,
    {
        proof {
            assert(container_patterns().skip(i as int)[0] == container_patterns()[i as int]);
            assert(container_patterns().skip(i as int).drop_first() == container_patterns().skip(
                i + 1,
            ));
        }
        match group_of(container_pattern(i), html) {
            Some(c) => {
                found = Some(c);
                break;
            },
            None => {},
        }
        i = i + 1;
        proof {
            if i == 6 {
                assert(container_patterns().skip(6) =~= Seq::<Seq<char>>::empty());
            }
        }
    }
    let html_owned = String::from_str(html);
    let found = match found {
        Some(c) => c,
        None => html_owned.clone(),
    };
    let mut content = if found == html_owned {
        match group_of(r#"(?i)<body[^>]*>([\s\S]*?)</body>"#, html) {
            Some(b) => b,
            None => found,
        }
    } else {
        found
    };
    let ghost chosen = content@;
    let mut j: usize = 0;
    proof {
        assert(cleanup_patterns().skip(0) == cleanup_patterns());
    }
    while j < 6
        invariant
            j <= 6,
            strip_all(cleanup_patterns(), chosen) == strip_all(
                cleanup_patterns().skip(j as int),
                content@,
            ),
        decreases 6 - j,
    {
        proof {
            assert(cleanup_patterns().skip(j as int)[0] == cleanup_patterns()[j as int]);
            assert(cleanup_patterns().skip(j as int).drop_first() == cleanup_patterns().skip(j + 1));
        }
        match compile(cleanup_pattern(j)) {
            Some(p) => {
                content = remove_matches(&p, content.as_str());
            },
            None => {},
        }
        j = j + 1;
    }
    proof {
        assert(cleanup_patterns().skip(6) =~= Seq::<Seq<char>>::empty());
    }
    content
}


// ---------------------------------------------------------------------------
// URL rules
// ---------------------------------------------------------------------------

/// Only HTTP and HTTPS addresses are fetched.
pub open spec fn is_http_url(url: Seq<char>) -> bool {
    has_prefix(url, "http://"@) || has_prefix(url, "https://"@)
}

/// The message for an address that may not be fetched.
pub open spec fn http_only_message() -> Seq<char> {
    "只支持 HTTP 和 HTTPS URL"@
}

/// Whether an address is an HTTP or HTTPS one.
pub fn is_http(url: &str) -> (res: bool)
    ensures
        res == is_http_url(url@),
{
    let cs = chars_of(url);
    let http = chars_of("http://");
    let https = chars_of("https://");
    starts_with_chars(cs.as_slice(), http.as_slice()) || starts_with_chars(
        cs.as_slice(),
        https.as_slice(),
    )
}

/// Refuses an address that is not HTTP or HTTPS, with the message shown to
/// the user.
pub fn check_fetch_url(url: &str) -> (res: Result<(), String>)
    ensures
        res is Ok <==> is_http_url(url@),
        res matches Err(m) ==> m@ == http_only_message(),
{
    if is_http(url) {
        Ok(())
    } else {
        Err(String::from_str("只支持 HTTP 和 HTTPS URL"))
    }
}

/// Where a site's icon is looked for: `/favicon.ico` at the root of the
/// page's host (the scheme and the text up to the first `/` after it). A
/// page address without a path gives the address followed by
/// `/favicon.ico`, which is the same.
pub open spec fn favicon_location(url: Seq<char>) -> Result<Seq<char>, Seq<char>> {
    if !is_http_url(url) {
        Err(http_only_message())
    } else {
        let k = if has_prefix(url, "http://"@) {
            "http://"@.len()
        } else {
            "https://"@.len()
        };
        Ok(url.take(k as int) + split_char(url.skip(k as int), '/')[0] + "/favicon.ico"@)
    }
}

/// An icon is always looked for as `/favicon.ico` on the page's own scheme
/// and host: the address starts with the page's scheme, ends with
/// `/favicon.ico`, and what lies between is the page's host part.
pub proof fn lemma_favicon_at_root(url: Seq<char>)
    ensures
        favicon_location(url) matches Ok(v) ==> {
            let k = if has_prefix(url, "http://"@) {
                7int
            } else {
                8int
            };
            &&& has_prefix(url, v.take(k))
            &&& v.skip(v.len() - 12) == "/favicon.ico"@
            &&& v.subrange(k, v.len() - 12) == split_char(url.skip(k), '/')[0]
        },
{
    reveal_strlit("http://");
    reveal_strlit("https://");
    reveal_strlit("/favicon.ico");
    if let Ok(v) = favicon_location(url) {
        let k = if has_prefix(url, "http://"@) {
            7int
        } else {
            8int
        };
        let host = split_char(url.skip(k), '/')[0];
        assert(v == url.take(k) + host + "/favicon.ico"@);
        assert(v.take(k) =~= url.take(k));
        assert(v.skip(v.len() - 12) =~= "/favicon.ico"@);
        assert(v.subrange(k, v.len() - 12) =~= host);
    }
}

/// The address of a site's icon, or the message for an address that may not
/// be fetched.
pub fn favicon_url(url: &str) -> (res: Result<String, String>)
    ensures
        match (res, favicon_location(url@)) {
            (Ok(u), Ok(v)) => u@ == v,
            (Err(e), Err(m)) => e@ == m,
            _ => false,
        },
{
    let cs = chars_of(url);
    let http = chars_of("http://");
    let https = chars_of("https://");
    let k = if starts_with_chars(cs.as_slice(), http.as_slice()) {
        http.len()
    } else if starts_with_chars(cs.as_slice(), https.as_slice()) {
        https.len()
    } else {
        return Err(String::from_str("只支持 HTTP 和 HTTPS URL"));
    };
    let mut scheme: Vec<char> = Vec::new();
    let mut i: usize = 0;
    while i < k
        invariant
            k <= cs@.len(),
            i <= k,
            scheme@ == cs@.take(i as int),
        decreases k - i,
    {
        scheme.push(cs[i]);
        proof {
            assert(cs@.take(i + 1) == cs@.take(i as int).push(cs@[i as int]));
        }
        i = i + 1;
    }
    let rest = crate::text::skip_chars(cs.as_slice(), k);
    let pieces = split_chars(rest.as_slice(), '/');
    let mut res = string_of(scheme.as_slice());
    push_chars(&mut res, pieces[0].as_slice());
    res.append("/favicon.ico");
    Ok(res)
}

/// Whether a fetched icon is used: the answer succeeded, and its content
/// type, when it has one that reads as text, is an image type.
pub open spec fn favicon_usable(status_success: bool, content_type: Option<Option<Seq<char>>>) -> bool {
    status_success && match content_type {
        Some(Some(ct)) => has_prefix(ct, "image/"@),
        _ => true,
    }
}

/// Whether a fetched icon is used (see [`favicon_usable`]).
pub fn favicon_accepted(status_success: bool, content_type: &Option<Option<String>>) -> (res: bool)
    ensures
        res == favicon_usable(
            status_success,
            match content_type {
                Some(Some(ct)) => Some(Some(ct@)),
                Some(None) => Some(None),
                None => None,
            },
        ),
{
    if !status_success {
        return false;
    }
    match content_type {
        Some(Some(ct)) => {
            let cs = chars_of(ct.as_str());
            let image = chars_of("image/");
            starts_with_chars(cs.as_slice(), image.as_slice())
        },
        _ => true,
    }
}

/// How long a feed fetch may take, in seconds: as asked, or 30.
pub fn feed_timeout_secs(timeout: Option<u64>) -> (res: u64)
    ensures
        res == match timeout {
            Some(t) => t,
            None => 30,
        },
{
    match timeout {
        Some(t) => t,
        None => 30,
    }
}

// ---------------------------------------------------------------------------
// The answers of the fetch commands
// ---------------------------------------------------------------------------

fn member(key: &str, value: JsonValue) -> (res: (String, JsonValue))
    ensures
        res.0@ == key@,
        res.1 == value,
{
    (String::from_str(key), value)
}

/// The answer to an article fetch: success, the extracted content and the
/// address it came from.
pub open spec fn article_answer_holds(content: Seq<char>, url: Seq<char>, j: JsonValue) -> bool {
    match j {
        JsonValue::Object(e) => {
            &&& e@.len() == 3
            &&& e@[0].0@ == "success"@ && e@[0].1 == JsonValue::Bool(true)
            &&& e@[1].0@ == "content"@ && (e@[1].1 matches JsonValue::Str(c) && c@ == content)
            &&& e@[2].0@ == "url"@ && (e@[2].1 matches JsonValue::Str(u) && u@ == url)
        },
        _ => false,
    }
}

/// The answer to an article fetch.
pub fn article_answer(content: String, url: String) -> (res: JsonValue)
    ensures
        article_answer_holds(content@, url@, res),
{
    let mut e: Vec<(String, JsonValue)> = Vec::new();
    e.push(member("success", JsonValue::Bool(true)));
    e.push(member("content", JsonValue::Str(content)));
    e.push(member("url", JsonValue::Str(url)));
    JsonValue::Object(e)
}

/// The answer to an icon lookup: whether an icon was found, and its address
/// or null.
pub open spec fn favicon_answer_holds(found: Option<Seq<char>>, j: JsonValue) -> bool {
    match j {
        JsonValue::Object(e) => {
            &&& e@.len() == 2
            &&& e@[0].0@ == "success"@ && e@[0].1 == JsonValue::Bool(found is Some)
            &&& e@[1].0@ == "favicon"@
            &&& match found {
                Some(u) => e@[1].1 matches JsonValue::Str(f) && f@ == u,
                None => e@[1].1 is Null,
            }
        },
        _ => false,
    }
}

/// The answer to an icon lookup, from the icon's address and what fetching
/// it gave: `None` when the request failed, else whether the status was a
/// success and the content type (`Some(None)` when it does not read as
/// text). The icon is reported when [`favicon_usable`] holds.
pub fn favicon_answer(icon: &str, fetched: &Option<(bool, Option<Option<String>>)>) -> (res:
    JsonValue)
    ensures
        favicon_answer_holds(
            match fetched {
                Some((ok, ct)) => if favicon_usable(
                    *ok,
                    match ct {
                        Some(Some(c)) => Some(Some(c@)),
                        Some(None) => Some(None),
                        None => None,
                    },
                ) {
                    Some(icon@)
                } else {
                    None
                },
                None => None,
            },
            res,
        ),
{
    let usable = match fetched {
        Some((ok, ct)) => favicon_accepted(*ok, ct),
        None => false,
    };
    let mut e: Vec<(String, JsonValue)> = Vec::new();
    e.push(member("success", JsonValue::Bool(usable)));
    if usable {
        e.push(member("favicon", JsonValue::Str(String::from_str(icon))));
    } else {
        e.push(member("favicon", JsonValue::Null));
    }
    JsonValue::Object(e)
}

} // verus!
