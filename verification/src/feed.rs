//! The feed reader's own rules: how a subscription URL is normalised, and
//! how a fetched feed document becomes the data shown to the user.

use vstd::prelude::*;
use crate::scan::opt_view;
use crate::text::{
    string_views,
    chars_of, contains_chars, has_infix, has_prefix, push_chars, skip_chars, split_char, split_chars,
    starts_with_chars, trim_start_char, trim_start_char_chars,
};

verus! {

/// Where an `rsshub` route goes: a first path segment that looks like a host
/// (it holds a dot or starts with `localhost`) is the host itself; any other
/// route is served by the public instance `rsshub.app`. Splitting the path at
/// its first `/` into host and rest and joining them again gives the path
/// back, so a custom host is reached as `https://` followed by the path.
pub open spec fn rsshub_target(path: Seq<char>) -> Seq<char> {
    let domain = split_char(path, '/')[0];
    if has_infix(domain, "."@) || has_prefix(domain, "localhost"@) {
        "https://"@ + path
    } else {
        "https://rsshub.app/"@ + path
    }
}

/// The URL that a subscription address is fetched from: `rsshub://route`
/// and `rsshub:route` (with any slashes after the colon) name an RSSHub
/// route; every other address is kept as it is.
pub open spec fn normalized_rss_url(url: Seq<char>) -> Seq<char> {
    if has_prefix(url, "rsshub://"@) {
        rsshub_target(url.skip("rsshub://"@.len() as int))
    } else if has_prefix(url, "rsshub:"@) {
        rsshub_target(trim_start_char(url.skip("rsshub:"@.len() as int), '/'))
    } else {
        url
    }
}

fn rsshub_target_of(path: &Vec<char>) -> (res: String)
    ensures
        res@ == rsshub_target(path@),
{
    let parts = split_chars(path.as_slice(), '/');
    let domain = &parts[0];
    let dot = chars_of(".");
    let localhost = chars_of("localhost");
    let custom = contains_chars(domain.as_slice(), dot.as_slice()) || starts_with_chars(
        domain.as_slice(),
        localhost.as_slice(),
    );
    let mut res = if custom {
        String::from_str("https://")
    } else {
        String::from_str("https://rsshub.app/")
    };
    push_chars(&mut res, path.as_slice());
    res
}

/// Normalises a subscription URL (the `rsshub` scheme is resolved to an
/// HTTPS address).
pub fn normalize_rss_url(url: &str) -> (res: String)
    ensures
        res@ == normalized_rss_url(url@),
{
    let cs = chars_of(url);
    let long_scheme = chars_of("rsshub://");
    let short_scheme = chars_of("rsshub:");
    if starts_with_chars(cs.as_slice(), long_scheme.as_slice()) {
        let path = skip_chars(cs.as_slice(), long_scheme.len());
        rsshub_target_of(&path)
    } else if starts_with_chars(cs.as_slice(), short_scheme.as_slice()) {
        let rest = skip_chars(cs.as_slice(), short_scheme.len());
        let path = trim_start_char_chars(rest.as_slice(), '/');
        rsshub_target_of(&path)
    } else {
        String::from_str(url)
    }
}


/// Normalising a subscription URL twice gives what normalising it once
/// gives: a resolved `rsshub` route is an `https://` address, which is kept.
pub proof fn lemma_normalize_idempotent(url: Seq<char>)
    ensures
        normalized_rss_url(normalized_rss_url(url)) == normalized_rss_url(url),
{
    reveal_strlit("rsshub://");
    reveal_strlit("rsshub:");
    reveal_strlit("https://");
    reveal_strlit("https://rsshub.app/");
    let r = normalized_rss_url(url);
    if has_prefix(url, "rsshub://"@) || has_prefix(url, "rsshub:"@) {
        assert(r[0] == 'h');
        if has_prefix(r, "rsshub://"@) {
            assert(r.take(9)[0] == 'r');
        }
        if has_prefix(r, "rsshub:"@) {
            assert(r.take(7)[0] == 'r');
        }
    }
}

/// A resolved `rsshub` route is always an `https://` address, and an address
/// in any other scheme is left unchanged.
pub proof fn lemma_normalize_shape(url: Seq<char>)
    ensures
        has_prefix(url, "rsshub:"@) ==> has_prefix(normalized_rss_url(url), "https://"@),
        !has_prefix(url, "rsshub:"@) ==> normalized_rss_url(url) == url,
{
    reveal_strlit("rsshub://");
    reveal_strlit("rsshub:");
    reveal_strlit("https://");
    reveal_strlit("https://rsshub.app/");
    let r = normalized_rss_url(url);
    if has_prefix(url, "rsshub://"@) {
        assert(url.take(9) == "rsshub://"@);
        assert(url.take(7) =~= url.take(9).take(7));
        assert(url.take(9).take(7) =~= "rsshub:"@);
        assert(has_prefix(url, "rsshub:"@));
    }
    if has_prefix(url, "rsshub:"@) {
        assert(r.take(8) =~= "https://"@);
    }
}


// ---------------------------------------------------------------------------
// Feed documents
// ---------------------------------------------------------------------------

/// What the feed parser reads out of a document: the feed's title,
/// description, link targets and entries.
#[derive(Debug, Clone, PartialEq)]
pub struct FeedDoc {
    pub title: Option<String>,
    pub description: Option<String>,
    pub links: Vec<String>,
    pub entries: Vec<EntryDoc>,
}

/// What the feed parser reads out of one entry. Dates are RFC 3339 text.
#[derive(Debug, Clone, PartialEq)]
pub struct EntryDoc {
    pub title: Option<String>,
    pub links: Vec<String>,
    pub summary: Option<String>,
    pub content: Option<String>,
    pub authors: Vec<String>,
    pub published: Option<String>,
    pub updated: Option<String>,
}

/// The mathematical value of an [`EntryDoc`].
pub struct EntryDocView {
    pub title: Option<Seq<char>>,
    pub links: Seq<Seq<char>>,
    pub summary: Option<Seq<char>>,
    pub content: Option<Seq<char>>,
    pub authors: Seq<Seq<char>>,
    pub published: Option<Seq<char>>,
    pub updated: Option<Seq<char>>,
}

impl View for EntryDoc {
    type V = EntryDocView;

    open spec fn view(&self) -> EntryDocView {
        EntryDocView {
            title: opt_view(self.title),
            links: string_views(self.links@),
            summary: opt_view(self.summary),
            content: opt_view(self.content),
            authors: string_views(self.authors@),
            published: opt_view(self.published),
            updated: opt_view(self.updated),
        }
    }
}

/// The mathematical value of a [`FeedDoc`].
pub struct FeedDocView {
    pub title: Option<Seq<char>>,
    pub description: Option<Seq<char>>,
    pub links: Seq<Seq<char>>,
    pub entries: Seq<EntryDocView>,
}

impl View for FeedDoc {
    type V = FeedDocView;

    open spec fn view(&self) -> FeedDocView {
        FeedDocView {
            title: opt_view(self.title),
            description: opt_view(self.description),
            links: string_views(self.links@),
            entries: self.entries@.map_values(|e: EntryDoc| e@),
        }
    }
}

/// An item of a feed as it is shown.
#[derive(Debug, Clone, PartialEq)]
pub struct FeedItem {
    pub title: String,
    pub link: Option<String>,
    pub description: Option<String>,
    pub content: Option<String>,
    pub author: Option<String>,
    pub published: Option<String>,
    pub updated: Option<String>,
}

/// The mathematical value of a [`FeedItem`].
pub struct FeedItemView {
    pub title: Seq<char>,
    pub link: Option<Seq<char>>,
    pub description: Option<Seq<char>>,
    pub content: Option<Seq<char>>,
    pub author: Option<Seq<char>>,
    pub published: Option<Seq<char>>,
    pub updated: Option<Seq<char>>,
}

impl View for FeedItem {
    type V = FeedItemView;

    open spec fn view(&self) -> FeedItemView {
        FeedItemView {
            title: self.title@,
            link: opt_view(self.link),
            description: opt_view(self.description),
            content: opt_view(self.content),
            author: opt_view(self.author),
            published: opt_view(self.published),
            updated: opt_view(self.updated),
        }
    }
}

/// A feed as it is shown.
#[derive(Debug, Clone, PartialEq)]
pub struct FeedData {
    pub title: String,
    pub description: Option<String>,
    pub link: Option<String>,
    pub items: Vec<FeedItem>,
}

/// The mathematical value of a [`FeedData`].
pub struct FeedDataView {
    pub title: Seq<char>,
    pub description: Option<Seq<char>>,
    pub link: Option<Seq<char>>,
    pub items: Seq<FeedItemView>,
}

impl View for FeedData {
    type V = FeedDataView;

    open spec fn view(&self) -> FeedDataView {
        FeedDataView {
            title: self.title@,
            description: opt_view(self.description),
            link: opt_view(self.link),
            items: self.items@.map_values(|i: FeedItem| i@),
        }
    }
}

/// The first element, if there is one.
pub open spec fn first_of(s: Seq<Seq<char>>) -> Option<Seq<char>> {
    if s.len() > 0 {
        Some(s[0])
    } else {
        None
    }
}

/// How an entry is shown: an untitled entry has an empty title, and its link
/// and author are the first ones it lists.
pub open spec fn item_of(e: EntryDocView) -> FeedItemView {
    FeedItemView {
        title: match e.title {
            Some(t) => t,
            None => Seq::empty(),
        },
        link: first_of(e.links),
        description: e.summary,
        content: e.content,
        author: first_of(e.authors),
        published: e.published,
        updated: e.updated,
    }
}

/// How a feed is shown.
pub open spec fn feed_data_of(d: FeedDocView) -> FeedDataView {
    FeedDataView {
        title: match d.title {
            Some(t) => t,
            None => Seq::empty(),
        },
        description: d.description,
        link: first_of(d.links),
        items: d.entries.map_values(|e: EntryDocView| item_of(e)),
    }
}

/// Every entry of a feed is shown, in order, carrying what it says of
/// itself: its publication and update dates unchanged, its summary as the
/// description, its content, its title (empty when it has none), and its
/// first link and first author when it has any. The feed's own title
/// (empty when it has none), description and first link are shown too.
pub proof fn lemma_feed_items_carry_entries(d: FeedDocView)
    ensures
        feed_data_of(d).items.len() == d.entries.len(),
        forall|k: int|
            0 <= k < d.entries.len() ==> {
                let item = #[trigger] feed_data_of(d).items[k];
                let e = d.entries[k];
                &&& item.published == e.published
                &&& item.updated == e.updated
                &&& item.description == e.summary
                &&& item.content == e.content
                &&& (e.title matches Some(t) ==> item.title == t)
                &&& (e.title is None ==> item.title.len() == 0)
                &&& (e.links.len() > 0 ==> item.link == Some(e.links[0]))
                &&& (e.links.len() == 0 ==> item.link is None)
                &&& (e.authors.len() > 0 ==> item.author == Some(e.authors[0]))
                &&& (e.authors.len() == 0 ==> item.author is None)
            },
        d.title matches Some(t) ==> feed_data_of(d).title == t,
        d.title is None ==> feed_data_of(d).title.len() == 0,
        feed_data_of(d).description == d.description,
        d.links.len() > 0 ==> feed_data_of(d).link == Some(d.links[0]),
        d.links.len() == 0 ==> feed_data_of(d).link is None,
{
}

/// What `feed_rs::parser::parse` reads out of a document's bytes, or the
/// text of its error.
pub uninterp spec fn parsed_feed(bytes: Seq<u8>) -> Result<FeedDocView, Seq<char>>;

/// The entry type of `feed_rs`, carried from the parser to its copy.
#[verifier::external_type_specification]
#[verifier::external_body]
pub struct ExFeedEntry(feed_rs::model::Entry);

/// Copies an entry of `feed_rs` into plain values: texts by their content,
/// links by their target, people by their name, dates as RFC 3339 text
/// (`chrono::DateTime::to_rfc3339`). Part of [`parse_feed_document`]'s
/// conversion; nothing is stated of it on its own.
#[verifier::external_body]
fn entry_doc(e: feed_rs::model::Entry) -> EntryDoc {
    EntryDoc {
        title: e.title.map(|t| t.content),
        links: e.links.into_iter().map(|l| l.href).collect(),
        summary: e.summary.map(|t| t.content),
        content: e.content.and_then(|c| c.body),
        authors: e.authors.into_iter().map(|a| a.name).collect(),
        published: e.published.map(|d| d.to_rfc3339()),
        updated: e.updated.map(|d| d.to_rfc3339()),
    }
}

/// `feed_rs::parser::parse` (RSS, Atom or JSON Feed), its result copied into
/// plain values (entries by [`entry_doc`]), and an error by its message. The
/// result is named, not described: the formats take pages.
#[verifier::external_body]
fn parse_feed_document(bytes: &[u8]) -> (res: Result<FeedDoc, String>)
    ensures
        match (res, parsed_feed(bytes@)) {
            (Ok(d), Ok(v)) => d@ == v,
            (Err(e), Err(m)) => e@ == m,
            _ => false,
        },
{
    feed_rs::parser::parse(bytes).map_err(|e| e.to_string()).map(|f| FeedDoc {
        title: f.title.map(|t| t.content),
        description: f.description.map(|t| t.content),
        links: f.links.into_iter().map(|l| l.href).collect(),
        entries: f.entries.into_iter().map(entry_doc).collect(),
    })
}

fn first_string(v: &Vec<String>) -> (res: Option<String>)
    ensures
        opt_view(res) == first_of(string_views(v@)),
{
    if v.len() > 0 {
        Some(v[0].clone())
    } else {
        None
    }
}

fn item_from(e: &EntryDoc) -> (res: FeedItem)
    ensures
        res@ == item_of(e@),
{
    FeedItem {
        title: match &e.title {
            Some(t) => t.clone(),
            None => String::new(),
        },
        link: first_string(&e.links),
        description: e.summary.clone(),
        content: e.content.clone(),
        author: first_string(&e.authors),
        published: e.published.clone(),
        updated: e.updated.clone(),
    }
}

/// Turns a parsed feed into what is shown of it.
pub fn feed_data_from(doc: &FeedDoc) -> (res: FeedData)
    ensures
        res@ == feed_data_of(doc@),
{
    let mut items: Vec<FeedItem> = Vec::new();
    let mut i: usize = 0;
    while i < doc.entries.len()
        invariant
            i <= doc.entries@.len(),
            items@.map_values(|x: FeedItem| x@) == doc.entries@.take(i as int).map_values(
                |e: EntryDoc| item_of(e@),
            ),
        decreases doc.entries@.len() - i,
    {
        let ghost old_items = items@;
        let item = item_from(&doc.entries[i]);
        items.push(item);
        proof {
            assert(doc.entries@.take(i + 1) =~= doc.entries@.take(i as int).push(doc.entries@[i as int]));
            assert(items@.map_values(|x: FeedItem| x@) =~= old_items.map_values(|x: FeedItem| x@).push(item@));
            assert(items@.map_values(|x: FeedItem| x@) =~= doc.entries@.take(i + 1).map_values(
                |e: EntryDoc| item_of(e@),
            ));
        }
        i = i + 1;
    }
    proof {
        assert(doc.entries@.take(doc.entries@.len() as int) == doc.entries@);
        assert(doc@.entries.map_values(|e: EntryDocView| item_of(e)) =~= doc.entries@.map_values(
            |e: EntryDoc| item_of(e@),
        ));
    }
    FeedData {
        title: match &doc.title {
            Some(t) => t.clone(),
            None => String::new(),
        },
        description: doc.description.clone(),
        link: first_string(&doc.links),
        items,
    }
}

/// Parses a feed document (RSS, Atom or JSON Feed) into what is shown of it.
pub fn parse_feed_content(bytes: &[u8]) -> (res: Result<FeedData, String>)
    ensures
        match (res, parsed_feed(bytes@)) {
            (Ok(d), Ok(v)) => d@ == feed_data_of(v),
            (Err(e), Err(m)) => e@ == m,
            _ => false,
        },
{
    match parse_feed_document(bytes) {
        Ok(doc) => Ok(feed_data_from(&doc)),
        Err(e) => Err(e),
    }
}

} // verus!
