//! Reading the subscriptions out of an OPML document.
//!
//! The document is read as a stream of XML events; a state machine turns
//! the events into the document's title and its feeds. Folders (outlines
//! without an `xmlUrl`) give the category path of the feeds inside them.

use vstd::prelude::*;
use crate::scan::opt_view;
use crate::xmlread::{xml_event_at, XmlCursor};
use crate::text::{
    chars_of, decimal, join, join_strings, lossy_utf8, push_decimal, split_char,
    split_chars, str_eq, string_of, string_views, to_lowercase, lowercase, trim, trim_chars,
    utf8_lossy, views_of,
};

verus! {

// ---------------------------------------------------------------------------
// Data
// ---------------------------------------------------------------------------

/// A feed listed in an OPML document.
#[derive(Debug, Clone, PartialEq)]
pub struct OpmlFeed {
    pub title: String,
    pub url: String,
    pub description: Option<String>,
    pub category: Option<String>,
    pub html_url: Option<String>,
}

/// The mathematical value of an [`OpmlFeed`].
pub struct OpmlFeedView {
    pub title: Seq<char>,
    pub url: Seq<char>,
    pub description: Option<Seq<char>>,
    pub category: Option<Seq<char>>,
    pub html_url: Option<Seq<char>>,
}

impl View for OpmlFeed {
    type V = OpmlFeedView;

    open spec fn view(&self) -> OpmlFeedView {
        OpmlFeedView {
            title: self.title@,
            url: self.url@,
            description: opt_view(self.description),
            category: opt_view(self.category),
            html_url: opt_view(self.html_url),
        }
    }
}

/// Feeds viewed value by value.
pub open spec fn feed_views(v: Seq<OpmlFeed>) -> Seq<OpmlFeedView> {
    v.map_values(|f: OpmlFeed| f@)
}

/// What an OPML document holds: its title and its feeds.
#[derive(Debug, Clone, PartialEq)]
pub struct OpmlData {
    pub title: Option<String>,
    pub feeds: Vec<OpmlFeed>,
}

/// An attribute of a tag: its raw key, its value with entities resolved
/// (when they could be), and its raw value.
#[derive(Debug, Clone, PartialEq)]
pub struct XmlAttribute {
    pub key: Vec<u8>,
    pub value: Option<String>,
    pub raw: Vec<u8>,
}

/// A start or empty-element tag: its raw name and its attributes; an
/// attribute that could not be read is `None`.
#[derive(Debug, Clone, PartialEq)]
pub struct XmlTag {
    pub name: Vec<u8>,
    pub attributes: Vec<Option<XmlAttribute>>,
}

/// An XML event of the document.
#[derive(Debug, Clone, PartialEq)]
pub enum OpmlEvent {
    Start(XmlTag),
    Empty(XmlTag),
    /// Character data: unescaped when its entities could be resolved, and
    /// its raw bytes.
    Text(Option<String>, Vec<u8>),
    End(Vec<u8>),
    Eof,
    /// Any other event (comments, declarations, CDATA, ...).
    Other,
    /// The reader failed: its message and the position it had reached.
    Failed(String, usize),
}

// ---------------------------------------------------------------------------
// The state machine, as a specification
// ---------------------------------------------------------------------------

/// The state of the reader between two events.
pub struct OpmlState {
    pub title: Option<Seq<char>>,
    pub feeds: Seq<OpmlFeedView>,
    /// The category paths of the open folders; the first is the empty root.
    pub paths: Seq<Seq<Seq<char>>>,
    /// The attributes of the outlines whose start tag has been read and
    /// whose end tag has not, innermost last.
    pub open: Seq<Seq<(Seq<char>, Seq<char>)>>,
    pub in_head: bool,
    pub in_body: bool,
    pub in_title: bool,
    pub text: Seq<char>,
}

/// The state before the first event.
pub open spec fn opml_initial() -> OpmlState {
    OpmlState {
        title: None,
        feeds: Seq::empty(),
        paths: seq![Seq::<Seq<char>>::empty()],
        open: Seq::empty(),
        in_head: false,
        in_body: false,
        in_title: false,
        text: Seq::empty(),
    }
}

/// The bytes `b` spell the characters `s`, one byte per character.
pub open spec fn spells(b: Seq<u8>, s: Seq<char>) -> bool {
    b.len() == s.len() && forall|i: int| 0 <= i < b.len() ==> b[i] as u32 == (#[trigger] s[i]) as u32
}

/// An attribute's value: with its entities resolved (`&amp;` read as `&`),
/// or, when they cannot be resolved, its raw bytes decoded as UTF-8 with
/// replacement.
pub open spec fn attribute_value(a: XmlAttribute) -> Seq<char> {
    match a.value {
        Some(v) => v@,
        None => lossy_utf8(a.raw@),
    }
}

/// The attributes that could be read: the key decoded as UTF-8 with
/// replacement, and the value unescaped.
pub open spec fn decoded_attributes(a: Seq<Option<XmlAttribute>>) -> Seq<(Seq<char>, Seq<char>)>
    decreases a.len(),
{
    if a.len() == 0 {
        Seq::empty()
    } else {
        let prev = decoded_attributes(a.drop_last());
        match a.last() {
            Some(kv) => prev.push((lossy_utf8(kv.key@), attribute_value(kv))),
            None => prev,
        }
    }
}

/// The value of the attribute `key`; a later attribute replaces an earlier.
pub open spec fn lookup(attrs: Seq<(Seq<char>, Seq<char>)>, key: Seq<char>) -> Option<Seq<char>>
    decreases attrs.len(),
{
    if attrs.len() == 0 {
        None
    } else if attrs.last().0 == key {
        Some(attrs.last().1)
    } else {
        lookup(attrs.drop_last(), key)
    }
}

/// The value of `key`, or the empty string.
pub open spec fn lookup_or_empty(attrs: Seq<(Seq<char>, Seq<char>)>, key: Seq<char>) -> Seq<char> {
    match lookup(attrs, key) {
        Some(v) => v,
        None => Seq::empty(),
    }
}

/// An outline's label: `text`, else `title`, else empty.
pub open spec fn outline_text(attrs: Seq<(Seq<char>, Seq<char>)>) -> Seq<char> {
    match lookup(attrs, "text"@) {
        Some(t) => t,
        None => lookup_or_empty(attrs, "title"@),
    }
}

/// A category name that counts: not blank and not `all` in any case.
pub open spec fn usable_category(c: Seq<char>) -> bool {
    trim(c).len() > 0 && lowercase(trim(c)) != "all"@
}

/// The first usable comma-separated category, trimmed.
pub open spec fn first_category(parts: Seq<Seq<char>>) -> Option<Seq<char>>
    decreases parts.len(),
{
    if parts.len() == 0 {
        None
    } else if usable_category(parts[0]) {
        Some(trim(parts[0]))
    } else {
        first_category(parts.drop_first())
    }
}

/// A feed's category: the first usable one of its `category` attribute, else
/// the path of the folders it is in, joined with ` / `.
pub open spec fn category_for(attr: Seq<char>, path: Seq<Seq<char>>) -> Option<Seq<char>> {
    let given = if attr.len() > 0 {
        first_category(split_char(attr, ','))
    } else {
        None
    };
    match given {
        Some(c) => Some(c),
        None => if path.len() > 0 {
            Some(join(path, " / "@))
        } else {
            None
        },
    }
}

/// An outline is a feed when it has an `xmlUrl` and its `type` is `rss`,
/// `atom` or absent.
pub open spec fn is_feed_outline(attrs: Seq<(Seq<char>, Seq<char>)>) -> bool {
    let ty = lookup_or_empty(attrs, "type"@);
    lookup(attrs, "xmlUrl"@) is Some && (ty == "rss"@ || ty == "atom"@ || ty.len() == 0)
}

/// The feed that a feed outline describes.
pub open spec fn outline_feed(attrs: Seq<(Seq<char>, Seq<char>)>, path: Seq<Seq<char>>) -> OpmlFeedView {
    let text = outline_text(attrs);
    OpmlFeedView {
        title: if text.len() == 0 {
            "未命名订阅"@
        } else {
            text
        },
        url: lookup_or_empty(attrs, "xmlUrl"@),
        description: lookup(attrs, "description"@),
        category: category_for(lookup_or_empty(attrs, "category"@), path),
        html_url: lookup(attrs, "htmlUrl"@),
    }
}

/// A comma-separated part of a `category` attribute names a category: it is
/// not blank, and trimmed it is not `all` in any letter case.
pub open spec fn names_category(part: Seq<char>) -> bool {
    trim(part).len() > 0 && lowercase(trim(part)) != "all"@
}

proof fn lemma_first_category_first(parts: Seq<Seq<char>>)
    ensures
        (forall|i: int| 0 <= i < parts.len() ==> !names_category(#[trigger] parts[i])) ==> first_category(
            parts,
        ) is None,
        forall|k: int|
            0 <= k < parts.len() && names_category(#[trigger] parts[k]) && (forall|j: int|
                0 <= j < k ==> !names_category(parts[j])) ==> first_category(parts) == Some(
                trim(parts[k]),
            ),
    decreases parts.len(),
{
    if parts.len() > 0 {
        let rest = parts.drop_first();
        lemma_first_category_first(rest);
        assert forall|k: int|
            0 <= k < parts.len() && names_category(#[trigger] parts[k]) && (forall|j: int|
                0 <= j < k ==> !names_category(parts[j])) implies first_category(parts) == Some(
            trim(parts[k]),
        ) by {
            if k > 0 {
                assert(!names_category(parts[0]));
                assert(rest[k - 1] == parts[k]);
                assert forall|j: int| 0 <= j < k - 1 implies !names_category(rest[j]) by {
                    assert(rest[j] == parts[j + 1]);
                }
            }
        }
        if forall|i: int| 0 <= i < parts.len() ==> !names_category(#[trigger] parts[i]) {
            assert forall|i: int| 0 <= i < rest.len() implies !names_category(#[trigger] rest[i]) by {
                assert(rest[i] == parts[i + 1]);
            }
        }
    }
}

/// A feed's category: the first comma-separated part of its `category`
/// attribute that names a category, trimmed; when no part does (the
/// attribute is missing, empty, or only blank parts and `all`), the names of
/// the folders the feed sits in, outermost first, joined with ` / `; and
/// none outside folders.
pub proof fn lemma_feed_category(attrs: Seq<(Seq<char>, Seq<char>)>, path: Seq<Seq<char>>)
    ensures
        ({
            let parts = split_char(lookup_or_empty(attrs, "category"@), ',');
            let cat = outline_feed(attrs, path).category;
            &&& (forall|i: int| 0 <= i < parts.len() ==> !names_category(#[trigger] parts[i]))
                ==> cat == (if path.len() > 0 {
                Some(join(path, " / "@))
            } else {
                None
            })
            &&& forall|k: int|
                0 <= k < parts.len() && names_category(#[trigger] parts[k]) && (forall|j: int|
                    0 <= j < k ==> !names_category(parts[j])) ==> cat == Some(trim(parts[k]))
        }),
{
    let attr = lookup_or_empty(attrs, "category"@);
    let parts = split_char(attr, ',');
    lemma_first_category_first(parts);
    if attr.len() == 0 {
        assert(parts == seq![Seq::<char>::empty()]);
        assert(!names_category(parts[0]));
    }
}

/// The feeds with the outline's feed added, if it describes one.
pub open spec fn with_outline(
    feeds: Seq<OpmlFeedView>,
    attrs: Seq<(Seq<char>, Seq<char>)>,
    path: Seq<Seq<char>>,
) -> Seq<OpmlFeedView> {
    if is_feed_outline(attrs) {
        feeds.push(outline_feed(attrs, path))
    } else {
        feeds
    }
}

/// An outline opens a folder when it has a label and no `xmlUrl`.
pub open spec fn is_folder(attrs: Seq<(Seq<char>, Seq<char>)>) -> bool {
    lookup(attrs, "xmlUrl"@) is None && outline_text(attrs).len() > 0
}

/// How one event (other than the end of the document or a failure) changes
/// the state. An outline's start tag opens it, and a folder (an outline
/// with a label and no `xmlUrl`) adds its label to the category path. Its
/// end tag closes the innermost open outline: inside the body a feed
/// outline gives its feed there, and a folder's label leaves the path. A
/// self-closing outline inside the body gives its feed at once.
pub open spec fn opml_step(st: OpmlState, ev: OpmlEvent) -> OpmlState {
    match ev {
        OpmlEvent::Start(tag) => {
            if spells(tag.name@, "head"@) {
                OpmlState { in_head: true, ..st }
            } else if spells(tag.name@, "title"@) && st.in_head {
                OpmlState { in_title: true, text: Seq::empty(), ..st }
            } else if spells(tag.name@, "body"@) {
                OpmlState { in_body: true, in_head: false, ..st }
            } else if spells(tag.name@, "outline"@) {
                let attrs = decoded_attributes(tag.attributes@);
                let paths = if is_folder(attrs) {
                    st.paths.push(st.paths.last().push(outline_text(attrs)))
                } else {
                    st.paths
                };
                OpmlState { open: st.open.push(attrs), paths, ..st }
            } else {
                st
            }
        },
        OpmlEvent::Empty(tag) => {
            if spells(tag.name@, "outline"@) && st.in_body {
                let attrs = decoded_attributes(tag.attributes@);
                OpmlState { feeds: with_outline(st.feeds, attrs, st.paths.last()), ..st }
            } else {
                st
            }
        },
        OpmlEvent::Text(unescaped, raw) => {
            if st.in_title {
                let piece = match unescaped {
                    Some(t) => t@,
                    None => lossy_utf8(raw@),
                };
                OpmlState { text: st.text + piece, ..st }
            } else {
                st
            }
        },
        OpmlEvent::End(name) => {
            if spells(name@, "title"@) && st.in_head {
                OpmlState { title: Some(trim(st.text)), in_title: false, text: Seq::empty(), ..st }
            } else if spells(name@, "head"@) {
                OpmlState { in_head: false, ..st }
            } else if spells(name@, "outline"@) && st.open.len() > 0 {
                let attrs = st.open.last();
                let feeds = if st.in_body {
                    with_outline(st.feeds, attrs, st.paths.last())
                } else {
                    st.feeds
                };
                let paths = if is_folder(attrs) && st.paths.len() > 1 {
                    st.paths.drop_last()
                } else {
                    st.paths
                };
                OpmlState { feeds, paths, open: st.open.drop_last(), ..st }
            } else {
                st
            }
        },
        _ => st,
    }
}

/// The message for a reader failure.
pub open spec fn failure_message(msg: Seq<char>, pos: usize) -> Seq<char> {
    "解析 OPML 失败: "@ + msg + " (位置: "@ + decimal(pos as nat) + ")"@
}

/// Runs the events from `st`: the end of the document (or of the events)
/// gives the state reached, a failure its message.
pub open spec fn opml_run(events: Seq<OpmlEvent>, st: OpmlState) -> Result<OpmlState, Seq<char>>
    decreases events.len(),
{
    if events.len() == 0 {
        Ok(st)
    } else {
        match events[0] {
            OpmlEvent::Eof => Ok(st),
            OpmlEvent::Failed(msg, pos) => Err(failure_message(msg@, pos)),
            _ => opml_run(events.drop_first(), opml_step(st, events[0])),
        }
    }
}

/// The title and feeds that a sequence of events gives.
pub open spec fn opml_result(events: Seq<OpmlEvent>) -> Result<(Option<Seq<char>>, Seq<OpmlFeedView>), Seq<char>> {
    match opml_run(events, opml_initial()) {
        Ok(st) => Ok((st.title, st.feeds)),
        Err(e) => Err(e),
    }
}


// ---------------------------------------------------------------------------
// The state machine
// ---------------------------------------------------------------------------

/// Attributes viewed as pairs of character sequences.
pub open spec fn attr_views(v: Seq<(String, String)>) -> Seq<(Seq<char>, Seq<char>)> {
    v.map_values(|p: (String, String)| (p.0@, p.1@))
}

/// The attributes of open outlines, viewed.
pub open spec fn open_views(v: Seq<Vec<(String, String)>>) -> Seq<Seq<(Seq<char>, Seq<char>)>> {
    v.map_values(|a: Vec<(String, String)>| attr_views(a@))
}

/// Category paths viewed as sequences of character sequences.
pub open spec fn path_views(v: Seq<Vec<String>>) -> Seq<Seq<Seq<char>>> {
    v.map_values(|p: Vec<String>| string_views(p@))
}

/// Whether the bytes spell the characters of `s`.
pub fn name_is(b: &Vec<u8>, s: &str) -> (res: bool)
    ensures
        res == spells(b@, s@),
{
    let n = s.unicode_len();
    if b.len() != n {
        return false;
    }
    let mut i: usize = 0;
    while i < n
        invariant
            n == s@.len(),
            n == b@.len(),
            i <= n,
            forall|j: int| 0 <= j < i ==> b@[j] as u32 == (#[trigger] s@[j]) as u32,
        decreases n - i,
    {
        if b[i] as u32 != s.get_char(i) as u32 {
            return false;
        }
        i = i + 1;
    }
    true
}

fn decode_attributes(a: &Vec<Option<XmlAttribute>>) -> (res: Vec<(String, String)>)
    ensures
        attr_views(res@) == decoded_attributes(a@),
{
    let mut res: Vec<(String, String)> = Vec::new();
    let mut i: usize = 0;
    while i < a.len()
        invariant
            i <= a@.len(),
            attr_views(res@) == decoded_attributes(a@.take(i as int)),
        decreases a@.len() - i,
    {
        proof {
            assert(a@.take(i + 1).drop_last() == a@.take(i as int));
            assert(a@.take(i + 1).last() == a@[i as int]);
        }
        let ghost old_res = res@;
        match &a[i] {
            Some(kv) => {
                let k = utf8_lossy(kv.key.as_slice());
                let v = match &kv.value {
                    Some(v) => v.clone(),
                    None => utf8_lossy(kv.raw.as_slice()),
                };
                res.push((k, v));
                proof {
                    assert(attr_views(res@) =~= attr_views(old_res).push((k@, v@)));
                }
            },
            None => {},
        }
        i = i + 1;
    }
    proof {
        assert(a@.take(a@.len() as int) == a@);
    }
    res
}

fn lookup_attr(attrs: &Vec<(String, String)>, key: &str) -> (res: Option<String>)
    ensures
        opt_view(res) == lookup(attr_views(attrs@), key@),
{
    let mut i: usize = attrs.len();
    proof {
        assert(attrs@.take(i as int) == attrs@);
    }
    while i > 0
        invariant
            i <= attrs@.len(),
            lookup(attr_views(attrs@), key@) == lookup(attr_views(attrs@.take(i as int)), key@),
        decreases i,
    {
        let ghost t = attr_views(attrs@.take(i as int));
        proof {
            assert(t.last() == (attrs@[i - 1].0@, attrs@[i - 1].1@));
            assert(t.drop_last() =~= attr_views(attrs@.take(i - 1)));
        }
        if str_eq(attrs[i - 1].0.as_str(), key) {
            return Some(attrs[i - 1].1.clone());
        }
        i = i - 1;
    }
    None
}

fn lookup_or_empty_attr(attrs: &Vec<(String, String)>, key: &str) -> (res: String)
    ensures
        res@ == lookup_or_empty(attr_views(attrs@), key@),
{
    match lookup_attr(attrs, key) {
        Some(v) => v,
        None => String::new(),
    }
}

fn outline_text_of(attrs: &Vec<(String, String)>) -> (res: String)
    ensures
        res@ == outline_text(attr_views(attrs@)),
{
    match lookup_attr(attrs, "text") {
        Some(t) => t,
        None => lookup_or_empty_attr(attrs, "title"),
    }
}

fn usable(c: &Vec<char>) -> (res: Option<String>)
    ensures
        res matches Some(t) ==> usable_category(c@) && t@ == trim(c@),
        res is None ==> !usable_category(c@),
{
    let t = trim_chars(c.as_slice());
    if t.len() == 0 {
        return None;
    }
    let t = string_of(t.as_slice());
    let low = to_lowercase(t.as_str());
    if str_eq(low.as_str(), "all") {
        None
    } else {
        Some(t)
    }
}

fn first_category_of(parts: &Vec<Vec<char>>) -> (res: Option<String>)
    ensures
        opt_view(res) == first_category(views_of(parts@)),
{
    let mut i: usize = 0;
    proof {
        assert(views_of(parts@).skip(0) == views_of(parts@));
    }
    while i < parts.len()
        invariant
            i <= parts@.len(),
            first_category(views_of(parts@)) == first_category(views_of(parts@).skip(i as int)),
        decreases parts@.len() - i,
    {
        let ghost rest = views_of(parts@).skip(i as int);
        proof {
            assert(rest[0] == parts@[i as int]@);
            assert(rest.drop_first() == views_of(parts@).skip(i + 1));
        }
        match usable(&parts[i]) {
            Some(t) => {
                return Some(t);
            },
            None => {},
        }
        i = i + 1;
    }
    None
}

fn category_of(attr: &String, path: &Vec<String>) -> (res: Option<String>)
    ensures
        opt_view(res) == category_for(attr@, string_views(path@)),
{
    let given = if attr.unicode_len() > 0 {
        let cs = chars_of(attr.as_str());
        let parts = split_chars(cs.as_slice(), ',');
        first_category_of(&parts)
    } else {
        None
    };
    match given {
        Some(c) => Some(c),
        None => if path.len() > 0 {
            Some(join_strings(path, " / "))
        } else {
            None
        },
    }
}

fn is_feed_outline_of(attrs: &Vec<(String, String)>) -> (res: bool)
    ensures
        res == is_feed_outline(attr_views(attrs@)),
{
    let ty = lookup_or_empty_attr(attrs, "type");
    let has_url = match lookup_attr(attrs, "xmlUrl") {
        Some(_) => true,
        None => false,
    };
    has_url && (str_eq(ty.as_str(), "rss") || str_eq(ty.as_str(), "atom") || ty.unicode_len() == 0)
}

fn outline_feed_of(attrs: &Vec<(String, String)>, path: &Vec<String>) -> (res: OpmlFeed)
    ensures
        res@ == outline_feed(attr_views(attrs@), string_views(path@)),
{
    let text = outline_text_of(attrs);
    let title = if text.unicode_len() == 0 {
        String::from_str("未命名订阅")
    } else {
        text
    };
    let category_attr = lookup_or_empty_attr(attrs, "category");
    OpmlFeed {
        title,
        url: lookup_or_empty_attr(attrs, "xmlUrl"),
        description: lookup_attr(attrs, "description"),
        category: category_of(&category_attr, path),
        html_url: lookup_attr(attrs, "htmlUrl"),
    }
}

fn is_folder_of(attrs: &Vec<(String, String)>) -> (res: bool)
    ensures
        res == is_folder(attr_views(attrs@)),
{
    let text = outline_text_of(attrs);
    match lookup_attr(attrs, "xmlUrl") {
        Some(_) => false,
        None => text.unicode_len() > 0,
    }
}

/// The reader's state while it goes through the events of a document.
pub struct OpmlParser {
    title: Option<String>,
    feeds: Vec<OpmlFeed>,
    paths: Vec<Vec<String>>,
    open: Vec<Vec<(String, String)>>,
    in_head: bool,
    in_body: bool,
    in_title: bool,
    text: String,
}

impl View for OpmlParser {
    type V = OpmlState;

    closed spec fn view(&self) -> OpmlState {
        OpmlState {
            title: opt_view(self.title),
            feeds: feed_views(self.feeds@),
            paths: path_views(self.paths@),
            open: open_views(self.open@),
            in_head: self.in_head,
            in_body: self.in_body,
            in_title: self.in_title,
            text: self.text@,
        }
    }
}

impl OpmlParser {
    /// The root path is never left.
    pub closed spec fn wf(&self) -> bool {
        self.paths@.len() >= 1
    }

    /// A reader that has seen no event.
    pub fn new() -> (res: Self)
        ensures
            res.wf(),
            res@ == opml_initial(),
    {
        let mut paths: Vec<Vec<String>> = Vec::new();
        paths.push(Vec::new());
        let res = OpmlParser {
            title: None,
            feeds: Vec::new(),
            paths,
            open: Vec::new(),
            in_head: false,
            in_body: false,
            in_title: false,
            text: String::new(),
        };
        proof {
            assert(string_views(res.paths@[0]@) =~= Seq::<Seq<char>>::empty());
            assert(path_views(res.paths@) =~= seq![Seq::<Seq<char>>::empty()]);
            assert(feed_views(res.feeds@) =~= Seq::<OpmlFeedView>::empty());
            assert(open_views(res.open@) =~= Seq::<Seq<(Seq<char>, Seq<char>)>>::empty());
        }
        res
    }

    fn add_outline_feed(&mut self, attrs: &Vec<(String, String)>)
        requires
            old(self).wf(),
        ensures
            final(self).wf(),
            final(self)@ == (OpmlState {
                feeds: with_outline(old(self)@.feeds, attr_views(attrs@), old(self)@.paths.last()),
                ..old(self)@
            }),
    {
        let last = self.paths.len() - 1;
        proof {
            assert(path_views(self.paths@).last() == string_views(self.paths@[last as int]@));
        }
        if is_feed_outline_of(attrs) {
            let feed = outline_feed_of(attrs, &self.paths[last]);
            let ghost old_feeds = self.feeds@;
            self.feeds.push(feed);
            proof {
                assert(feed_views(self.feeds@) =~= feed_views(old_feeds).push(feed@));
            }
        }
    }

    /// Takes one event of the document into account (the end of the document
    /// and reader failures change nothing).
    pub fn handle(&mut self, ev: &OpmlEvent)
        requires
            old(self).wf(),
        ensures
            final(self).wf(),
            final(self)@ == opml_step(old(self)@, *ev),
    {
        match ev {
            OpmlEvent::Start(tag) => {
                if name_is(&tag.name, "head") {
                    self.in_head = true;
                } else if name_is(&tag.name, "title") && self.in_head {
                    self.in_title = true;
                    self.text = String::new();
                } else if name_is(&tag.name, "body") {
                    self.in_body = true;
                    self.in_head = false;
                } else if name_is(&tag.name, "outline") {
                    let attrs = decode_attributes(&tag.attributes);
                    if is_folder_of(&attrs) {
                        let last = self.paths.len() - 1;
                        let mut path = self.paths[last].clone();
                        let label = outline_text_of(&attrs);
                        let ghost old_path = path@;
                        let ghost old_paths = self.paths@;
                        path.push(label);
                        self.paths.push(path);
                        proof {
                            assert(string_views(path@) =~= string_views(old_path).push(label@));
                            assert(path_views(old_paths).last() == string_views(old_path));
                            assert(path_views(self.paths@) =~= path_views(old_paths).push(
                                string_views(path@),
                            ));
                        }
                    }
                    let ghost old_open = self.open@;
                    let ghost pushed = attr_views(attrs@);
                    self.open.push(attrs);
                    proof {
                        assert(open_views(self.open@) =~= open_views(old_open).push(pushed));
                    }
                }
            },
            OpmlEvent::Empty(tag) => {
                if name_is(&tag.name, "outline") && self.in_body {
                    let attrs = decode_attributes(&tag.attributes);
                    self.add_outline_feed(&attrs);
                }
            },
            OpmlEvent::Text(unescaped, raw) => {
                if self.in_title {
                    match unescaped {
                        Some(t) => {
                            self.text.append(t.as_str());
                        },
                        None => {
                            let t = utf8_lossy(raw.as_slice());
                            self.text.append(t.as_str());
                        },
                    }
                }
            },
            OpmlEvent::End(name) => {
                if name_is(name, "title") && self.in_head {
                    let t = chars_of(self.text.as_str());
                    let t = trim_chars(t.as_slice());
                    self.title = Some(string_of(t.as_slice()));
                    self.in_title = false;
                    self.text = String::new();
                } else if name_is(name, "head") {
                    self.in_head = false;
                } else if name_is(name, "outline") && self.open.len() > 0 {
                    let ghost old_open = self.open@;
                    let attrs = self.open.pop().unwrap();
                    proof {
                        assert(open_views(self.open@) =~= open_views(old_open).drop_last());
                        assert(attr_views(attrs@) == open_views(old_open).last());
                    }
                    let folder = is_folder_of(&attrs);
                    if self.in_body {
                        self.add_outline_feed(&attrs);
                    }
                    if folder && self.paths.len() > 1 {
                        let ghost old_paths = self.paths@;
                        self.paths.pop();
                        proof {
                            assert(path_views(self.paths@) =~= path_views(old_paths).drop_last());
                        }
                    }
                }
            },
            _ => {},
        }
    }

    /// The title and feeds read so far.
    pub fn into_data(self) -> (res: OpmlData)
        ensures
            opt_view(res.title) == self@.title,
            feed_views(res.feeds@) == self@.feeds,
    {
        OpmlData { title: self.title, feeds: self.feeds }
    }
}


/// The result of reading the events, compared with what the specification
/// gives for them.
pub open spec fn matches_result(
    res: Result<OpmlData, String>,
    spec: Result<(Option<Seq<char>>, Seq<OpmlFeedView>), Seq<char>>,
) -> bool {
    match (res, spec) {
        (Ok(d), Ok(r)) => opt_view(d.title) == r.0 && feed_views(d.feeds@) == r.1,
        (Err(e), Err(m)) => e@ == m,
        _ => false,
    }
}

/// The message reported when the reader fails.
fn failure_text(msg: &String, pos: usize) -> (res: String)
    ensures
        res@ == failure_message(msg@, pos),
{
    let mut res = String::from_str("解析 OPML 失败: ");
    res.append(msg.as_str());
    res.append(" (位置: ");
    push_decimal(&mut res, pos as u64);
    res.append(")");
    res
}

/// Reads the title and feeds out of the events of an OPML document, up to
/// its end; a reader failure is reported with its position.
pub fn parse_opml_events(events: &Vec<OpmlEvent>) -> (res: Result<OpmlData, String>)
    ensures
        matches_result(res, opml_result(events@)),
{
    let mut parser = OpmlParser::new();
    let mut i: usize = 0;
    proof {
        assert(events@.skip(0) == events@);
    }
    while i < events.len()
        invariant
            i <= events@.len(),
            parser.wf(),
            opml_run(events@, opml_initial()) == opml_run(events@.skip(i as int), parser@),
        decreases events@.len() - i,
    {
        proof {
            assert(events@.skip(i as int)[0] == events@[i as int]);
            assert(events@.skip(i as int).drop_first() == events@.skip(i + 1));
        }
        match &events[i] {
            OpmlEvent::Eof => {
                return Ok(parser.into_data());
            },
            OpmlEvent::Failed(msg, pos) => {
                return Err(failure_text(msg, *pos));
            },
            ev => {
                parser.handle(ev);
            },
        }
        i = i + 1;
    }
    Ok(parser.into_data())
}


// ---------------------------------------------------------------------------
// What every document gives
// ---------------------------------------------------------------------------

/// Every feed has a title, and a category it has is not empty.
pub open spec fn feeds_wellformed(f: Seq<OpmlFeedView>) -> bool {
    forall|i: int|
        0 <= i < f.len() ==> (#[trigger] f[i]).title.len() > 0 && (f[i].category matches Some(c)
            ==> c.len() > 0)
}

/// What holds of the state between any two events.
pub open spec fn opml_inv(st: OpmlState) -> bool {
    &&& st.paths.len() >= 1
    &&& forall|i: int, j: int|
        0 <= i < st.paths.len() && 0 <= j < st.paths[i].len() ==> (#[trigger] st.paths[i][j]).len()
            > 0
    &&& feeds_wellformed(st.feeds)
}

proof fn lemma_join_nonempty(parts: Seq<Seq<char>>, sep: Seq<char>)
    requires
        parts.len() >= 1,
        parts.last().len() > 0,
    ensures
        join(parts, sep).len() > 0,
{
}

proof fn lemma_first_category_nonempty(parts: Seq<Seq<char>>)
    ensures
        first_category(parts) matches Some(c) ==> c.len() > 0,
    decreases parts.len(),
{
    if parts.len() > 0 && !usable_category(parts[0]) {
        lemma_first_category_nonempty(parts.drop_first());
    }
}

proof fn lemma_outline_feed_wellformed(attrs: Seq<(Seq<char>, Seq<char>)>, path: Seq<Seq<char>>)
    requires
        forall|j: int| 0 <= j < path.len() ==> (#[trigger] path[j]).len() > 0,
    ensures
        outline_feed(attrs, path).title.len() > 0,
        outline_feed(attrs, path).category matches Some(c) ==> c.len() > 0,
{
    reveal_strlit("未命名订阅");
    let attr = lookup_or_empty(attrs, "category"@);
    if attr.len() > 0 {
        lemma_first_category_nonempty(split_char(attr, ','));
    }
    if path.len() > 0 {
        lemma_join_nonempty(path, " / "@);
    }
}

proof fn lemma_with_outline_wellformed(
    feeds: Seq<OpmlFeedView>,
    attrs: Seq<(Seq<char>, Seq<char>)>,
    path: Seq<Seq<char>>,
)
    requires
        feeds_wellformed(feeds),
        forall|j: int| 0 <= j < path.len() ==> (#[trigger] path[j]).len() > 0,
    ensures
        feeds_wellformed(with_outline(feeds, attrs, path)),
{
    lemma_outline_feed_wellformed(attrs, path);
    let r = with_outline(feeds, attrs, path);
    assert forall|i: int| 0 <= i < r.len() implies (#[trigger] r[i]).title.len() > 0 && (
    r[i].category matches Some(c) ==> c.len() > 0) by {
        if i < feeds.len() {
            assert(r[i] == feeds[i]);
        }
    }
}

proof fn lemma_step_inv(st: OpmlState, ev: OpmlEvent)
    requires
        opml_inv(st),
    ensures
        opml_inv(opml_step(st, ev)),
{
    let last = st.paths.last();
    assert(forall|j: int| 0 <= j < last.len() ==> (#[trigger] last[j]).len() > 0) by {
        assert forall|j: int| 0 <= j < last.len() implies (#[trigger] last[j]).len() > 0 by {
            assert(st.paths[st.paths.len() - 1][j] == last[j]);
        }
    }
    match ev {
        OpmlEvent::Start(tag) => {
            if !spells(tag.name@, "head"@) && !(spells(tag.name@, "title"@) && st.in_head)
                && !spells(tag.name@, "body"@) && spells(tag.name@, "outline"@) {
                let attrs = decoded_attributes(tag.attributes@);
                if is_folder(attrs) {
                    let p = st.paths.push(last.push(outline_text(attrs)));
                    assert forall|i: int, j: int|
                        0 <= i < p.len() && 0 <= j < p[i].len() implies (#[trigger] p[i][j]).len()
                        > 0 by {
                        if i < st.paths.len() {
                            assert(p[i] == st.paths[i]);
                        } else if j < last.len() {
                            assert(p[i][j] == last[j]);
                        }
                    }
                }
            }
        },
        OpmlEvent::Empty(tag) => {
            lemma_with_outline_wellformed(st.feeds, decoded_attributes(tag.attributes@), last);
        },
        OpmlEvent::End(name) => {
            if st.open.len() > 0 {
                lemma_with_outline_wellformed(st.feeds, st.open.last(), last);
            }
            if st.open.len() > 0 && is_folder(st.open.last()) && st.paths.len() > 1 {
                let p = st.paths.drop_last();
                assert forall|i: int, j: int|
                    0 <= i < p.len() && 0 <= j < p[i].len() implies (#[trigger] p[i][j]).len()
                    > 0 by {
                    assert(p[i] == st.paths[i]);
                }
            }
        },
        _ => {},
    }
}

proof fn lemma_run_inv(events: Seq<OpmlEvent>, st: OpmlState)
    requires
        opml_inv(st),
    ensures
        opml_run(events, st) matches Ok(r) ==> opml_inv(r),
    decreases events.len(),
{
    if events.len() > 0 {
        match events[0] {
            OpmlEvent::Eof => {},
            OpmlEvent::Failed(_, _) => {},
            _ => {
                lemma_step_inv(st, events[0]);
                lemma_run_inv(events.drop_first(), opml_step(st, events[0]));
            },
        }
    }
}

/// Whatever events a document gives, every feed read from it has a title,
/// and a category it has is not empty.
pub proof fn lemma_opml_feeds_wellformed(events: Seq<OpmlEvent>)
    ensures
        opml_result(events) matches Ok(r) ==> feeds_wellformed(r.1),
{
    assert(opml_inv(opml_initial())) by {
        let p = opml_initial().paths;
        assert forall|i: int, j: int| 0 <= i < p.len() && 0 <= j < p[i].len() implies (
        #[trigger] p[i][j]).len() > 0 by {
            assert(p[i].len() == 0);
        }
    }
    lemma_run_inv(events, opml_initial());
}

// ---------------------------------------------------------------------------
// Which outlines give feeds
// ---------------------------------------------------------------------------

/// What the outline law follows of a document: whether its body has
/// started, the attributes of the outlines open, and the address and title
/// of each feed given so far.
pub struct OutlineScan {
    pub in_body: bool,
    pub open: Seq<Seq<(Seq<char>, Seq<char>)>>,
    pub feeds: Seq<(Seq<char>, Seq<char>)>,
}

/// A feed outline's title: its `text` attribute when present, else its
/// `title` attribute, or `未命名订阅` when that is absent or empty.
pub open spec fn feed_title(attrs: Seq<(Seq<char>, Seq<char>)>) -> Seq<char> {
    if outline_text(attrs).len() == 0 {
        "未命名订阅"@
    } else {
        outline_text(attrs)
    }
}

/// An outline closes: inside the body, a feed outline (one with an
/// `xmlUrl` and a `type` that is absent, empty, `rss` or `atom`) gives one
/// feed, with its `xmlUrl` as address.
pub open spec fn outline_closes(
    sc: OutlineScan,
    attrs: Seq<(Seq<char>, Seq<char>)>,
) -> Seq<(Seq<char>, Seq<char>)> {
    if sc.in_body && is_feed_outline(attrs) {
        sc.feeds.push((lookup_or_empty(attrs, "xmlUrl"@), feed_title(attrs)))
    } else {
        sc.feeds
    }
}

/// One event followed by the outline law: the body's start tag starts the
/// body; an outline's start tag opens it; its end tag closes the innermost
/// open outline; a self-closing outline opens and closes at once.
pub open spec fn outline_scan_step(sc: OutlineScan, ev: OpmlEvent) -> OutlineScan {
    match ev {
        OpmlEvent::Start(tag) => {
            if spells(tag.name@, "body"@) {
                OutlineScan { in_body: true, ..sc }
            } else if spells(tag.name@, "outline"@) {
                OutlineScan { open: sc.open.push(decoded_attributes(tag.attributes@)), ..sc }
            } else {
                sc
            }
        },
        OpmlEvent::Empty(tag) => {
            if spells(tag.name@, "outline"@) {
                OutlineScan { feeds: outline_closes(sc, decoded_attributes(tag.attributes@)), ..sc }
            } else {
                sc
            }
        },
        OpmlEvent::End(name) => {
            if spells(name@, "outline"@) && sc.open.len() > 0 {
                OutlineScan {
                    feeds: outline_closes(sc, sc.open.last()),
                    open: sc.open.drop_last(),
                    ..sc
                }
            } else {
                sc
            }
        },
        _ => sc,
    }
}

/// The outline law followed over events, up to the end of the document or
/// the reader's first failure.
pub open spec fn outline_scan(events: Seq<OpmlEvent>, sc: OutlineScan) -> OutlineScan
    decreases events.len(),
{
    if events.len() == 0 {
        sc
    } else {
        match events[0] {
            OpmlEvent::Eof => sc,
            OpmlEvent::Failed(_, _) => sc,
            _ => outline_scan(events.drop_first(), outline_scan_step(sc, events[0])),
        }
    }
}

/// The address and title of each feed the outlines of a document give, in
/// the order the outlines close.
pub open spec fn outline_feeds(events: Seq<OpmlEvent>) -> Seq<(Seq<char>, Seq<char>)> {
    outline_scan(events, OutlineScan { in_body: false, open: Seq::empty(), feeds: Seq::empty() }).feeds
}

/// A feed's address and title.
pub open spec fn feed_key(f: OpmlFeedView) -> (Seq<char>, Seq<char>) {
    (f.url, f.title)
}

/// The addresses and titles of feeds.
pub open spec fn feed_keys(f: Seq<OpmlFeedView>) -> Seq<(Seq<char>, Seq<char>)> {
    f.map_values(|x: OpmlFeedView| feed_key(x))
}

/// The reader's state agrees with the outline law's.
pub open spec fn follows_outlines(st: OpmlState, sc: OutlineScan) -> bool {
    &&& st.in_body == sc.in_body
    &&& st.open == sc.open
    &&& feed_keys(st.feeds) == sc.feeds
}

proof fn lemma_with_outline_keys(
    feeds: Seq<OpmlFeedView>,
    attrs: Seq<(Seq<char>, Seq<char>)>,
    path: Seq<Seq<char>>,
)
    ensures
        feed_keys(with_outline(feeds, attrs, path)) == if is_feed_outline(attrs) {
            feed_keys(feeds).push((lookup_or_empty(attrs, "xmlUrl"@), feed_title(attrs)))
        } else {
            feed_keys(feeds)
        },
{
    if is_feed_outline(attrs) {
        assert(feed_keys(feeds.push(outline_feed(attrs, path))) =~= feed_keys(feeds).push(
            (lookup_or_empty(attrs, "xmlUrl"@), feed_title(attrs)),
        ));
    }
}

proof fn lemma_step_follows(st: OpmlState, sc: OutlineScan, ev: OpmlEvent)
    requires
        follows_outlines(st, sc),
    ensures
        follows_outlines(opml_step(st, ev), outline_scan_step(sc, ev)),
{
    reveal_strlit("head");
    reveal_strlit("title");
    reveal_strlit("body");
    reveal_strlit("outline");
    match ev {
        OpmlEvent::Start(tag) => {
            if spells(tag.name@, "outline"@) {
                assert(!spells(tag.name@, "head"@));
                assert(!spells(tag.name@, "title"@));
                assert(!spells(tag.name@, "body"@));
            } else if spells(tag.name@, "body"@) {
                assert(!spells(tag.name@, "head"@) && !spells(tag.name@, "title"@)) by {
                    assert("body"@[0] == 'b');
                    assert("head"@[0] == 'h');
                    assert(tag.name@[0] as u32 == "body"@[0] as u32);
                }
            }
        },
        OpmlEvent::Empty(tag) => {
            lemma_with_outline_keys(st.feeds, decoded_attributes(tag.attributes@), st.paths.last());
        },
        OpmlEvent::End(name) => {
            if spells(name@, "outline"@) {
                assert(!spells(name@, "head"@));
                assert(!spells(name@, "title"@));
                if st.open.len() > 0 {
                    lemma_with_outline_keys(st.feeds, st.open.last(), st.paths.last());
                }
            }
        },
        _ => {},
    }
}

proof fn lemma_run_follows(events: Seq<OpmlEvent>, st: OpmlState, sc: OutlineScan)
    requires
        follows_outlines(st, sc),
    ensures
        opml_run(events, st) matches Ok(r) ==> follows_outlines(r, outline_scan(events, sc)),
    decreases events.len(),
{
    if events.len() > 0 {
        match events[0] {
            OpmlEvent::Eof => {},
            OpmlEvent::Failed(_, _) => {},
            _ => {
                lemma_step_follows(st, sc, events[0]);
                lemma_run_follows(
                    events.drop_first(),
                    opml_step(st, events[0]),
                    outline_scan_step(sc, events[0]),
                );
            },
        }
    }
}

/// The outlines give the feeds: reading a document gives exactly one feed
/// per outline inside the body that has an `xmlUrl` and a `type` that is
/// absent, empty, `rss` or `atom`, in the order the outlines close (a
/// self-closing outline closes where it stands), with that `xmlUrl` as its
/// address and [`feed_title`] as its title.
pub proof fn lemma_opml_outlines_give_feeds(events: Seq<OpmlEvent>)
    ensures
        opml_result(events) matches Ok(r) ==> feed_keys(r.1) == outline_feeds(events),
{
    let sc = OutlineScan { in_body: false, open: Seq::empty(), feeds: Seq::empty() };
    assert(feed_keys(opml_initial().feeds) =~= sc.feeds);
    lemma_run_follows(events, opml_initial(), sc);
}

// ---------------------------------------------------------------------------
// Reading a document
// ---------------------------------------------------------------------------

/// The first `n` events `quick_xml` reads from a text.
pub open spec fn document_events(text: Seq<char>, n: nat) -> Seq<OpmlEvent> {
    Seq::new(n, |i: int| xml_event_at(text, i as nat))
}

/// Reads the title and feeds of an OPML document: its events, as
/// `quick_xml` reads them from the text, go through the state machine of
/// [`parse_opml_events`] up to the end of the document or the reader's
/// first failure.
///
/// Every event but the last consumes at least one character, so a document
/// of `n` characters has at most `n + 1` events, and no more are read.
pub fn parse_opml(opml_text: &str) -> (res: Result<OpmlData, String>)
    ensures
        matches_result(res, opml_result(document_events(opml_text@, opml_text@.len() + 1))),
        res matches Ok(d) ==> feeds_wellformed(feed_views(d.feeds@)),
        res matches Ok(d) ==> feed_keys(feed_views(d.feeds@)) == outline_feeds(
            document_events(opml_text@, opml_text@.len() + 1),
        ),
{
    let mut cursor = XmlCursor::open(opml_text);
    let bound = opml_text.unicode_len();
    let ghost all = document_events(opml_text@, (bound + 1) as nat);
    let mut parser = OpmlParser::new();
    proof {
        lemma_opml_feeds_wellformed(all);
        lemma_opml_outlines_give_feeds(all);
        assert(all.skip(0) == all);
    }
    let mut n: usize = 0;
    loop
        invariant
            n <= bound,
            bound == opml_text@.len(),
            cursor.text() == opml_text@,
            cursor.read() == n,
            all == document_events(opml_text@, (bound + 1) as nat),
            opml_result(all) matches Ok(r) ==> feeds_wellformed(r.1),
            opml_result(all) matches Ok(r) ==> feed_keys(r.1) == outline_feeds(all),
            parser.wf(),
            opml_run(all, opml_initial()) == opml_run(all.skip(n as int), parser@),
        decreases bound - n,
    {
        let ev = cursor.next();
        proof {
            assert(all.skip(n as int)[0] == ev);
            assert(all.skip(n as int).drop_first() == all.skip(n + 1));
        }
        let ghost before = parser@;
        match &ev {
            OpmlEvent::Eof => {
                proof {
                    assert(opml_result(all) == Ok::<(Option<Seq<char>>, Seq<OpmlFeedView>), Seq<char>>((parser@.title, parser@.feeds)));
                }
                return Ok(parser.into_data());
            },
            OpmlEvent::Failed(msg, pos) => {
                return Err(failure_text(msg, *pos));
            },
            _ => {
                parser.handle(&ev);
            },
        }
        proof {
            assert(opml_run(all.skip(n as int), before) == opml_run(all.skip(n + 1), parser@));
        }
        if n == bound {
            proof {
                assert(all.skip(n + 1) =~= Seq::<OpmlEvent>::empty());
                assert(opml_run(all.skip(n + 1), parser@) == Ok::<OpmlState, Seq<char>>(parser@));
                assert(opml_result(all) == Ok::<(Option<Seq<char>>, Seq<OpmlFeedView>), Seq<char>>((parser@.title, parser@.feeds)));
            }
            return Ok(parser.into_data());
        }
        n = n + 1;
    }
}

} // verus!
