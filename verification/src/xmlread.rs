//! Reading an XML document event by event with `quick_xml`.
//!
//! A [`XmlCursor`] holds a `quick_xml` reader over a text together with the
//! text and the number of events read so far. The events `quick_xml` reads
//! from a text are a function of the text alone, so the `k`-th of them is
//! named ([`xml_event_at`]); the trusted read states that the cursor hands
//! out exactly those, in order.

use vstd::prelude::*;
use quick_xml::events::{BytesStart, Event};
use quick_xml::Reader;
use crate::opml::{OpmlEvent, XmlAttribute, XmlTag};

verus! {

/// `quick_xml::Reader`, held opaque.
#[verifier::external_type_specification]
#[verifier::external_body]
#[verifier::reject_recursive_types(R)]
pub struct ExXmlReader<R>(Reader<R>);

/// `quick_xml::events::BytesStart`, a start or empty-element tag, held opaque.
#[verifier::external_type_specification]
#[verifier::external_body]
pub struct ExBytesStart<'a>(BytesStart<'a>);

/// The event numbered `k` (from 0) that `quick_xml` reads from `text` with
/// text trimmed (`Reader::trim_text(true)`) and end tags not checked against
/// start tags (`Reader::check_end_names(false)`), in plain values: tags by
/// their raw name and attributes (values also unescaped), character data unescaped (when its
/// entities resolve) and raw, end tags by their raw name, and a failure by
/// its message and the reader's position.
pub uninterp spec fn xml_event_at(text: Seq<char>, k: nat) -> OpmlEvent;

/// A reader over a text, with the text and the number of events read.
pub struct XmlCursor<'a> {
    reader: Reader<&'a [u8]>,
    text: Ghost<Seq<char>>,
    read: Ghost<nat>,
}

impl<'a> XmlCursor<'a> {
    /// The text being read.
    pub closed spec fn text(&self) -> Seq<char> {
        self.text@
    }

    /// How many events have been read.
    pub closed spec fn read(&self) -> nat {
        self.read@
    }
}

/// `Reader::from_str`: a reader at the start of `text`.
#[verifier::external_body]
fn xml_reader<'a>(text: &'a str) -> Reader<&'a [u8]> {
    Reader::from_str(text)
}

/// `Reader::trim_text(true)`: white space around text is dropped, and text
/// that is only white space gives no event.
#[verifier::external_body]
fn trim_text<'a>(reader: &mut Reader<&'a [u8]>) {
    reader.trim_text(true);
}

/// `Reader::check_end_names(false)`: an end tag need not match its start tag.
#[verifier::external_body]
fn lenient_end_names<'a>(reader: &mut Reader<&'a [u8]>) {
    reader.check_end_names(false);
}

/// `BytesStart::name` and `BytesStart::attributes`: the tag's raw name, and
/// each attribute as its raw key, its value unescaped by
/// `Attribute::unescape_value` (`None` when that fails) and its raw value;
/// `None` for an attribute that could not be read (a duplicate key, for
/// one). Part of [`read_event`]'s conversion; nothing is stated of it on
/// its own.
#[verifier::external_body]
fn plain_tag(e: &BytesStart) -> XmlTag {
    XmlTag {
        name: e.name().as_ref().to_vec(),
        attributes: e.attributes().map(|a| a.ok().map(|a| XmlAttribute {
            key: a.key.as_ref().to_vec(),
            value: a.unescape_value().ok().map(|v| v.into_owned()),
            raw: a.value.to_vec(),
        })).collect(),
    }
}

/// `Reader::read_event`: the next event of the text, in plain values (tags
/// by [`plain_tag`], text by `BytesText::unescape` and its raw bytes, an
/// error by its message and `Reader::buffer_position`). It is the event
/// numbered by the count of events the cursor has read; the count itself is
/// advanced by [`XmlCursor::next`].
#[verifier::external_body]
fn read_event(c: &mut XmlCursor) -> (ev: OpmlEvent)
    ensures
        ev == xml_event_at(old(c).text(), old(c).read()),
        final(c).text() == old(c).text(),
        final(c).read() == old(c).read(),
{
    match c.reader.read_event() {
        Ok(Event::Start(e)) => OpmlEvent::Start(plain_tag(&e)),
        Ok(Event::Empty(e)) => OpmlEvent::Empty(plain_tag(&e)),
        Ok(Event::Text(e)) => OpmlEvent::Text(e.unescape().ok().map(|t| t.into_owned()), e.to_vec()),
        Ok(Event::End(e)) => OpmlEvent::End(e.name().as_ref().to_vec()),
        Ok(Event::Eof) => OpmlEvent::Eof,
        Ok(_) => OpmlEvent::Other,
        Err(e) => OpmlEvent::Failed(e.to_string(), c.reader.buffer_position()),
    }
}

impl<'a> XmlCursor<'a> {
    /// A cursor at the start of `text`, reading as [`xml_event_at`] says.
    pub fn open(text: &'a str) -> (res: Self)
        ensures
            res.text() == text@,
            res.read() == 0,
    {
        let mut reader = xml_reader(text);
        trim_text(&mut reader);
        lenient_end_names(&mut reader);
        XmlCursor { reader, text: Ghost(text@), read: Ghost(0) }
    }

    /// The next event of the text.
    pub fn next(&mut self) -> (ev: OpmlEvent)
        ensures
            ev == xml_event_at(old(self).text(), old(self).read()),
            final(self).text() == old(self).text(),
            final(self).read() == old(self).read() + 1,
    {
        let ev = read_event(self);
        self.read = Ghost(self.read@ + 1);
        ev
    }
}

} // verus!
