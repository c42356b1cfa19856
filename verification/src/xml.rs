//! Reading XML with `quick_xml`, turned into plain events that the feed
//! parser consumes.

use vstd::prelude::*;

use quick_xml::events::attributes::{AttrError, Attribute, Attributes};
use quick_xml::events::{BytesEnd, BytesStart, BytesText, Event};
use quick_xml::reader::Reader;

use crate::text::{lossy_string, trim_str, trimmed, utf8_lossy};

verus! {

// ---------------------------------------------------------------------------
// Outside types that the reading code carries through

#[verifier::external_type_specification]
#[verifier::external_body]
#[verifier::reject_recursive_types(R)]
pub struct ExXmlReader<R>(Reader<R>);

#[verifier::external_type_specification]
#[verifier::external_body]
pub struct ExBytesStart<'a>(BytesStart<'a>);

#[verifier::external_type_specification]
#[verifier::external_body]
pub struct ExBytesEnd<'a>(BytesEnd<'a>);

#[verifier::external_type_specification]
#[verifier::external_body]
pub struct ExBytesText<'a>(BytesText<'a>);

#[verifier::external_type_specification]
#[verifier::external_body]
pub struct ExAttributes<'a>(Attributes<'a>);

#[verifier::external_type_specification]
#[verifier::external_body]
pub struct ExAttribute<'a>(Attribute<'a>);

#[verifier::external_type_specification]
#[verifier::external_body]
pub struct ExAttrError(AttrError);

// ---------------------------------------------------------------------------
// What quick_xml reads, as plain values

/// An item of a tag's attribute list as `quick_xml` yields it: a malformed
/// attribute, or the local name of the key (raw bytes) and the value with
/// escapes resolved, or the message of the error that resolving them gave.
pub enum AttrItem {
    Malformed,
    Attr { key: Seq<u8>, value: Result<Seq<char>, Seq<char>> },
}

/// An event as `quick_xml` yields it: tag names are local names in raw
/// bytes; text is unescaped (or the unescaping error's message) but not yet
/// trimmed by `str::trim`; `Failed` is a reading error's message.
pub enum RawEventView {
    Start { name: Seq<u8>, attrs: Seq<AttrItem> },
    Empty { name: Seq<u8>, attrs: Seq<AttrItem> },
    Text(Result<Seq<char>, Seq<char>>),
    End { name: Seq<u8> },
    Eof,
    Other,
    Failed(Seq<char>),
}

pub open spec fn terminal(e: RawEventView) -> bool {
    e is Eof || e is Failed
}

/// A stream that ends at its first end-of-input or reading error.
pub open spec fn ends_at_first_stop(s: Seq<RawEventView>) -> bool {
    &&& s.len() > 0
    &&& terminal(s.last())
    &&& forall|i: int| 0 <= i < s.len() - 1 ==> !terminal(#[trigger] s[i])
}

/// The events that `quick_xml` reads from `input` with text trimming on, in
/// order, up to and including the end of input or the first reading error.
/// The stream is taken to stop there: `quick_xml` can go on after an
/// ill-formed input and yields end-of-input again after the end, but nothing
/// here reads past the first stop (`read_raw_event` requires an event ahead).
pub uninterp spec fn xml_events(input: Seq<char>) -> Seq<RawEventView>;

/// The events that a reader has still to yield.
pub uninterp spec fn events_ahead(r: Reader<&[u8]>) -> Seq<RawEventView>;

/// The local name (raw bytes) of an opening or self-closing tag.
pub uninterp spec fn tag_name(e: BytesStart) -> Seq<u8>;

/// The attribute items of an opening or self-closing tag.
pub uninterp spec fn tag_attributes(e: BytesStart) -> Seq<AttrItem>;

/// The local name (raw bytes) of a closing tag.
pub uninterp spec fn end_tag_name(e: BytesEnd) -> Seq<u8>;

/// The unescaped content of a text event, or the unescaping error's message.
pub uninterp spec fn text_content(e: BytesText) -> Result<Seq<char>, Seq<char>>;

/// The attribute items that an attribute iterator has still to yield.
pub uninterp spec fn attributes_ahead(it: Attributes) -> Seq<AttrItem>;

/// The local name (raw bytes) of an attribute's key.
pub uninterp spec fn attribute_key(a: Attribute) -> Seq<u8>;

/// The unescaped value of an attribute, or the unescaping error's message.
pub uninterp spec fn attribute_content(a: Attribute) -> Result<Seq<char>, Seq<char>>;

/// The kinds of `quick_xml` events that the feed parser tells apart.
enum RawEvent<'a> {
    Start(BytesStart<'a>),
    Empty(BytesStart<'a>),
    Text(BytesText<'a>),
    End(BytesEnd<'a>),
    Eof,
    Other,
    Failed(String),
}

/// The event read is the one that the stream held.
spec fn raw_agrees(ev: RawEvent, v: RawEventView) -> bool {
    match (ev, v) {
        (RawEvent::Start(e), RawEventView::Start { name, attrs }) => tag_name(e) == name
            && tag_attributes(e) == attrs,
        (RawEvent::Empty(e), RawEventView::Empty { name, attrs }) => tag_name(e) == name
            && tag_attributes(e) == attrs,
        (RawEvent::Text(e), RawEventView::Text(t)) => text_content(e) == t,
        (RawEvent::End(e), RawEventView::End { name }) => end_tag_name(e) == name,
        (RawEvent::Eof, RawEventView::Eof) => true,
        (RawEvent::Other, RawEventView::Other) => true,
        (RawEvent::Failed(m), RawEventView::Failed(v)) => m@ == v,
        _ => false,
    }
}

/// The attribute read is the item that the iterator held.
spec fn attr_agrees(a: Result<Attribute, AttrError>, v: AttrItem) -> bool {
    match (a, v) {
        (Err(_), AttrItem::Malformed) => true,
        (Ok(a), AttrItem::Attr { key, value }) => attribute_key(a) == key && attribute_content(a)
            == value,
        _ => false,
    }
}

pub open spec fn string_result_view(r: Result<String, String>) -> Result<Seq<char>, Seq<char>> {
    match r {
        Ok(s) => Ok(s@),
        Err(m) => Err(m@),
    }
}

// ---------------------------------------------------------------------------
// Trusted items around quick_xml

/// `quick_xml::reader::Reader::from_str`, then `Config::trim_text(true)` on
/// its configuration: a reader over the text whose text events lose their
/// leading and trailing XML whitespace. The contract claims that the reader
/// yields the events of the text, with the stream taken to stop at the first
/// end of input or reading error (each event but the end consumes input, so
/// that point is reached); the reader itself could go on past it, which no
/// caller does.
#[verifier::external_body]
fn trimming_reader<'a>(xml: &'a str) -> (r: Reader<&'a [u8]>)
    ensures
        events_ahead(r) == xml_events(xml@),
        ends_at_first_stop(events_ahead(r)),
{
    let mut r = Reader::from_str(xml);
    r.config_mut().trim_text(true);
    r
}

/// `quick_xml::reader::Reader::read_event`: the next event of the input,
/// told apart by kind (CDATA, comments, declarations, processing
/// instructions and doctype become `Other`; an error becomes its message).
/// The contract claims that it is the first event the reader had still to
/// yield, and that the reader then has the rest.
#[verifier::external_body]
fn read_raw_event<'a>(reader: &mut Reader<&'a [u8]>) -> (ev: RawEvent<'a>)
    requires
        events_ahead(*old(reader)).len() > 0,
    ensures
        raw_agrees(ev, events_ahead(*old(reader))[0]),
        events_ahead(*final(reader)) == events_ahead(*old(reader)).skip(1),
{
    match reader.read_event() {
        Ok(Event::Start(e)) => RawEvent::Start(e),
        Ok(Event::Empty(e)) => RawEvent::Empty(e),
        Ok(Event::Text(e)) => RawEvent::Text(e),
        Ok(Event::End(e)) => RawEvent::End(e),
        Ok(Event::Eof) => RawEvent::Eof,
        Ok(Event::CData(_)) => RawEvent::Other,
        Ok(Event::Comment(_)) => RawEvent::Other,
        Ok(Event::Decl(_)) => RawEvent::Other,
        Ok(Event::PI(_)) => RawEvent::Other,
        Ok(Event::DocType(_)) => RawEvent::Other,
        Err(e) => RawEvent::Failed(format!("{}", e)),
    }
}

/// `BytesStart::local_name`: the raw bytes of the tag name after any
/// namespace prefix.
#[verifier::external_body]
fn start_local_name(e: &BytesStart) -> (r: Vec<u8>)
    ensures
        r@ == tag_name(*e),
{
    e.local_name().as_ref().to_vec()
}

/// `BytesEnd::local_name`: the raw bytes of the tag name after any
/// namespace prefix.
#[verifier::external_body]
fn end_local_name(e: &BytesEnd) -> (r: Vec<u8>)
    ensures
        r@ == end_tag_name(*e),
{
    e.local_name().as_ref().to_vec()
}

/// `BytesStart::attributes`: an iterator over the tag's attribute items.
#[verifier::external_body]
fn start_attributes<'b>(e: &'b BytesStart) -> (it: Attributes<'b>)
    ensures
        attributes_ahead(it) == tag_attributes(*e),
{
    e.attributes()
}

/// `Attributes::next`: the next attribute item (a malformed one is an
/// error), or the end. The contract claims that it is the first item the
/// iterator had still to yield, and that the iterator then has the rest;
/// at the end it yields nothing and stays at the end.
#[verifier::external_body]
fn next_attribute<'b>(it: &mut Attributes<'b>) -> (r: Option<Result<Attribute<'b>, AttrError>>)
    ensures
        attributes_ahead(*old(it)).len() == 0 ==> r is None && attributes_ahead(*final(it))
            == attributes_ahead(*old(it)),
        attributes_ahead(*old(it)).len() > 0 ==> (r matches Some(a) && attr_agrees(
            a,
            attributes_ahead(*old(it))[0],
        )),
        attributes_ahead(*old(it)).len() > 0 ==> attributes_ahead(*final(it)) == attributes_ahead(
            *old(it),
        ).skip(1),
{
    it.next()
}

/// `QName::local_name` of an attribute's key: its raw bytes after any
/// namespace prefix.
#[verifier::external_body]
fn attribute_local_name(a: &Attribute) -> (r: Vec<u8>)
    ensures
        r@ == attribute_key(*a),
{
    a.key.local_name().as_ref().to_vec()
}

/// `Attribute::unescape_value`: the value with XML escapes resolved, or the
/// message of the error that decoding or unescaping gave.
#[verifier::external_body]
fn attribute_value(a: &Attribute) -> (r: Result<String, String>)
    ensures
        string_result_view(r) == attribute_content(*a),
{
    match a.unescape_value() {
        Ok(v) => Ok(v.into_owned()),
        Err(e) => Err(format!("{}", e)),
    }
}

/// `BytesText::unescape`: the text with XML escapes resolved, or the
/// message of the error that decoding or unescaping gave.
#[verifier::external_body]
fn text_unescaped(e: &BytesText) -> (r: Result<String, String>)
    ensures
        string_result_view(r) == text_content(*e),
{
    match e.unescape() {
        Ok(v) => Ok(v.into_owned()),
        Err(e) => Err(format!("{}", e)),
    }
}

// ---------------------------------------------------------------------------
// Plain events

/// An attribute of a tag: its local name and its unescaped value, or the
/// message of the error that unescaping it gave.
pub struct XmlAttr {
    pub key: String,
    pub value: Result<String, String>,
}

/// One step of reading an XML document, as plain values.
pub enum XmlEvent {
    /// An opening tag: its local name and its well-formed attributes.
    Start { name: String, attrs: Vec<XmlAttr> },
    /// A self-closing tag: its local name and its well-formed attributes.
    Empty { name: String, attrs: Vec<XmlAttr> },
    /// Character data, unescaped and trimmed, or the message of the error
    /// that unescaping it gave.
    Text(Result<String, String>),
    /// A closing tag: its local name.
    End { name: String },
    /// The end of the input.
    Eof,
    /// Anything the feed parser does not look at.
    Other,
    /// The reader failed; the error's message.
    Failed(String),
}

/// Mathematical model of an [`XmlAttr`].
pub struct XmlAttrView {
    pub key: Seq<char>,
    pub value: Result<Seq<char>, Seq<char>>,
}

/// Mathematical model of an [`XmlEvent`].
pub enum XmlEventView {
    Start { name: Seq<char>, attrs: Seq<XmlAttrView> },
    Empty { name: Seq<char>, attrs: Seq<XmlAttrView> },
    Text(Result<Seq<char>, Seq<char>>),
    End { name: Seq<char> },
    Eof,
    Other,
    Failed(Seq<char>),
}

pub open spec fn text_result_view(r: Result<String, String>) -> Result<Seq<char>, Seq<char>> {
    match r {
        Ok(s) => Ok(s@),
        Err(m) => Err(m@),
    }
}

impl View for XmlAttr {
    type V = XmlAttrView;

    open spec fn view(&self) -> XmlAttrView {
        XmlAttrView { key: self.key@, value: text_result_view(self.value) }
    }
}

pub open spec fn attrs_view(a: Seq<XmlAttr>) -> Seq<XmlAttrView> {
    a.map_values(|x: XmlAttr| x@)
}

impl View for XmlEvent {
    type V = XmlEventView;

    open spec fn view(&self) -> XmlEventView {
        match self {
            XmlEvent::Start { name, attrs } => XmlEventView::Start {
                name: name@,
                attrs: attrs_view(attrs@),
            },
            XmlEvent::Empty { name, attrs } => XmlEventView::Empty {
                name: name@,
                attrs: attrs_view(attrs@),
            },
            XmlEvent::Text(t) => XmlEventView::Text(text_result_view(*t)),
            XmlEvent::End { name } => XmlEventView::End { name: name@ },
            XmlEvent::Eof => XmlEventView::Eof,
            XmlEvent::Other => XmlEventView::Other,
            XmlEvent::Failed(m) => XmlEventView::Failed(m@),
        }
    }
}

// ---------------------------------------------------------------------------
// Reading

// ---------------------------------------------------------------------------
// From what quick_xml reads to plain events

/// The well-formed attributes among the items, names decoded (lossily, as
/// UTF-8); malformed items are skipped.
pub open spec fn attrs_of_items(items: Seq<AttrItem>) -> Seq<XmlAttrView>
    decreases items.len(),
{
    if items.len() == 0 {
        Seq::empty()
    } else {
        let rest = attrs_of_items(items.drop_last());
        match items.last() {
            AttrItem::Malformed => rest,
            AttrItem::Attr { key, value } => rest.push(XmlAttrView { key: utf8_lossy(key), value }),
        }
    }
}

/// The plain event made of what `quick_xml` read: names decoded (lossily,
/// as UTF-8), malformed attributes skipped, text trimmed with `str::trim`.
pub open spec fn plain_event(e: RawEventView) -> XmlEventView {
    match e {
        RawEventView::Start { name, attrs } => XmlEventView::Start {
            name: utf8_lossy(name),
            attrs: attrs_of_items(attrs),
        },
        RawEventView::Empty { name, attrs } => XmlEventView::Empty {
            name: utf8_lossy(name),
            attrs: attrs_of_items(attrs),
        },
        RawEventView::Text(Ok(t)) => XmlEventView::Text(Ok(trimmed(t))),
        RawEventView::Text(Err(m)) => XmlEventView::Text(Err(m)),
        RawEventView::End { name } => XmlEventView::End { name: utf8_lossy(name) },
        RawEventView::Eof => XmlEventView::Eof,
        RawEventView::Other => XmlEventView::Other,
        RawEventView::Failed(m) => XmlEventView::Failed(m),
    }
}

/// The plain events of an XML text.
pub open spec fn feed_events(input: Seq<char>) -> Seq<XmlEventView> {
    xml_events(input).map_values(|e: RawEventView| plain_event(e))
}

/// A reader over an XML text whose text events are trimmed.
pub(crate) struct XmlSource<'a> {
    reader: Reader<&'a [u8]>,
}

impl<'a> XmlSource<'a> {
    /// The events that this source has still to yield.
    pub(crate) closed spec fn ahead(&self) -> Seq<RawEventView> {
        events_ahead(self.reader)
    }

    /// A reader over `xml`, set to trim the whitespace around text.
    pub(crate) fn new(xml: &'a str) -> (s: XmlSource<'a>)
        ensures
            s.ahead() == xml_events(xml@),
            ends_at_first_stop(s.ahead()),
    {
        XmlSource { reader: trimming_reader(xml) }
    }

    /// The well-formed attributes of a tag, in order; malformed ones are
    /// skipped.
    fn attributes_of(e: &BytesStart) -> (out: Vec<XmlAttr>)
        ensures
            attrs_view(out@) == attrs_of_items(tag_attributes(*e)),
    {
        let ghost all = tag_attributes(*e);
        let mut out: Vec<XmlAttr> = Vec::new();
        let mut it = start_attributes(e);
        let ghost mut k: int = 0;
        assert(all.take(0) =~= Seq::<AttrItem>::empty());
        assert(attrs_view(out@) =~= Seq::<XmlAttrView>::empty());
        loop
            invariant
                all == tag_attributes(*e),
                0 <= k <= all.len(),
                attributes_ahead(it) == all.skip(k),
                attrs_view(out@) == attrs_of_items(all.take(k)),
            decreases attributes_ahead(it).len(),
        {
            let ghost before = attributes_ahead(it);
            match next_attribute(&mut it) {
                None => {
                    assert(before.len() == 0);
                    assert(all.take(k) =~= all);
                    return out;
                },
                Some(Err(_)) => {
                    proof {
                        assert(all.take(k + 1).drop_last() =~= all.take(k));
                        assert(all.take(k + 1).last() == before[0]);
                        assert(all.skip(k).skip(1) =~= all.skip(k + 1));
                        k = k + 1;
                    }
                },
                Some(Ok(a)) => {
                    let key_bytes = attribute_local_name(&a);
                    let key = lossy_string(key_bytes.as_slice());
                    let value = attribute_value(&a);
                    let ghost old_out = out@;
                    out.push(XmlAttr { key, value });
                    proof {
                        assert(all.take(k + 1).drop_last() =~= all.take(k));
                        assert(all.take(k + 1).last() == before[0]);
                        assert(all.skip(k).skip(1) =~= all.skip(k + 1));
                        assert(attrs_view(out@) =~= attrs_view(old_out).push(out@.last()@));
                        k = k + 1;
                    }
                },
            }
        }
    }

    /// The next event of the input, as plain values.
    pub(crate) fn next_event(&mut self) -> (e: XmlEvent)
        requires
            old(self).ahead().len() > 0,
        ensures
            e@ == plain_event(old(self).ahead()[0]),
            final(self).ahead() == old(self).ahead().skip(1),
    {
        match read_raw_event(&mut self.reader) {
            RawEvent::Failed(msg) => XmlEvent::Failed(msg),
            RawEvent::Start(e) => {
                let name_bytes = start_local_name(&e);
                let name = lossy_string(name_bytes.as_slice());
                let attrs = Self::attributes_of(&e);
                XmlEvent::Start { name, attrs }
            },
            RawEvent::Empty(e) => {
                let name_bytes = start_local_name(&e);
                let name = lossy_string(name_bytes.as_slice());
                let attrs = Self::attributes_of(&e);
                XmlEvent::Empty { name, attrs }
            },
            RawEvent::Text(e) => match text_unescaped(&e) {
                Ok(t) => XmlEvent::Text(Ok(String::from_str(trim_str(t.as_str())))),
                Err(m) => XmlEvent::Text(Err(m)),
            },
            RawEvent::End(e) => {
                let name_bytes = end_local_name(&e);
                XmlEvent::End { name: lossy_string(name_bytes.as_slice()) }
            },
            RawEvent::Eof => XmlEvent::Eof,
            RawEvent::Other => XmlEvent::Other,
        }
    }
}

} // verus!
