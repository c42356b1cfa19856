//! The arXiv Atom feed parser, the arXiv query parameters, and the pacing of
//! requests to the arXiv API.

use vstd::prelude::*;
use vstd::string::*;

use crate::item::{
    items_view, metadata_view, opt_string_view, strings_view, take_last, Item, ItemView, MetaValue,
    MetaValueView,
};
use crate::text::{
    after_last_slash, after_last_slash_of, clone_strings, concat_str, contains_seq, decimal,
    decimal_string, join_seqs, join_strings, parse_u64, parse_u64_spec, str_contains,
    text_is, trim_str, trimmed,
};
use crate::xml::{
    attrs_view, ends_at_first_stop, feed_events, plain_event, terminal, xml_events, RawEventView,
    XmlAttr, XmlAttrView, XmlEvent, XmlEventView, XmlSource,
};

verus! {

// ---------------------------------------------------------------------------
// Model of the feed parser

/// Why a feed could not be turned into items.
#[derive(Debug)]
pub enum FeedError {
    /// The XML reader failed; its message.
    Xml(String),
    /// The feed holds an arXiv API error entry; the entry's summary.
    Api(String),
}

pub enum FeedErrorView {
    Xml(Seq<char>),
    Api(Seq<char>),
}

impl FeedErrorView {
    /// The text that describes the error: the reader's message, or the
    /// arXiv API error's summary after "arXiv API error: ".
    pub open spec fn message(self) -> Seq<char> {
        match self {
            FeedErrorView::Xml(m) => m,
            FeedErrorView::Api(s) => "arXiv API error: "@ + s,
        }
    }
}

impl FeedError {
    /// The text that describes the error.
    pub fn message(&self) -> (r: String)
        ensures
            r@ == self@.message(),
    {
        match self {
            FeedError::Xml(m) => m.clone(),
            FeedError::Api(s) => concat_str("arXiv API error: ", s.as_str()),
        }
    }
}

impl View for FeedError {
    type V = FeedErrorView;

    open spec fn view(&self) -> FeedErrorView {
        match self {
            FeedError::Xml(m) => FeedErrorView::Xml(m@),
            FeedError::Api(s) => FeedErrorView::Api(s@),
        }
    }
}

pub open spec fn outcome_view(r: Result<Vec<Item>, FeedError>) -> Result<Seq<ItemView>, FeedErrorView> {
    match r {
        Ok(v) => Ok(items_view(v@)),
        Err(e) => Err(e@),
    }
}

/// The state of the feed parser between two events.
pub struct FeedModel {
    pub in_entry: bool,
    pub in_author: bool,
    pub cur_tag: Option<Seq<char>>,
    pub id: Seq<char>,
    pub title: Seq<char>,
    pub summary: Seq<char>,
    pub authors: Seq<Seq<char>>,
    pub pdf_url: Option<Seq<char>>,
    pub category: Option<Seq<char>>,
    pub items: Seq<ItemView>,
}

impl FeedModel {
    pub open spec fn initial() -> FeedModel {
        FeedModel {
            in_entry: false,
            in_author: false,
            cur_tag: None,
            id: Seq::empty(),
            title: Seq::empty(),
            summary: Seq::empty(),
            authors: Seq::empty(),
            pdf_url: None,
            category: None,
            items: Seq::empty(),
        }
    }
}

/// What one event does to the parser: go on from a new state, or finish.
pub enum FeedStep {
    Next(FeedModel),
    Finished(Result<Seq<ItemView>, FeedErrorView>),
}

/// The `rel`, `title` and `href` attributes of a link tag (empty where
/// absent, the last one where repeated), or the first unescaping error
/// among its attributes.
pub open spec fn link_fields(attrs: Seq<XmlAttrView>) -> Result<
    (Seq<char>, Seq<char>, Seq<char>),
    Seq<char>,
>
    decreases attrs.len(),
{
    if attrs.len() == 0 {
        Ok((Seq::empty(), Seq::empty(), Seq::empty()))
    } else {
        match link_fields(attrs.drop_last()) {
            Err(m) => Err(m),
            Ok(f) => {
                let a = attrs.last();
                match a.value {
                    Err(m) => Err(m),
                    Ok(v) => if a.key == "rel"@ {
                        Ok((v, f.1, f.2))
                    } else if a.key == "title"@ {
                        Ok((f.0, v, f.2))
                    } else if a.key == "href"@ {
                        Ok((f.0, f.1, v))
                    } else {
                        Ok(f)
                    },
                }
            },
        }
    }
}

/// A link tag inside an entry: its `href` becomes the entry's PDF url when
/// it is the related PDF link.
pub open spec fn apply_link(m: FeedModel, attrs: Seq<XmlAttrView>) -> Result<FeedModel, Seq<char>> {
    match link_fields(attrs) {
        Err(e) => Err(e),
        Ok(f) => if f.0 == "related"@ && f.1 == "pdf"@ {
            Ok(FeedModel { pdf_url: Some(f.2), ..m })
        } else {
            Ok(m)
        },
    }
}

/// The entry's category after a `primary_category` tag: the last `term`
/// attribute's value, or `cur` when it has none; or the first unescaping
/// error of a `term` attribute.
pub open spec fn category_term(attrs: Seq<XmlAttrView>, cur: Option<Seq<char>>) -> Result<
    Option<Seq<char>>,
    Seq<char>,
>
    decreases attrs.len(),
{
    if attrs.len() == 0 {
        Ok(cur)
    } else {
        match category_term(attrs.drop_last(), cur) {
            Err(m) => Err(m),
            Ok(c) => {
                let a = attrs.last();
                if a.key == "term"@ {
                    match a.value {
                        Err(m) => Err(m),
                        Ok(v) => Ok(Some(v)),
                    }
                } else {
                    Ok(c)
                }
            },
        }
    }
}

pub open spec fn apply_category(m: FeedModel, attrs: Seq<XmlAttrView>) -> Result<FeedModel, Seq<char>> {
    match category_term(attrs, m.category) {
        Err(e) => Err(e),
        Ok(c) => Ok(FeedModel { category: c, ..m }),
    }
}

/// The metadata of an entry: its authors when there are any, then its
/// primary category when it has one.
pub open spec fn entry_metadata(authors: Seq<Seq<char>>, category: Option<Seq<char>>) -> Seq<
    (Seq<char>, MetaValueView),
> {
    let a = if authors.len() > 0 {
        seq![("authors"@, MetaValueView::TextList(authors))]
    } else {
        Seq::empty()
    };
    let c = match category {
        Some(t) => seq![("primary_category"@, MetaValueView::Text(t))],
        None => Seq::empty(),
    };
    a + c
}

/// What the ids of arXiv items start with.
pub const ARXIV_ID_PREFIX: &'static str = "arxiv:";

/// The item that a closed entry yields; its id is the arXiv id (the text
/// after the last `/` of the entry's id url) prefixed with the source.
pub open spec fn entry_item(m: FeedModel) -> ItemView {
    ItemView {
        id: ARXIV_ID_PREFIX@ + after_last_slash(m.id),
        source: "arxiv"@,
        title: m.title,
        text: m.title + "\n\n"@ + m.summary,
        url: match m.pdf_url {
            Some(u) => Some(u),
            None => Some(m.id),
        },
        metadata: entry_metadata(m.authors, m.category),
    }
}

pub open spec fn start_tag(m: FeedModel, name: Seq<char>, attrs: Seq<XmlAttrView>) -> Result<
    FeedModel,
    Seq<char>,
> {
    if name == "entry"@ {
        Ok(
            FeedModel {
                in_entry: true,
                id: Seq::empty(),
                title: Seq::empty(),
                summary: Seq::empty(),
                authors: Seq::empty(),
                pdf_url: None,
                category: None,
                ..m
            },
        )
    } else if name == "author"@ {
        Ok(FeedModel { in_author: true, ..m })
    } else if name == "link"@ && m.in_entry {
        apply_link(m, attrs)
    } else if name == "primary_category"@ && m.in_entry {
        apply_category(m, attrs)
    } else {
        Ok(m)
    }
}

pub open spec fn empty_tag(m: FeedModel, name: Seq<char>, attrs: Seq<XmlAttrView>) -> Result<
    FeedModel,
    Seq<char>,
> {
    if m.in_entry && name == "link"@ {
        apply_link(m, attrs)
    } else if m.in_entry && name == "primary_category"@ {
        apply_category(m, attrs)
    } else {
        Ok(m)
    }
}

/// Non-empty text goes to the field that the enclosing tag names.
pub open spec fn text_in(m: FeedModel, t: Seq<char>) -> FeedModel {
    if t.len() == 0 {
        m
    } else {
        match m.cur_tag {
            Some(tag) => if tag == "id"@ && m.in_entry && !m.in_author {
                FeedModel { id: t, ..m }
            } else if tag == "title"@ && m.in_entry {
                FeedModel { title: t, ..m }
            } else if tag == "summary"@ && m.in_entry {
                FeedModel { summary: t, ..m }
            } else if tag == "name"@ && m.in_author {
                FeedModel { authors: m.authors.push(t), ..m }
            } else {
                m
            },
            None => m,
        }
    }
}

pub open spec fn end_tag(m: FeedModel, name: Seq<char>) -> FeedStep {
    if name == "entry"@ {
        if contains_seq(m.id, "/api/errors"@) {
            FeedStep::Finished(Err(FeedErrorView::Api(m.summary)))
        } else {
            FeedStep::Next(
                FeedModel { in_entry: false, cur_tag: None, items: m.items.push(entry_item(m)), ..m },
            )
        }
    } else if name == "author"@ {
        FeedStep::Next(FeedModel { in_author: false, cur_tag: None, ..m })
    } else {
        FeedStep::Next(FeedModel { cur_tag: None, ..m })
    }
}

/// What one event does to the feed parser.
pub open spec fn feed_step(m: FeedModel, e: XmlEventView) -> FeedStep {
    match e {
        XmlEventView::Eof => FeedStep::Finished(Ok(m.items)),
        XmlEventView::Failed(msg) => FeedStep::Finished(Err(FeedErrorView::Xml(msg))),
        XmlEventView::Other => FeedStep::Next(m),
        XmlEventView::Start { name, attrs } => match start_tag(m, name, attrs) {
            Err(msg) => FeedStep::Finished(Err(FeedErrorView::Xml(msg))),
            Ok(m2) => FeedStep::Next(FeedModel { cur_tag: Some(name), ..m2 }),
        },
        XmlEventView::Empty { name, attrs } => match empty_tag(m, name, attrs) {
            Err(msg) => FeedStep::Finished(Err(FeedErrorView::Xml(msg))),
            Ok(m2) => FeedStep::Next(m2),
        },
        XmlEventView::Text(Err(msg)) => FeedStep::Finished(Err(FeedErrorView::Xml(msg))),
        XmlEventView::Text(Ok(t)) => FeedStep::Next(text_in(m, t)),
        XmlEventView::End { name } => end_tag(m, name),
    }
}

/// The parser after a sequence of events, or how it finished.
pub open spec fn feed_fold(m: FeedModel, evs: Seq<XmlEventView>) -> FeedStep
    decreases evs.len(),
{
    if evs.len() == 0 {
        FeedStep::Next(m)
    } else {
        match feed_fold(m, evs.drop_last()) {
            FeedStep::Finished(r) => FeedStep::Finished(r),
            FeedStep::Next(m2) => feed_step(m2, evs.last()),
        }
    }
}

/// The outcome of parsing a list of events, the list's end counting as the
/// end of input.
pub open spec fn feed_of_events(evs: Seq<XmlEventView>) -> Result<Seq<ItemView>, FeedErrorView> {
    match feed_fold(FeedModel::initial(), evs) {
        FeedStep::Finished(r) => r,
        FeedStep::Next(m) => Ok(m.items),
    }
}

} // verus!

verus! {

// ---------------------------------------------------------------------------
// The feed parser

proof fn lemma_link_fields_error_stays(attrs: Seq<XmlAttrView>, n: int)
    requires
        0 <= n <= attrs.len(),
        link_fields(attrs.take(n)) is Err,
    ensures
        link_fields(attrs) == link_fields(attrs.take(n)),
    decreases attrs.len(),
{
    if n == attrs.len() {
        assert(attrs.take(n) =~= attrs);
    } else {
        assert(attrs.drop_last().take(n) =~= attrs.take(n));
        lemma_link_fields_error_stays(attrs.drop_last(), n);
    }
}

proof fn lemma_category_term_error_stays(attrs: Seq<XmlAttrView>, cur: Option<Seq<char>>, n: int)
    requires
        0 <= n <= attrs.len(),
        category_term(attrs.take(n), cur) is Err,
    ensures
        category_term(attrs, cur) == category_term(attrs.take(n), cur),
    decreases attrs.len(),
{
    if n == attrs.len() {
        assert(attrs.take(n) =~= attrs);
    } else {
        assert(attrs.drop_last().take(n) =~= attrs.take(n));
        lemma_category_term_error_stays(attrs.drop_last(), cur, n);
    }
}

/// The `rel`, `title` and `href` of a link tag's attributes.
fn scan_link(attrs: &Vec<XmlAttr>) -> (r: Result<(String, String, String), String>)
    ensures
        r matches Ok(f) ==> link_fields(attrs_view(attrs@)) == Ok::<(Seq<char>, Seq<char>, Seq<char>), Seq<char>>((f.0@, f.1@, f.2@)),
        r matches Err(m) ==> link_fields(attrs_view(attrs@)) == Err::<(Seq<char>, Seq<char>, Seq<char>), Seq<char>>(m@),
{
    let ghost av = attrs_view(attrs@);
    let mut rel = String::new();
    let mut title = String::new();
    let mut href = String::new();
    let mut i: usize = 0;
    assert(av.take(0) =~= Seq::<XmlAttrView>::empty());
    while i < attrs.len()
        invariant
            av == attrs_view(attrs@),
            i <= attrs@.len(),
            link_fields(av.take(i as int)) == Ok::<(Seq<char>, Seq<char>, Seq<char>), Seq<char>>((rel@, title@, href@)),
        decreases attrs.len() - i,
    {
        assert(av.take(i + 1).drop_last() =~= av.take(i as int));
        assert(av.take(i + 1).last() == attrs@[i as int]@);
        let a = &attrs[i];
        match &a.value {
            Err(m) => {
                proof {
                    lemma_link_fields_error_stays(av, i + 1);
                }
                return Err(m.clone());
            },
            Ok(v) => {
                if text_is(&a.key, "rel") {
                    rel = v.clone();
                } else if text_is(&a.key, "title") {
                    title = v.clone();
                } else if text_is(&a.key, "href") {
                    href = v.clone();
                }
            },
        }
        i = i + 1;
    }
    assert(av.take(attrs@.len() as int) =~= av);
    Ok((rel, title, href))
}

/// The category after a `primary_category` tag's attributes.
fn scan_category(attrs: &Vec<XmlAttr>, cur: &Option<String>) -> (r: Result<Option<String>, String>)
    ensures
        r matches Ok(c) ==> category_term(attrs_view(attrs@), opt_string_view(*cur)) == Ok::<Option<Seq<char>>, Seq<char>>(opt_string_view(c)),
        r matches Err(m) ==> category_term(attrs_view(attrs@), opt_string_view(*cur)) == Err::<Option<Seq<char>>, Seq<char>>(m@),
{
    let ghost av = attrs_view(attrs@);
    let ghost c0 = opt_string_view(*cur);
    let mut c: Option<String> = match cur {
        Some(s) => Some(s.clone()),
        None => None,
    };
    let mut i: usize = 0;
    assert(av.take(0) =~= Seq::<XmlAttrView>::empty());
    while i < attrs.len()
        invariant
            av == attrs_view(attrs@),
            i <= attrs@.len(),
            c0 == opt_string_view(*cur),
            category_term(av.take(i as int), c0) == Ok::<Option<Seq<char>>, Seq<char>>(opt_string_view(c)),
        decreases attrs.len() - i,
    {
        assert(av.take(i + 1).drop_last() =~= av.take(i as int));
        assert(av.take(i + 1).last() == attrs@[i as int]@);
        let a = &attrs[i];
        if text_is(&a.key, "term") {
            match &a.value {
                Err(m) => {
                    proof {
                        lemma_category_term_error_stays(av, c0, i + 1);
                    }
                    return Err(m.clone());
                },
                Ok(v) => {
                    c = Some(v.clone());
                },
            }
        }
        i = i + 1;
    }
    assert(av.take(attrs@.len() as int) =~= av);
    Ok(c)
}

/// The state of a feed parser between two events.
pub struct FeedParser {
    in_entry: bool,
    in_author: bool,
    cur_tag: Option<String>,
    id: String,
    title: String,
    summary: String,
    authors: Vec<String>,
    pdf_url: Option<String>,
    category: Option<String>,
    items: Vec<Item>,
}

/// A parser that goes on, or the outcome it finished with.
pub enum Stepped {
    Continue(FeedParser),
    Done(Result<Vec<Item>, FeedError>),
}

impl FeedParser {
    pub closed spec fn model(&self) -> FeedModel {
        FeedModel {
            in_entry: self.in_entry,
            in_author: self.in_author,
            cur_tag: opt_string_view(self.cur_tag),
            id: self.id@,
            title: self.title@,
            summary: self.summary@,
            authors: strings_view(self.authors@),
            pdf_url: opt_string_view(self.pdf_url),
            category: opt_string_view(self.category),
            items: items_view(self.items@),
        }
    }

    /// A parser that has seen no event yet.
    pub fn new() -> (p: FeedParser)
        ensures
            p.model() == FeedModel::initial(),
    {
        let p = FeedParser {
            in_entry: false,
            in_author: false,
            cur_tag: None,
            id: String::new(),
            title: String::new(),
            summary: String::new(),
            authors: Vec::new(),
            pdf_url: None,
            category: None,
            items: Vec::new(),
        };
        assert(strings_view(p.authors@) =~= Seq::<Seq<char>>::empty());
        assert(items_view(p.items@) =~= Seq::<ItemView>::empty());
        p
    }

    /// The item of the entry that is being closed.
    fn entry_item(&self) -> (it: Item)
        ensures
            it@ == entry_item(self.model()),
    {
        let bare = after_last_slash_of(self.id.as_str());
        let id = concat_str(ARXIV_ID_PREFIX, bare.as_str());
        let source = String::from_str("arxiv");
        let title = self.title.clone();
        let mut text = self.title.clone();
        text.append("\n\n");
        text.append(self.summary.as_str());
        let url = match &self.pdf_url {
            Some(u) => Some(u.clone()),
            None => Some(self.id.clone()),
        };
        let mut metadata: Vec<(String, MetaValue)> = Vec::new();
        let ghost m = self.model();
        if self.authors.len() > 0 {
            metadata.push((String::from_str("authors"), MetaValue::TextList(clone_strings(&self.authors))));
        }
        let ghost a = metadata@;
        match &self.category {
            Some(c) => {
                metadata.push((String::from_str("primary_category"), MetaValue::Text(c.clone())));
            },
            None => {},
        }
        assert(metadata_view(metadata@) =~= entry_metadata(m.authors, m.category));
        Item { id, source, title, text, url, metadata }
    }

    /// Feeds one event to the parser.
    pub fn step(self, ev: XmlEvent) -> (r: Stepped)
        ensures
            match feed_step(self.model(), ev@) {
                FeedStep::Next(m) => r matches Stepped::Continue(p) && p.model() == m,
                FeedStep::Finished(o) => r matches Stepped::Done(out) && outcome_view(out) == o,
            },
    {
        let mut p = self;
        let ghost m0 = p.model();
        match ev {
            XmlEvent::Eof => Stepped::Done(Ok(p.items)),
            XmlEvent::Failed(msg) => Stepped::Done(Err(FeedError::Xml(msg))),
            XmlEvent::Other => Stepped::Continue(p),
            XmlEvent::Start { name, attrs } => {
                if text_is(&name, "entry") {
                    p.in_entry = true;
                    p.id = String::new();
                    p.title = String::new();
                    p.summary = String::new();
                    p.authors = Vec::new();
                    p.pdf_url = None;
                    p.category = None;
                    assert(strings_view(p.authors@) =~= Seq::<Seq<char>>::empty());
                } else if text_is(&name, "author") {
                    p.in_author = true;
                } else if text_is(&name, "link") && p.in_entry {
                    match scan_link(&attrs) {
                        Err(msg) => {
                            return Stepped::Done(Err(FeedError::Xml(msg)));
                        },
                        Ok(f) => {
                            if text_is(&f.0, "related") && text_is(&f.1, "pdf") {
                                p.pdf_url = Some(f.2);
                            }
                        },
                    }
                } else if text_is(&name, "primary_category") && p.in_entry {
                    match scan_category(&attrs, &p.category) {
                        Err(msg) => {
                            return Stepped::Done(Err(FeedError::Xml(msg)));
                        },
                        Ok(c) => {
                            p.category = c;
                        },
                    }
                }
                p.cur_tag = Some(name);
                Stepped::Continue(p)
            },
            XmlEvent::Empty { name, attrs } => {
                if p.in_entry && text_is(&name, "link") {
                    match scan_link(&attrs) {
                        Err(msg) => {
                            return Stepped::Done(Err(FeedError::Xml(msg)));
                        },
                        Ok(f) => {
                            if text_is(&f.0, "related") && text_is(&f.1, "pdf") {
                                p.pdf_url = Some(f.2);
                            }
                        },
                    }
                } else if p.in_entry && text_is(&name, "primary_category") {
                    match scan_category(&attrs, &p.category) {
                        Err(msg) => {
                            return Stepped::Done(Err(FeedError::Xml(msg)));
                        },
                        Ok(c) => {
                            p.category = c;
                        },
                    }
                }
                Stepped::Continue(p)
            },
            XmlEvent::Text(Err(msg)) => Stepped::Done(Err(FeedError::Xml(msg))),
            XmlEvent::Text(Ok(t)) => {
                if t.as_str().is_empty() {
                    return Stepped::Continue(p);
                }
                let target: u8 = match &p.cur_tag {
                    Some(tag) => if text_is(tag, "id") && p.in_entry && !p.in_author {
                        1
                    } else if text_is(tag, "title") && p.in_entry {
                        2
                    } else if text_is(tag, "summary") && p.in_entry {
                        3
                    } else if text_is(tag, "name") && p.in_author {
                        4
                    } else {
                        0
                    },
                    None => 0,
                };
                if target == 1 {
                    p.id = t;
                } else if target == 2 {
                    p.title = t;
                } else if target == 3 {
                    p.summary = t;
                } else if target == 4 {
                    p.authors.push(t);
                    assert(strings_view(p.authors@) =~= m0.authors.push(t@));
                }
                Stepped::Continue(p)
            },
            XmlEvent::End { name } => {
                if text_is(&name, "entry") {
                    p.in_entry = false;
                    if str_contains(p.id.as_str(), "/api/errors") {
                        return Stepped::Done(Err(FeedError::Api(p.summary)));
                    }
                    let item = p.entry_item();
                    p.items.push(item);
                    assert(items_view(p.items@) =~= m0.items.push(entry_item(m0)));
                } else if text_is(&name, "author") {
                    p.in_author = false;
                }
                p.cur_tag = None;
                Stepped::Continue(p)
            },
        }
    }
}

} // verus!

verus! {

// ---------------------------------------------------------------------------
// Whole feeds

pub open spec fn events_view(s: Seq<XmlEvent>) -> Seq<XmlEventView> {
    s.map_values(|e: XmlEvent| e@)
}

/// Parses a feed given as a list of events; the end of the list counts as
/// the end of the input.
pub fn feed_from_events(events: Vec<XmlEvent>) -> (r: Result<Vec<Item>, FeedError>)
    ensures
        outcome_view(r) == feed_of_events(events_view(events@)),
        r matches Ok(v) ==> arxiv_items(items_view(v@)),
{
    let ghost all = events_view(events@);
    let mut rest = events;
    let mut p = FeedParser::new();
    let ghost mut done: int = 0;
    while rest.len() > 0
        invariant
            all == events_view(events@),
            0 <= done <= all.len(),
            events_view(rest@) == all.skip(done),
            feed_fold(FeedModel::initial(), all.take(done)) == FeedStep::Next(p.model()),
        decreases rest.len(),
    {
        let ghost before = rest@;
        assert(events_view(rest@).len() == rest@.len());
        assert(events_view(rest@)[0] == rest@[0]@);
        let ev = rest.remove(0);
        proof {
            assert(all.skip(done)[0] == ev@);
            assert(all.take(done + 1).drop_last() =~= all.take(done));
            assert(all.take(done + 1).last() == ev@);
            assert forall|k: int| 0 <= k < rest@.len() implies #[trigger] events_view(rest@)[k]
                == all.skip(done + 1)[k] by {
                assert(rest@[k] == before[k + 1]);
                assert(events_view(before)[k + 1] == all.skip(done)[k + 1]);
            }
            assert(events_view(rest@) =~= all.skip(done + 1));
            done = done + 1;
        }
        match p.step(ev) {
            Stepped::Continue(q) => {
                p = q;
            },
            Stepped::Done(out) => {
                proof {
                    lemma_feed_fold_finished_stays(FeedModel::initial(), all, done);
                    law_feed_items(all);
                }
                return out;
            },
        }
    }
    proof {
        assert(all.skip(done).len() == 0);
        assert(all.take(done) =~= all);
        law_feed_items(all);
    }
    Ok(p.items_of())
}

proof fn lemma_feed_fold_finished_stays(m: FeedModel, evs: Seq<XmlEventView>, n: int)
    requires
        0 <= n <= evs.len(),
        feed_fold(m, evs.take(n)) is Finished,
    ensures
        feed_fold(m, evs) == feed_fold(m, evs.take(n)),
    decreases evs.len(),
{
    if n == evs.len() {
        assert(evs.take(n) =~= evs);
    } else {
        assert(evs.drop_last().take(n) =~= evs.take(n));
        lemma_feed_fold_finished_stays(m, evs.drop_last(), n);
    }
}

impl FeedParser {
    /// The items collected so far.
    pub fn items_of(self) -> (v: Vec<Item>)
        ensures
            items_view(v@) == self.model().items,
    {
        self.items
    }
}

/// Parses an arXiv Atom feed into items, one per `entry`, in document order:
/// the outcome that the feed parser gives for the events that `quick_xml`
/// reads from the text (with text trimmed).
pub fn parse_feed(xml: &str) -> (r: Result<Vec<Item>, FeedError>)
    ensures
        outcome_view(r) == feed_of_events(feed_events(xml@)),
        r matches Ok(v) ==> arxiv_items(items_view(v@)),
{
    let mut source = XmlSource::new(xml);
    let mut p = FeedParser::new();
    let ghost raw = xml_events(xml@);
    let ghost evs = feed_events(xml@);
    let ghost mut n: int = 0;
    assert(evs.take(0) =~= Seq::<XmlEventView>::empty());
    loop
        invariant
            raw == xml_events(xml@),
            evs == feed_events(xml@),
            evs == raw.map_values(|e: RawEventView| plain_event(e)),
            ends_at_first_stop(raw),
            0 <= n < raw.len(),
            source.ahead() == raw.skip(n),
            feed_fold(FeedModel::initial(), evs.take(n)) == FeedStep::Next(p.model()),
        decreases raw.len() - n,
    {
        let ev = source.next_event();
        proof {
            assert(raw.skip(n)[0] == raw[n]);
            assert(evs[n] == plain_event(raw[n]));
            assert(evs.take(n + 1).drop_last() =~= evs.take(n));
            assert(evs.take(n + 1).last() == ev@);
            assert(raw.skip(n).skip(1) =~= raw.skip(n + 1));
        }
        match p.step(ev) {
            Stepped::Continue(q) => {
                p = q;
                proof {
                    // end of input and reading errors always finish the parser
                    assert(!terminal(raw[n]));
                    n = n + 1;
                }
            },
            Stepped::Done(out) => {
                proof {
                    lemma_feed_fold_finished_stays(FeedModel::initial(), evs, n + 1);
                    law_feed_items(evs);
                }
                return out;
            },
        }
    }
}

pub open spec fn last_view(items: Seq<ItemView>) -> Option<ItemView> {
    if items.len() == 0 {
        None
    } else {
        Some(items.last())
    }
}

pub open spec fn opt_item_view(o: Option<Item>) -> Option<ItemView> {
    match o {
        Some(i) => Some(i@),
        None => None,
    }
}

/// The last item of a feed (what the arXiv scraper's `get` returns for the
/// feed of an id lookup).
pub fn last_item_of_feed(xml: &str) -> (r: Result<Option<Item>, FeedError>)
    ensures
        match feed_of_events(feed_events(xml@)) {
            Ok(items) => r matches Ok(o) && opt_item_view(o) == last_view(items),
            Err(e) => r matches Err(x) && x@ == e,
        },
        r matches Ok(Some(i)) ==> i@.wf() && i@.source == "arxiv"@,
        match feed_of_events(feed_events(xml@)) {
            Ok(items) => (items.len() == 0 <==> r matches Ok(None)) && (items.len() > 0 ==> (r matches Ok(
                Some(i),
            ) && i@ == items[items.len() - 1])),
            Err(_) => true,
        },
{
    match parse_feed(xml) {
        Ok(items) => {
            let ghost iv = items_view(items@);
            let last = take_last(items);
            assert(opt_item_view(last) == last_view(iv));
            Ok(last)
        },
        Err(e) => Err(e),
    }
}

} // verus!

verus! {

// ---------------------------------------------------------------------------
// Requests to the arXiv API

/// The query endpoint of the arXiv API.
pub const ARXIV_API_URL: &'static str = "http://export.arxiv.org/api/query";

/// The name of the arXiv source.
pub const ARXIV_SOURCE: &'static str = "arxiv";

/// The style hint of the arXiv source.
pub const ARXIV_STYLE_HINT: &'static str =
    "formal academic phrasing; technical terminology from paper titles/abstracts";

/// The most results that one search asks for.
pub const ARXIV_MAX_RESULTS: u32 = 2000;

pub open spec fn pairs_view(s: Seq<(String, String)>) -> Seq<(Seq<char>, Seq<char>)> {
    s.map_values(|p: (String, String)| (p.0@, p.1@))
}

pub open spec fn min_u32(a: u32, b: u32) -> u32 {
    if a <= b {
        a
    } else {
        b
    }
}

/// The search expression: each keyword searched in all fields, any of them
/// matching.
pub open spec fn arxiv_search_query(keywords: Seq<Seq<char>>) -> Seq<char> {
    join_seqs(keywords.map_values(|k: Seq<char>| "all:"@ + k), " OR "@)
}

/// The query parameters of a search for `keywords` asking for at most
/// `limit` results (capped at [`ARXIV_MAX_RESULTS`]).
pub fn arxiv_search_params(keywords: &Vec<String>, limit: u32) -> (r: Vec<(String, String)>)
    ensures
        pairs_view(r@) == seq![
            ("search_query"@, arxiv_search_query(strings_view(keywords@))),
            ("start"@, "0"@),
            ("max_results"@, decimal(min_u32(limit, ARXIV_MAX_RESULTS) as nat)),
        ],
{
    let ghost ks = strings_view(keywords@);
    let mut terms: Vec<String> = Vec::new();
    let mut i: usize = 0;
    while i < keywords.len()
        invariant
            ks == strings_view(keywords@),
            i <= keywords@.len(),
            terms@.len() == i,
            forall|k: int| 0 <= k < i ==> (#[trigger] terms@[k])@ == "all:"@ + keywords@[k]@,
        decreases keywords.len() - i,
    {
        terms.push(concat_str("all:", keywords[i].as_str()));
        i = i + 1;
    }
    assert(strings_view(terms@) =~= ks.map_values(|k: Seq<char>| "all:"@ + k));
    let query = join_strings(&terms, " OR ");
    let max_results: u32 = if limit <= ARXIV_MAX_RESULTS { limit } else { ARXIV_MAX_RESULTS };
    let mut r: Vec<(String, String)> = Vec::new();
    r.push((String::from_str("search_query"), query));
    r.push((String::from_str("start"), String::from_str("0")));
    r.push((String::from_str("max_results"), decimal_string(max_results as u64)));
    assert(pairs_view(r@) =~= seq![
        ("search_query"@, arxiv_search_query(ks)),
        ("start"@, "0"@),
        ("max_results"@, decimal(min_u32(limit, ARXIV_MAX_RESULTS) as nat)),
    ]);
    r
}

/// The query parameters of a lookup of one paper by its arXiv id.
pub fn arxiv_get_params(id: &str) -> (r: Vec<(String, String)>)
    ensures
        pairs_view(r@) == seq![("id_list"@, id@)],
{
    let mut r: Vec<(String, String)> = Vec::new();
    r.push((String::from_str("id_list"), String::from_str(id)));
    assert(pairs_view(r@) =~= seq![("id_list"@, id@)]);
    r
}

// ---------------------------------------------------------------------------
// Pacing of requests

/// The least time between two requests to the arXiv API, in nanoseconds.
pub const MIN_REQUEST_GAP_NANOS: u64 = 3_000_000_000;

/// The later of two optional instants.
pub open spec fn latest(a: Option<i128>, b: Option<i128>) -> Option<i128> {
    match (a, b) {
        (Some(x), Some(y)) => Some(if x >= y { x } else { y }),
        (Some(x), None) => Some(x),
        (None, Some(y)) => Some(y),
        (None, None) => None,
    }
}

/// How long to wait before a request at `now` when the last one was at
/// `last`: the rest of the minimum gap, or nothing when the gap has passed,
/// there was no request, or the last request lies in the future.
pub open spec fn wait_before_request(last: Option<i128>, now: i128) -> int {
    match last {
        Some(l) => if l <= now && now - l < MIN_REQUEST_GAP_NANOS {
            MIN_REQUEST_GAP_NANOS - (now - l)
        } else {
            0
        },
        None => 0,
    }
}

/// How many nanoseconds to wait before the next request, given the last
/// request this process made, the last one recorded on disk, and the
/// current time (instants in nanoseconds since the Unix epoch).
pub fn request_wait_nanos(memory_last: Option<i128>, disk_last: Option<i128>, now: i128) -> (w: u64)
    ensures
        w == wait_before_request(latest(memory_last, disk_last), now),
{
    let last: Option<i128> = match (memory_last, disk_last) {
        (Some(a), Some(b)) => Some(if a >= b { a } else { b }),
        (Some(a), None) => Some(a),
        (None, Some(b)) => Some(b),
        (None, None) => None,
    };
    match last {
        Some(l) => {
            if l <= now {
                let gap: i128 = MIN_REQUEST_GAP_NANOS as i128;
                // compare without leaving the range of `i128`
                if l < 0 {
                    if now < l + gap {
                        (l + gap - now) as u64
                    } else {
                        0
                    }
                } else if now - l < gap {
                    (gap - (now - l)) as u64
                } else {
                    0
                }
            } else {
                0
            }
        },
        None => 0,
    }
}

/// The instant stored in the pacing file: a whole number of seconds since
/// the Unix epoch, with whitespace around it allowed.
pub fn parse_stamp(contents: &str) -> (r: Option<u64>)
    ensures
        r == parse_u64_spec(trimmed(contents@)),
{
    parse_u64(trim_str(contents))
}

} // verus!

verus! {

// ---------------------------------------------------------------------------
// Laws

/// Pacing: when the recorded requests are not later than `now`, waiting the
/// returned time puts at least the minimum gap after each of them, and the
/// wait is never longer than the gap itself; with no recorded request there
/// is no wait.
pub proof fn law_wait_keeps_gap(memory_last: Option<i128>, disk_last: Option<i128>, now: i128)
    requires
        memory_last matches Some(m) ==> m <= now,
        disk_last matches Some(d) ==> d <= now,
    ensures
        ({
            let w = wait_before_request(latest(memory_last, disk_last), now);
            &&& 0 <= w <= MIN_REQUEST_GAP_NANOS
            &&& memory_last matches Some(m) ==> now + w - m >= MIN_REQUEST_GAP_NANOS
            &&& disk_last matches Some(d) ==> now + w - d >= MIN_REQUEST_GAP_NANOS
            &&& (memory_last is None && disk_last is None) ==> w == 0
        }),
{
}

/// Number of closing `entry` tags among the events.
pub open spec fn closed_entries(evs: Seq<XmlEventView>) -> nat
    decreases evs.len(),
{
    if evs.len() == 0 {
        0
    } else {
        closed_entries(evs.drop_last()) + match evs.last() {
            XmlEventView::End { name } => if name == "entry"@ {
                1nat
            } else {
                0nat
            },
            _ => 0nat,
        }
    }
}

/// Every item that the feed parser holds is well formed (no metadata key
/// twice) and comes from arXiv.
pub open spec fn arxiv_items(items: Seq<ItemView>) -> bool {
    forall|i: int| 0 <= i < items.len() ==> (#[trigger] items[i]).wf() && items[i].source == "arxiv"@
}

proof fn lemma_entry_item_wf(m: FeedModel)
    ensures
        entry_item(m).wf(),
{
    reveal_strlit("authors");
    reveal_strlit("primary_category");
    let md = entry_metadata(m.authors, m.category);
    assert forall|i: int, j: int| 0 <= i < j < md.len() implies md[i].0 != md[j].0 by {
        assert(md[i].0 == "authors"@);
        assert(md[j].0 == "primary_category"@);
    }
}

proof fn lemma_step_keeps_items(m: FeedModel, e: XmlEventView)
    requires
        arxiv_items(m.items),
    ensures
        match feed_step(m, e) {
            FeedStep::Next(m2) => arxiv_items(m2.items) && m2.items.len() == m.items.len() + match e {
                XmlEventView::End { name } => if name == "entry"@ {
                    1nat
                } else {
                    0nat
                },
                _ => 0nat,
            },
            FeedStep::Finished(Ok(items)) => arxiv_items(items) && items == m.items,
            FeedStep::Finished(Err(_)) => true,
        },
{
    lemma_entry_item_wf(m);
    reveal_strlit("arxiv");
    match e {
        XmlEventView::End { name } => {
            if name == "entry"@ && !contains_seq(m.id, "/api/errors"@) {
                let items = m.items.push(entry_item(m));
                assert forall|i: int| 0 <= i < items.len() implies (#[trigger] items[i]).wf()
                    && items[i].source == "arxiv"@ by {
                    if i < m.items.len() {
                        assert(items[i] == m.items[i]);
                    }
                }
            }
        },
        _ => {},
    }
}

/// The feed parser keeps one item per closed entry, in document order, and
/// every item is well formed and comes from arXiv; a feed that ends
/// normally returns exactly those items.
pub proof fn law_feed_items(evs: Seq<XmlEventView>)
    ensures
        match feed_fold(FeedModel::initial(), evs) {
            FeedStep::Next(m) => arxiv_items(m.items) && m.items.len() == closed_entries(evs),
            FeedStep::Finished(Ok(items)) => arxiv_items(items),
            FeedStep::Finished(Err(_)) => true,
        },
    decreases evs.len(),
{
    if evs.len() > 0 {
        law_feed_items(evs.drop_last());
        match feed_fold(FeedModel::initial(), evs.drop_last()) {
            FeedStep::Next(m) => {
                lemma_step_keeps_items(m, evs.last());
            },
            _ => {},
        }
    }
}

} // verus!

verus! {

/// An entry whose id marks an arXiv API error stops the parse: once the
/// events before it leave the parser in state `m`, the whole feed fails
/// with that entry's summary, whatever follows, and no item is returned;
/// the error reads "arXiv API error: " followed by the summary.
pub proof fn law_api_error_stops_feed(evs: Seq<XmlEventView>, n: int, m: FeedModel)
    requires
        0 <= n < evs.len(),
        feed_fold(FeedModel::initial(), evs.take(n)) == FeedStep::Next(m),
        evs[n] == (XmlEventView::End { name: "entry"@ }),
        contains_seq(m.id, "/api/errors"@),
    ensures
        feed_of_events(evs) == Err::<Seq<ItemView>, FeedErrorView>(FeedErrorView::Api(m.summary)),
        FeedErrorView::Api(m.summary).message() == "arXiv API error: "@ + m.summary,
{
    assert(evs.take(n + 1).drop_last() =~= evs.take(n));
    assert(evs.take(n + 1).last() == evs[n]);
    lemma_feed_fold_finished_stays(FeedModel::initial(), evs, n + 1);
}

} // verus!

verus! {

/// Only a `primary_category` tag sets an entry's category: any other tag
/// (a plain `category` tag, say) that opens, closes itself or carries text
/// leaves it as it was, except an `entry` tag, which starts a new entry
/// with none.
pub proof fn law_category_only_from_its_tag(m: FeedModel, e: XmlEventView)
    ensures
        match e {
            XmlEventView::Start { name, attrs } => name != "primary_category"@ && name != "entry"@
                ==> (feed_step(m, e) matches FeedStep::Next(m2) ==> m2.category == m.category),
            XmlEventView::Empty { name, attrs } => name != "primary_category"@ ==> (feed_step(m, e) matches FeedStep::Next(m2)
                ==> m2.category == m.category),
            _ => feed_step(m, e) matches FeedStep::Next(m2) ==> m2.category == m.category,
        },
{
}

/// Inside an entry, a `primary_category` tag whose only attribute is
/// `term` sets the entry's category to that term, whether the tag closes
/// itself or not.
pub proof fn law_category_is_the_term(m: FeedModel, term: Seq<char>, self_closing: bool)
    requires
        m.in_entry,
    ensures
        ({
            let attrs = seq![XmlAttrView { key: "term"@, value: Ok(term) }];
            let e = if self_closing {
                XmlEventView::Empty { name: "primary_category"@, attrs }
            } else {
                XmlEventView::Start { name: "primary_category"@, attrs }
            };
            feed_step(m, e) matches FeedStep::Next(m2) && m2.category == Some(term)
        }),
{
    let attrs = seq![XmlAttrView { key: "term"@, value: Ok(term) }];
    reveal_strlit("primary_category");
    reveal_strlit("entry");
    reveal_strlit("author");
    reveal_strlit("link");
    assert("primary_category"@.len() != "entry"@.len());
    assert("primary_category"@.len() != "author"@.len());
    assert("primary_category"@.len() != "link"@.len());
    assert(attrs.drop_last() =~= Seq::<XmlAttrView>::empty());
    assert(category_term(attrs.drop_last(), m.category) == Ok::<Option<Seq<char>>, Seq<char>>(m.category));
    assert(category_term(attrs, m.category) == Ok::<Option<Seq<char>>, Seq<char>>(Some(term)));
    assert(apply_category(m, attrs) == Ok::<FeedModel, Seq<char>>(FeedModel { category: Some(term), ..m }));
}

/// The first value stored under `key` in a metadata list.
pub open spec fn meta_lookup(md: Seq<(Seq<char>, MetaValueView)>, key: Seq<char>) -> Option<MetaValueView>
    decreases md.len(),
{
    if md.len() == 0 {
        None
    } else if md[0].0 == key {
        Some(md[0].1)
    } else {
        meta_lookup(md.drop_first(), key)
    }
}

pub proof fn lemma_meta_lookup_concat(
    a: Seq<(Seq<char>, MetaValueView)>,
    b: Seq<(Seq<char>, MetaValueView)>,
    key: Seq<char>,
)
    ensures
        meta_lookup(a + b, key) == match meta_lookup(a, key) {
            Some(v) => Some(v),
            None => meta_lookup(b, key),
        },
    decreases a.len(),
{
    if a.len() == 0 {
        assert(a + b =~= b);
    } else {
        assert((a + b).drop_first() =~= a.drop_first() + b);
        lemma_meta_lookup_concat(a.drop_first(), b, key);
    }
}

/// The item of a closed entry carries the entry's category under
/// `primary_category` exactly when the entry has one.
pub proof fn law_item_category(m: FeedModel)
    requires
        !contains_seq(m.id, "/api/errors"@),
    ensures
        feed_step(m, XmlEventView::End { name: "entry"@ }) matches FeedStep::Next(m2) && m2.items.len()
            == m.items.len() + 1 && meta_lookup(m2.items.last().metadata, "primary_category"@)
            == match m.category {
            Some(c) => Some(MetaValueView::Text(c)),
            None => None,
        },
{
    reveal_strlit("authors");
    reveal_strlit("primary_category");
    let a: Seq<(Seq<char>, MetaValueView)> = if m.authors.len() > 0 {
        seq![("authors"@, MetaValueView::TextList(m.authors))]
    } else {
        Seq::empty()
    };
    let c: Seq<(Seq<char>, MetaValueView)> = match m.category {
        Some(t) => seq![("primary_category"@, MetaValueView::Text(t))],
        None => Seq::empty(),
    };
    lemma_meta_lookup_concat(a, c, "primary_category"@);
    assert("authors"@.len() != "primary_category"@.len());
    if m.authors.len() > 0 {
        assert(a.drop_first() =~= Seq::<(Seq<char>, MetaValueView)>::empty());
    }
    if m.category is Some {
        assert(c.drop_first() =~= Seq::<(Seq<char>, MetaValueView)>::empty());
    }
}

/// Only the text of a `name` tag inside an `author` adds an author: text in
/// any other tag (an affiliation, say), or outside an author, leaves the
/// authors as they were, and no other event adds one.
pub proof fn law_authors_from_names(m: FeedModel, e: XmlEventView)
    ensures
        match e {
            XmlEventView::Text(Ok(t)) => feed_step(m, e) matches FeedStep::Next(m2) && m2.authors == (
            if m.cur_tag == Some("name"@) && m.in_author && t.len() > 0 {
                m.authors.push(t)
            } else {
                m.authors
            }),
            XmlEventView::Start { name, attrs } => name != "entry"@ ==> (feed_step(m, e) matches FeedStep::Next(m2)
                ==> m2.authors == m.authors),
            _ => (feed_step(m, e) matches FeedStep::Next(m2) ==> m2.authors == m.authors),
        },
{
    reveal_strlit("name");
    reveal_strlit("id");
    reveal_strlit("title");
    reveal_strlit("summary");
    assert("name"@.len() != "id"@.len());
    assert("name"@.len() != "title"@.len());
    assert("name"@.len() != "summary"@.len());
}

/// The item of a closed entry carries the entry's authors under `authors`
/// exactly when it has some.
pub proof fn law_item_authors(m: FeedModel)
    requires
        !contains_seq(m.id, "/api/errors"@),
    ensures
        feed_step(m, XmlEventView::End { name: "entry"@ }) matches FeedStep::Next(m2) && meta_lookup(
            m2.items.last().metadata,
            "authors"@,
        ) == if m.authors.len() > 0 {
            Some(MetaValueView::TextList(m.authors))
        } else {
            None
        },
{
    reveal_strlit("authors");
    reveal_strlit("primary_category");
    let a: Seq<(Seq<char>, MetaValueView)> = if m.authors.len() > 0 {
        seq![("authors"@, MetaValueView::TextList(m.authors))]
    } else {
        Seq::empty()
    };
    let c: Seq<(Seq<char>, MetaValueView)> = match m.category {
        Some(t) => seq![("primary_category"@, MetaValueView::Text(t))],
        None => Seq::empty(),
    };
    lemma_meta_lookup_concat(a, c, "authors"@);
    assert("authors"@.len() != "primary_category"@.len());
    if m.authors.len() > 0 {
        assert(a.drop_first() =~= Seq::<(Seq<char>, MetaValueView)>::empty());
    }
    if m.category is Some {
        assert(c.drop_first() =~= Seq::<(Seq<char>, MetaValueView)>::empty());
    }
}

/// The last of a list: nothing exactly when the list is empty, else its
/// final element.
pub proof fn law_last_view(items: Seq<ItemView>)
    ensures
        last_view(items) is None <==> items.len() == 0,
        items.len() > 0 ==> last_view(items) == Some(items[items.len() - 1]),
{
}

} // verus!

verus! {

/// Non-empty text sets the entry field that its enclosing tag names, and
/// only that one: an `id` outside any author sets the id, a `title` the
/// title, a `summary` the summary; text in any other tag sets none of them.
pub proof fn law_text_fills_its_field(m: FeedModel, t: Seq<char>)
    requires
        t.len() > 0,
    ensures
        feed_step(m, XmlEventView::Text(Ok(t))) matches FeedStep::Next(m2) && m2.id == (if m.cur_tag
            == Some("id"@) && m.in_entry && !m.in_author {
            t
        } else {
            m.id
        }) && m2.title == (if m.cur_tag == Some("title"@) && m.in_entry {
            t
        } else {
            m.title
        }) && m2.summary == (if m.cur_tag == Some("summary"@) && m.in_entry {
            t
        } else {
            m.summary
        }) && m2.items == m.items,
{
    reveal_strlit("id");
    reveal_strlit("title");
    reveal_strlit("summary");
    reveal_strlit("name");
    assert("id"@.len() != "title"@.len());
    assert("id"@.len() != "summary"@.len());
    assert("title"@.len() != "summary"@.len());
}

/// The item of a closed entry is made of that entry's fields: its title,
/// its title and summary separated by a blank line, and its PDF url (the
/// id url when there is none); its source is arXiv.
pub proof fn law_item_fields(m: FeedModel)
    requires
        !contains_seq(m.id, "/api/errors"@),
    ensures
        feed_step(m, XmlEventView::End { name: "entry"@ }) matches FeedStep::Next(m2) && ({
            let it = m2.items[m2.items.len() - 1];
            &&& m2.items.len() == m.items.len() + 1
            &&& it.title == m.title
            &&& it.text == m.title + "\n\n"@ + m.summary
            &&& it.url == Some(if m.pdf_url is Some { m.pdf_url->0 } else { m.id })
            &&& it.source == "arxiv"@
        }),
{
}

} // verus!
