use vstd::prelude::*;

verus! {

/// A value stored under a metadata key of an [`Item`].
#[derive(Clone, Debug)]
pub enum MetaValue {
    Int(i64),
    Text(String),
    TextList(Vec<String>),
}

/// Mathematical model of a [`MetaValue`].
pub enum MetaValueView {
    Int(i64),
    Text(Seq<char>),
    TextList(Seq<Seq<char>>),
}

pub open spec fn strings_view(v: Seq<String>) -> Seq<Seq<char>> {
    v.map_values(|s: String| s@)
}

impl View for MetaValue {
    type V = MetaValueView;

    open spec fn view(&self) -> MetaValueView {
        match self {
            MetaValue::Int(n) => MetaValueView::Int(*n),
            MetaValue::Text(s) => MetaValueView::Text(s@),
            MetaValue::TextList(v) => MetaValueView::TextList(strings_view(v@)),
        }
    }
}

/// One recommendable item, normalised across sources.
#[derive(Clone, Debug)]
pub struct Item {
    /// Stable unique id (a url, or a source-specific id).
    pub id: String,
    /// Name of the source the item came from.
    pub source: String,
    pub title: String,
    /// Canonical text of the item (title and body or abstract).
    pub text: String,
    pub url: Option<String>,
    /// Source-specific extras, in insertion order, each key at most once.
    pub metadata: Vec<(String, MetaValue)>,
}

/// Mathematical model of an [`Item`].
pub struct ItemView {
    pub id: Seq<char>,
    pub source: Seq<char>,
    pub title: Seq<char>,
    pub text: Seq<char>,
    pub url: Option<Seq<char>>,
    pub metadata: Seq<(Seq<char>, MetaValueView)>,
}

pub open spec fn opt_string_view(o: Option<String>) -> Option<Seq<char>> {
    match o {
        Some(s) => Some(s@),
        None => None,
    }
}

pub open spec fn metadata_view(m: Seq<(String, MetaValue)>) -> Seq<(Seq<char>, MetaValueView)> {
    m.map_values(|p: (String, MetaValue)| (p.0@, p.1@))
}

/// No key occurs twice in a metadata list.
pub open spec fn keys_distinct(m: Seq<(Seq<char>, MetaValueView)>) -> bool {
    forall|i: int, j: int| 0 <= i < j < m.len() ==> m[i].0 != m[j].0
}

impl ItemView {
    pub open spec fn wf(self) -> bool {
        keys_distinct(self.metadata)
    }
}

impl View for Item {
    type V = ItemView;

    open spec fn view(&self) -> ItemView {
        ItemView {
            id: self.id@,
            source: self.source@,
            title: self.title@,
            text: self.text@,
            url: opt_string_view(self.url),
            metadata: metadata_view(self.metadata@),
        }
    }
}

pub open spec fn items_view(v: Seq<Item>) -> Seq<ItemView> {
    v.map_values(|i: Item| i@)
}

/// What a user engaged with and what they ignored.
#[derive(Clone, Debug)]
pub struct Profile {
    pub engage_history: Vec<Item>,
    pub ignore_history: Vec<Item>,
}

impl Default for Profile {
    fn default() -> (p: Profile)
        ensures
            p.engage_history@.len() == 0,
            p.ignore_history@.len() == 0,
    {
        Profile { engage_history: Vec::new(), ignore_history: Vec::new() }
    }
}

} // verus!

verus! {

/// The last element of a list, taken out of it (`Vec::pop` on an owned list).
pub fn take_last<T>(v: Vec<T>) -> (r: Option<T>)
    ensures
        v@.len() == 0 ==> r is None,
        v@.len() > 0 ==> r == Some(v@.last()),
{
    let mut v = v;
    v.pop()
}

} // verus!
