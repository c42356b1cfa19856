//! Hacker News (Algolia search API): request construction and the
//! conversion of search hits into items.

use vstd::prelude::*;
use vstd::string::*;

use crate::arxiv::{lemma_meta_lookup_concat, meta_lookup, min_u32, pairs_view};
use crate::item::{
    items_view, keys_distinct, metadata_view, opt_string_view, strings_view, Item, ItemView,
    MetaValue, MetaValueView,
};
use crate::text::{
    concat_str, decimal, decimal_string, join_seqs, join_strings,
};

verus! {

/// The base of the Hacker News search API.
pub const HN_API_URL: &'static str = "https://hn.algolia.com/api/v1";

/// The name of the Hacker News source.
pub const HN_SOURCE: &'static str = "hackernews";

/// The style hint of the Hacker News source (none).
pub const HN_STYLE_HINT: &'static str = "";

/// The user agent that the scrapers identify themselves with.
pub const USER_AGENT: &'static str = "recsys-rs (https://github.com/alexcatdogiscool/recsys-rs)";

/// What the ids of Hacker News items start with.
pub const HN_ID_PREFIX: &'static str = "hackernews:";

/// The most hits that one search asks for.
pub const HN_MAX_HITS: u32 = 1000;

/// How search results are ordered.
pub enum HnSort {
    /// Ranked by relevance.
    Relevance,
    /// Newest first.
    Date,
}

impl HnSort {
    pub open spec fn endpoint_spec(&self) -> Seq<char> {
        match self {
            HnSort::Relevance => "search"@,
            HnSort::Date => "search_by_date"@,
        }
    }

    /// The search endpoint for this ordering.
    pub fn endpoint(&self) -> (r: &'static str)
        ensures
            r@ == self.endpoint_spec(),
    {
        match self {
            HnSort::Relevance => "search",
            HnSort::Date => "search_by_date",
        }
    }
}

/// The url of a search with the given ordering.
pub fn hn_search_url(sort: &HnSort) -> (r: String)
    ensures
        r@ == HN_API_URL@ + "/"@ + sort.endpoint_spec(),
{
    let mut r = concat_str(HN_API_URL, "/");
    r.append(sort.endpoint());
    r
}

/// The query parameters of a story search for `keywords` asking for at most
/// `limit` hits (capped at [`HN_MAX_HITS`]).
pub fn hn_search_params(keywords: &Vec<String>, limit: u32) -> (r: Vec<(String, String)>)
    ensures
        pairs_view(r@) == seq![
            ("query"@, join_seqs(strings_view(keywords@), " "@)),
            ("tags"@, "story"@),
            ("hitsPerPage"@, decimal(min_u32(limit, HN_MAX_HITS) as nat)),
        ],
{
    let query = join_strings(keywords, " ");
    let hits: u32 = if limit <= HN_MAX_HITS { limit } else { HN_MAX_HITS };
    let mut r: Vec<(String, String)> = Vec::new();
    r.push((String::from_str("query"), query));
    r.push((String::from_str("tags"), String::from_str("story")));
    r.push((String::from_str("hitsPerPage"), decimal_string(hits as u64)));
    assert(pairs_view(r@) =~= seq![
        ("query"@, join_seqs(strings_view(keywords@), " "@)),
        ("tags"@, "story"@),
        ("hitsPerPage"@, decimal(min_u32(limit, HN_MAX_HITS) as nat)),
    ]);
    r
}

/// The url of one item of the API.
pub fn hn_item_url(id: &str) -> (r: String)
    ensures
        r@ == HN_API_URL@ + "/items/"@ + id@,
{
    let mut r = concat_str(HN_API_URL, "/items/");
    r.append(id);
    r
}

/// Whether a lookup's HTTP status says that the item does not exist.
pub fn hn_item_missing(status: u16) -> (r: bool)
    ensures
        r == (status == 404),
{
    status == 404
}

/// One search hit (a story or a comment) as the API returns it.
pub struct Hit {
    pub object_id: String,
    pub title: Option<String>,
    pub url: Option<String>,
    pub author: Option<String>,
    pub points: Option<i64>,
    pub num_comments: Option<i64>,
    pub created_at: Option<String>,
    pub story_text: Option<String>,
    pub comment_text: Option<String>,
}

/// Mathematical model of a [`Hit`].
pub struct HitView {
    pub object_id: Seq<char>,
    pub title: Option<Seq<char>>,
    pub url: Option<Seq<char>>,
    pub author: Option<Seq<char>>,
    pub points: Option<i64>,
    pub num_comments: Option<i64>,
    pub created_at: Option<Seq<char>>,
    pub story_text: Option<Seq<char>>,
    pub comment_text: Option<Seq<char>>,
}

impl View for Hit {
    type V = HitView;

    open spec fn view(&self) -> HitView {
        HitView {
            object_id: self.object_id@,
            title: opt_string_view(self.title),
            url: opt_string_view(self.url),
            author: opt_string_view(self.author),
            points: self.points,
            num_comments: self.num_comments,
            created_at: opt_string_view(self.created_at),
            story_text: opt_string_view(self.story_text),
            comment_text: opt_string_view(self.comment_text),
        }
    }
}

pub open spec fn present(o: Option<Seq<char>>) -> Seq<Seq<char>> {
    match o {
        Some(s) => seq![s],
        None => Seq::empty(),
    }
}

pub open spec fn int_entry(key: Seq<char>, o: Option<i64>) -> Seq<(Seq<char>, MetaValueView)> {
    match o {
        Some(n) => seq![(key, MetaValueView::Int(n))],
        None => Seq::empty(),
    }
}

pub open spec fn text_entry(key: Seq<char>, o: Option<Seq<char>>) -> Seq<(Seq<char>, MetaValueView)> {
    match o {
        Some(s) => seq![(key, MetaValueView::Text(s))],
        None => Seq::empty(),
    }
}

/// The metadata of a hit: points, comment count, author, creation time and
/// story url, each where the hit has it, in that order.
pub open spec fn hit_metadata(h: HitView) -> Seq<(Seq<char>, MetaValueView)> {
    int_entry("points"@, h.points) + int_entry("num_comments"@, h.num_comments) + text_entry(
        "author"@,
        h.author,
    ) + text_entry("created_at"@, h.created_at) + text_entry("url"@, h.url)
}

/// The discussion page of a Hacker News item.
pub open spec fn hn_discussion_url(id: Seq<char>) -> Seq<char> {
    "https://news.ycombinator.com/item?id="@ + id
}

/// The item that a hit becomes: its id is the object id prefixed with the
/// source; its text joins the title, story text and
/// comment text that it has with blank lines; its url is the story's url,
/// or the discussion page when the story has none.
pub open spec fn hit_item(h: HitView) -> ItemView {
    ItemView {
        id: HN_ID_PREFIX@ + h.object_id,
        source: "hackernews"@,
        title: match h.title {
            Some(t) => t,
            None => Seq::empty(),
        },
        text: join_seqs(present(h.title) + present(h.story_text) + present(h.comment_text), "\n\n"@),
        url: match h.url {
            Some(u) => Some(u),
            None => Some(hn_discussion_url(h.object_id)),
        },
        metadata: hit_metadata(h),
    }
}

proof fn lemma_concat_keys_distinct(
    a: Seq<(Seq<char>, MetaValueView)>,
    b: Seq<(Seq<char>, MetaValueView)>,
)
    requires
        keys_distinct(a),
        keys_distinct(b),
        forall|i: int, j: int| 0 <= i < a.len() && 0 <= j < b.len() ==> a[i].0 != b[j].0,
    ensures
        keys_distinct(a + b),
{
    assert forall|i: int, j: int| 0 <= i < j < (a + b).len() implies (a + b)[i].0 != (a
        + b)[j].0 by {
        if j < a.len() {
        } else if i < a.len() {
            assert((a + b)[j] == b[j - a.len()]);
        } else {
            assert((a + b)[i] == b[i - a.len()]);
            assert((a + b)[j] == b[j - a.len()]);
        }
    }
}

proof fn lemma_hit_metadata_keys_distinct(h: HitView)
    ensures
        keys_distinct(hit_metadata(h)),
{
    reveal_strlit("points");
    reveal_strlit("num_comments");
    reveal_strlit("author");
    reveal_strlit("created_at");
    reveal_strlit("url");
    let p = int_entry("points"@, h.points);
    let c = int_entry("num_comments"@, h.num_comments);
    let a = text_entry("author"@, h.author);
    let t = text_entry("created_at"@, h.created_at);
    let u = text_entry("url"@, h.url);
    assert("points"@[0] != "author"@[0]);
    assert("points"@ != "author"@);
    lemma_concat_keys_distinct(p, c);
    lemma_concat_keys_distinct(p + c, a);
    let pca = p + c + a;
    assert forall|i: int| 0 <= i < pca.len() implies #[trigger] pca[i].0.len() == 6 || pca[i].0.len()
        == 12 by {
        if i < p.len() {
            assert(pca[i] == p[i]);
        } else if i < p.len() + c.len() {
            assert(pca[i] == c[i - p.len()]);
        } else {
            assert(pca[i] == a[i - p.len() - c.len()]);
        }
    }
    assert forall|i: int, j: int| 0 <= i < pca.len() && 0 <= j < t.len() implies pca[i].0 != t[j].0 by {
        assert(t[j].0 == "created_at"@);
        assert(pca[i].0.len() == 6 || pca[i].0.len() == 12);
    }
    lemma_concat_keys_distinct(pca, t);
    let pcat = pca + t;
    assert forall|i: int| 0 <= i < pcat.len() implies #[trigger] pcat[i].0.len() >= 6 by {
        if i < pca.len() {
            assert(pcat[i] == pca[i]);
        } else {
            assert(pcat[i] == t[i - pca.len()]);
        }
    }
    assert forall|i: int, j: int| 0 <= i < pcat.len() && 0 <= j < u.len() implies pcat[i].0 != u[j].0 by {
        assert(u[j].0 == "url"@);
        assert(pcat[i].0.len() >= 6);
    }
    lemma_concat_keys_distinct(pcat, u);
}

impl Hit {
    /// The texts that the hit has, in the order title, story, comment.
    fn text_parts(&self) -> (parts: Vec<String>)
        ensures
            strings_view(parts@) == present(self@.title) + present(self@.story_text) + present(
                self@.comment_text,
            ),
    {
        let mut parts: Vec<String> = Vec::new();
        match &self.title {
            Some(t) => parts.push(t.clone()),
            None => {},
        }
        match &self.story_text {
            Some(t) => parts.push(t.clone()),
            None => {},
        }
        match &self.comment_text {
            Some(t) => parts.push(t.clone()),
            None => {},
        }
        assert(strings_view(parts@) =~= present(self@.title) + present(self@.story_text)
            + present(self@.comment_text));
        parts
    }

    /// The hit's metadata.
    fn metadata_of(&self) -> (m: Vec<(String, MetaValue)>)
        ensures
            metadata_view(m@) == hit_metadata(self@),
    {
        let mut m: Vec<(String, MetaValue)> = Vec::new();
        match self.points {
            Some(p) => m.push((String::from_str("points"), MetaValue::Int(p))),
            None => {},
        }
        match self.num_comments {
            Some(c) => m.push((String::from_str("num_comments"), MetaValue::Int(c))),
            None => {},
        }
        match &self.author {
            Some(a) => m.push((String::from_str("author"), MetaValue::Text(a.clone()))),
            None => {},
        }
        match &self.created_at {
            Some(t) => m.push((String::from_str("created_at"), MetaValue::Text(t.clone()))),
            None => {},
        }
        match &self.url {
            Some(u) => m.push((String::from_str("url"), MetaValue::Text(u.clone()))),
            None => {},
        }
        assert(metadata_view(m@) =~= hit_metadata(self@));
        m
    }

    /// The item that this hit becomes.
    pub fn into_item(self) -> (it: Item)
        ensures
            it@ == hit_item(self@),
            it@.wf(),
    {
        let ghost h = self@;
        let parts = self.text_parts();
        let text = join_strings(&parts, "\n\n");
        let metadata = self.metadata_of();
        let url = match self.url {
            Some(u) => Some(u),
            None => Some(concat_str("https://news.ycombinator.com/item?id=", self.object_id.as_str())),
        };
        let title = match self.title {
            Some(t) => t,
            None => String::new(),
        };
        proof {
            lemma_hit_metadata_keys_distinct(h);
        }
        let id = concat_str(HN_ID_PREFIX, self.object_id.as_str());
        Item { id, source: String::from_str("hackernews"), title, text, url, metadata }
    }
}

pub open spec fn hits_view(s: Seq<Hit>) -> Seq<HitView> {
    s.map_values(|h: Hit| h@)
}

/// The items that the hits of a search become, in the order of the hits.
pub fn hits_into_items(hits: Vec<Hit>) -> (r: Vec<Item>)
    ensures
        items_view(r@) == hits_view(hits@).map_values(|h: HitView| hit_item(h)),
{
    let ghost all = hits_view(hits@);
    let mut rest = hits;
    let mut out: Vec<Item> = Vec::new();
    while rest.len() > 0
        invariant
            all == hits_view(hits@),
            out@.len() + rest@.len() == all.len(),
            hits_view(rest@) == all.skip(out@.len() as int),
            forall|k: int| 0 <= k < out@.len() ==> (#[trigger] out@[k])@ == hit_item(all[k]),
        decreases rest.len(),
    {
        let ghost before = rest@;
        let ghost done = out@.len() as int;
        assert(hits_view(before)[0] == before[0]@);
        let h = rest.remove(0);
        proof {
            assert forall|k: int| 0 <= k < rest@.len() implies #[trigger] hits_view(rest@)[k]
                == all.skip(done + 1)[k] by {
                assert(rest@[k] == before[k + 1]);
                assert(hits_view(before)[k + 1] == all.skip(done)[k + 1]);
            }
            assert(hits_view(rest@) =~= all.skip(done + 1));
            assert(all.skip(done)[0] == h@);
        }
        out.push(h.into_item());
    }
    assert(items_view(out@) =~= all.map_values(|h: HitView| hit_item(h)));
    out
}

} // verus!

verus! {

pub open spec fn opt_int_value(o: Option<i64>) -> Option<MetaValueView> {
    match o {
        Some(n) => Some(MetaValueView::Int(n)),
        None => None,
    }
}

pub open spec fn opt_text_value(o: Option<Seq<char>>) -> Option<MetaValueView> {
    match o {
        Some(s) => Some(MetaValueView::Text(s)),
        None => None,
    }
}

proof fn lemma_lookup_single(key: Seq<char>, v: MetaValueView, k: Seq<char>)
    ensures
        meta_lookup(seq![(key, v)], k) == if key == k {
            Some(v)
        } else {
            None
        },
{
    let s = seq![(key, v)];
    assert(s.drop_first() =~= Seq::<(Seq<char>, MetaValueView)>::empty());
    assert(meta_lookup(s.drop_first(), k) == None::<MetaValueView>);
    assert(s[0] == (key, v));
}

proof fn lemma_lookup_int_entry(key: Seq<char>, o: Option<i64>, k: Seq<char>)
    ensures
        meta_lookup(int_entry(key, o), k) == if key == k {
            opt_int_value(o)
        } else {
            None
        },
{
    match o {
        Some(n) => lemma_lookup_single(key, MetaValueView::Int(n), k),
        None => {},
    }
}

proof fn lemma_lookup_text_entry(key: Seq<char>, o: Option<Seq<char>>, k: Seq<char>)
    ensures
        meta_lookup(text_entry(key, o), k) == if key == k {
            opt_text_value(o)
        } else {
            None
        },
{
    match o {
        Some(s) => lemma_lookup_single(key, MetaValueView::Text(s), k),
        None => {},
    }
}

proof fn lemma_hit_lookup(h: HitView, k: Seq<char>)
    ensures
        meta_lookup(hit_metadata(h), k) == if k == "points"@ {
            opt_int_value(h.points)
        } else if k == "num_comments"@ {
            opt_int_value(h.num_comments)
        } else if k == "author"@ {
            opt_text_value(h.author)
        } else if k == "created_at"@ {
            opt_text_value(h.created_at)
        } else if k == "url"@ {
            opt_text_value(h.url)
        } else {
            None
        },
{
    reveal_strlit("points");
    reveal_strlit("num_comments");
    reveal_strlit("author");
    reveal_strlit("created_at");
    reveal_strlit("url");
    assert("points"@[0] != "author"@[0]);
    assert("points"@.len() != "num_comments"@.len());
    assert("points"@.len() != "created_at"@.len());
    assert("points"@.len() != "url"@.len());
    assert("num_comments"@.len() != "author"@.len());
    assert("num_comments"@.len() != "created_at"@.len());
    assert("num_comments"@.len() != "url"@.len());
    assert("author"@.len() != "created_at"@.len());
    assert("author"@.len() != "url"@.len());
    assert("created_at"@.len() != "url"@.len());
    let p = int_entry("points"@, h.points);
    let c = int_entry("num_comments"@, h.num_comments);
    let a = text_entry("author"@, h.author);
    let t = text_entry("created_at"@, h.created_at);
    let u = text_entry("url"@, h.url);
    lemma_lookup_int_entry("points"@, h.points, k);
    lemma_lookup_int_entry("num_comments"@, h.num_comments, k);
    lemma_lookup_text_entry("author"@, h.author, k);
    lemma_lookup_text_entry("created_at"@, h.created_at, k);
    lemma_lookup_text_entry("url"@, h.url, k);
    lemma_meta_lookup_concat(p, c, k);
    lemma_meta_lookup_concat(p + c, a, k);
    lemma_meta_lookup_concat(p + c + a, t, k);
    lemma_meta_lookup_concat(p + c + a + t, u, k);
}

/// The metadata of a hit's item holds each of the hit's fields under the
/// field's own name: its points and comment count as numbers, its author,
/// creation time and story url as text, each present exactly when the hit
/// has it.
pub proof fn law_hit_metadata_fields(h: HitView)
    ensures
        meta_lookup(hit_item(h).metadata, "points"@) == opt_int_value(h.points),
        meta_lookup(hit_item(h).metadata, "num_comments"@) == opt_int_value(h.num_comments),
        meta_lookup(hit_item(h).metadata, "author"@) == opt_text_value(h.author),
        meta_lookup(hit_item(h).metadata, "created_at"@) == opt_text_value(h.created_at),
        meta_lookup(hit_item(h).metadata, "url"@) == opt_text_value(h.url),
{
    reveal_strlit("points");
    reveal_strlit("num_comments");
    reveal_strlit("author");
    reveal_strlit("created_at");
    reveal_strlit("url");
    assert("points"@[0] != "author"@[0]);
    assert("num_comments"@.len() != "points"@.len());
    assert("author"@.len() != "num_comments"@.len());
    assert("created_at"@.len() != "points"@.len());
    assert("created_at"@.len() != "num_comments"@.len());
    assert("created_at"@.len() != "author"@.len());
    assert("url"@.len() != "points"@.len());
    assert("url"@.len() != "num_comments"@.len());
    assert("url"@.len() != "author"@.len());
    assert("url"@.len() != "created_at"@.len());
    lemma_hit_lookup(h, "points"@);
    lemma_hit_lookup(h, "num_comments"@);
    lemma_hit_lookup(h, "author"@);
    lemma_hit_lookup(h, "created_at"@);
    lemma_hit_lookup(h, "url"@);
}

} // verus!
