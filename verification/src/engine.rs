//! The pluggable parts of a recommender (scrapers, query builders, feature
//! extractors) and the builder that puts an engine together.

use vstd::prelude::*;

use crate::item::Item;

verus! {

#[verifier::external_type_specification]
#[verifier::external_body]
pub struct ExAnyhowError(anyhow::Error);

/// A source of items.
pub trait Scraper {
    /// What the scraper is queried with.
    type Representation;

    fn source_name(&self) -> &str;

    /// Style hint fed to the query builder, e.g. "informal, natural questions";
    /// none unless the scraper gives one.
    fn query_style_hint(&self) -> (hint: &str)
        default_ensures
            hint@ == ""@,
    {
        ""
    }

    fn scrape(&mut self, keywords: &Self::Representation, limit: u32) -> Result<
        Vec<Item>,
        anyhow::Error,
    >;

    fn get(&self, id: &str) -> Result<Option<Item>, anyhow::Error>;
}

/// Turns recent profile context into per-scraper search keywords.
pub trait QueryFormulator {
    fn formulate(&self, topic_context: &str, style_hint: &str) -> Result<Vec<String>, anyhow::Error>;
}

/// Builds a scraper query from what the user engaged with.
pub trait QueryBuilder<Q> {
    fn build_query(&self, engage_history: &[Item], style_hint: &str) -> Result<Q, anyhow::Error>;
}

/// Computes a representation (features, an embedding) of an item.
pub trait FeatureExtractor<Repr> {
    fn extract(&self, item: &Item) -> Result<Repr, anyhow::Error>;

    /// One representation per item, in order, each what `extract` gave for
    /// that item; the first error stops the batch and is returned: it is what
    /// `extract` gave for some item after giving a representation for every
    /// item before it.
    fn extract_batch(&self, items: &[Item]) -> (r: Result<Vec<Repr>, anyhow::Error>)
        default_ensures
            r matches Ok(v) ==> v@.len() == items@.len() && forall|k: int|
                0 <= k < items@.len() ==> call_ensures(
                    Self::extract,
                    (self, &items@[k]),
                    Ok::<Repr, anyhow::Error>(#[trigger] v@[k]),
                ),
            r matches Err(e) ==> exists|k: int|
                0 <= k < items@.len() && #[trigger] call_ensures(
                    Self::extract,
                    (self, &items@[k]),
                    Err::<Repr, anyhow::Error>(e),
                ) && forall|j: int|
                    #![trigger items@[j]]
                    0 <= j < k ==> exists|x: Repr|
                        #[trigger] call_ensures(
                            Self::extract,
                            (self, &items@[j]),
                            Ok::<Repr, anyhow::Error>(x),
                        ),
    {
        let mut out: Vec<Repr> = Vec::new();
        let mut i: usize = 0;
        while i < items.len()
            invariant
                i <= items@.len(),
                out@.len() == i,
                forall|k: int|
                    0 <= k < i ==> call_ensures(
                        Self::extract,
                        (self, &items@[k]),
                        Ok::<Repr, anyhow::Error>(#[trigger] out@[k]),
                    ),
            decreases items.len() - i,
        {
            let res = self.extract(&items[i]);
            assert(call_ensures(Self::extract, (self, &items@[i as int]), res));
            match res {
                Ok(r) => out.push(r),
                Err(e) => {
                    let out_err: Result<Vec<Repr>, anyhow::Error> = Err(e);
                    assert(out_err->Err_0 == e);
                    assert forall|j: int| #![trigger items@[j]] 0 <= j < i implies exists|x: Repr|
                        #[trigger] call_ensures(
                            Self::extract,
                            (self, &items@[j]),
                            Ok::<Repr, anyhow::Error>(x),
                        ) by {
                        assert(call_ensures(
                            Self::extract,
                            (self, &items@[j]),
                            Ok::<Repr, anyhow::Error>(out@[j]),
                        ));
                    }
                    assert(call_ensures(
                        Self::extract,
                        (self, &items@[i as int]),
                        Err::<Repr, anyhow::Error>(out_err->Err_0),
                    ));
                    return out_err;
                },
            }
            i = i + 1;
        }
        Ok(out)
    }
}

/// The parts of a recommender, put together.
pub struct RecommendationEngine<F, QB, S, R> {
    pub extractor: F,
    pub query_builder: QB,
    pub scorer: S,
    pub scraper: R,
}

/// A part of the builder that has not been given yet.
pub struct Unset;

/// Collects the parts of a [`RecommendationEngine`] one at a time.
pub struct EngineBuilder<F = Unset, QB = Unset, S = Unset, R = Unset> {
    pub extractor: F,
    pub query_builder: QB,
    pub scorer: S,
    pub scraper: R,
}

/// The builder `b` with `scorer` given.
pub open spec fn with_scorer<F, QB, S, R, S2>(b: EngineBuilder<F, QB, S, R>, scorer: S2) -> EngineBuilder<
    F,
    QB,
    S2,
    R,
> {
    EngineBuilder {
        extractor: b.extractor,
        query_builder: b.query_builder,
        scorer,
        scraper: b.scraper,
    }
}

/// The builder `b` with `extractor` given.
pub open spec fn with_extractor<F, QB, S, R, F2>(
    b: EngineBuilder<F, QB, S, R>,
    extractor: F2,
) -> EngineBuilder<F2, QB, S, R> {
    EngineBuilder {
        extractor,
        query_builder: b.query_builder,
        scorer: b.scorer,
        scraper: b.scraper,
    }
}

/// The builder `b` with `query_builder` given.
pub open spec fn with_query_builder<F, QB, S, R, QB2>(
    b: EngineBuilder<F, QB, S, R>,
    query_builder: QB2,
) -> EngineBuilder<F, QB2, S, R> {
    EngineBuilder {
        extractor: b.extractor,
        query_builder,
        scorer: b.scorer,
        scraper: b.scraper,
    }
}

/// The builder `b` with `scraper` given.
pub open spec fn with_scraper<F, QB, S, R, R2>(b: EngineBuilder<F, QB, S, R>, scraper: R2) -> EngineBuilder<
    F,
    QB,
    S,
    R2,
> {
    EngineBuilder {
        extractor: b.extractor,
        query_builder: b.query_builder,
        scorer: b.scorer,
        scraper,
    }
}

/// The engine made of a builder's parts.
pub open spec fn built<F, QB, S, R>(b: EngineBuilder<F, QB, S, R>) -> RecommendationEngine<F, QB, S, R> {
    RecommendationEngine {
        extractor: b.extractor,
        query_builder: b.query_builder,
        scorer: b.scorer,
        scraper: b.scraper,
    }
}

/// A builder with no part given.
pub open spec fn empty_builder() -> EngineBuilder {
    EngineBuilder { extractor: Unset, query_builder: Unset, scorer: Unset, scraper: Unset }
}

impl EngineBuilder {
    /// A builder with no part given.
    pub fn new() -> (b: Self)
        ensures
            b == empty_builder(),
    {
        EngineBuilder { extractor: Unset, query_builder: Unset, scorer: Unset, scraper: Unset }
    }
}

impl<F, QB, S, R> EngineBuilder<F, QB, S, R> {
    /// Gives the scorer, keeping the other parts.
    pub fn scorer<S2>(self, scorer: S2) -> (b: EngineBuilder<F, QB, S2, R>)
        ensures
            b == with_scorer(self, scorer),
            b.scorer == scorer,
            b.extractor == self.extractor,
            b.query_builder == self.query_builder,
            b.scraper == self.scraper,
    {
        EngineBuilder {
            extractor: self.extractor,
            query_builder: self.query_builder,
            scorer,
            scraper: self.scraper,
        }
    }

    /// Gives the feature extractor, keeping the other parts.
    pub fn extractor<F2>(self, extractor: F2) -> (b: EngineBuilder<F2, QB, S, R>)
        ensures
            b == with_extractor(self, extractor),
            b.extractor == extractor,
            b.query_builder == self.query_builder,
            b.scorer == self.scorer,
            b.scraper == self.scraper,
    {
        EngineBuilder {
            extractor,
            query_builder: self.query_builder,
            scorer: self.scorer,
            scraper: self.scraper,
        }
    }

    /// Gives the scraper, keeping the other parts.
    pub fn scraper<R2>(self, scraper: R2) -> (b: EngineBuilder<F, QB, S, R2>)
        ensures
            b == with_scraper(self, scraper),
            b.scraper == scraper,
            b.extractor == self.extractor,
            b.query_builder == self.query_builder,
            b.scorer == self.scorer,
    {
        EngineBuilder {
            extractor: self.extractor,
            query_builder: self.query_builder,
            scorer: self.scorer,
            scraper,
        }
    }

    /// Gives the query builder, keeping the other parts.
    pub fn query_builder<QB2>(self, query_builder: QB2) -> (b: EngineBuilder<F, QB2, S, R>)
        ensures
            b == with_query_builder(self, query_builder),
            b.query_builder == query_builder,
            b.extractor == self.extractor,
            b.scorer == self.scorer,
            b.scraper == self.scraper,
    {
        EngineBuilder {
            extractor: self.extractor,
            query_builder,
            scorer: self.scorer,
            scraper: self.scraper,
        }
    }

    /// The engine made of the given parts.
    pub fn build(self) -> (e: RecommendationEngine<F, QB, S, R>)
        ensures
            e == built(self),
            e.extractor == self.extractor,
            e.query_builder == self.query_builder,
            e.scorer == self.scorer,
            e.scraper == self.scraper,
    {
        RecommendationEngine {
            extractor: self.extractor,
            query_builder: self.query_builder,
            scorer: self.scorer,
            scraper: self.scraper,
        }
    }
}

/// Giving the four parts to a new builder, in any order, and building gives
/// the engine made of exactly those parts.
pub proof fn law_build_any_order<F, QB, S, R>(f: F, q: QB, s: S, r: R)
    ensures
        ({
            let e = RecommendationEngine { extractor: f, query_builder: q, scorer: s, scraper: r };
            &&& built(with_scraper(with_query_builder(with_extractor(with_scorer(empty_builder(), s), f), q), r)) == e
            &&& built(with_query_builder(with_scraper(with_extractor(with_scorer(empty_builder(), s), f), r), q)) == e
            &&& built(with_scraper(with_extractor(with_query_builder(with_scorer(empty_builder(), s), q), f), r)) == e
            &&& built(with_extractor(with_scraper(with_query_builder(with_scorer(empty_builder(), s), q), r), f)) == e
            &&& built(with_query_builder(with_extractor(with_scraper(with_scorer(empty_builder(), s), r), f), q)) == e
            &&& built(with_extractor(with_query_builder(with_scraper(with_scorer(empty_builder(), s), r), q), f)) == e
            &&& built(with_scraper(with_query_builder(with_scorer(with_extractor(empty_builder(), f), s), q), r)) == e
            &&& built(with_query_builder(with_scraper(with_scorer(with_extractor(empty_builder(), f), s), r), q)) == e
            &&& built(with_scraper(with_scorer(with_query_builder(with_extractor(empty_builder(), f), q), s), r)) == e
            &&& built(with_scorer(with_scraper(with_query_builder(with_extractor(empty_builder(), f), q), r), s)) == e
            &&& built(with_query_builder(with_scorer(with_scraper(with_extractor(empty_builder(), f), r), s), q)) == e
            &&& built(with_scorer(with_query_builder(with_scraper(with_extractor(empty_builder(), f), r), q), s)) == e
            &&& built(with_scraper(with_extractor(with_scorer(with_query_builder(empty_builder(), q), s), f), r)) == e
            &&& built(with_extractor(with_scraper(with_scorer(with_query_builder(empty_builder(), q), s), r), f)) == e
            &&& built(with_scraper(with_scorer(with_extractor(with_query_builder(empty_builder(), q), f), s), r)) == e
            &&& built(with_scorer(with_scraper(with_extractor(with_query_builder(empty_builder(), q), f), r), s)) == e
            &&& built(with_extractor(with_scorer(with_scraper(with_query_builder(empty_builder(), q), r), s), f)) == e
            &&& built(with_scorer(with_extractor(with_scraper(with_query_builder(empty_builder(), q), r), f), s)) == e
            &&& built(with_query_builder(with_extractor(with_scorer(with_scraper(empty_builder(), r), s), f), q)) == e
            &&& built(with_extractor(with_query_builder(with_scorer(with_scraper(empty_builder(), r), s), q), f)) == e
            &&& built(with_query_builder(with_scorer(with_extractor(with_scraper(empty_builder(), r), f), s), q)) == e
            &&& built(with_scorer(with_query_builder(with_extractor(with_scraper(empty_builder(), r), f), q), s)) == e
            &&& built(with_extractor(with_scorer(with_query_builder(with_scraper(empty_builder(), r), q), s), f)) == e
            &&& built(with_scorer(with_extractor(with_query_builder(with_scraper(empty_builder(), r), q), f), s)) == e
        }),
{
}

/// Pairs each candidate with its representation, in order; when the lists
/// differ in length the extra elements of the longer one are dropped (as
/// `zip` does).
pub fn pair_with_reprs<R>(items: Vec<Item>, reprs: Vec<R>) -> (r: Vec<(Item, R)>)
    ensures
        r@.len() == if items@.len() <= reprs@.len() { items@.len() } else { reprs@.len() },
        forall|k: int| 0 <= k < r@.len() ==> (#[trigger] r@[k]).0 == items@[k] && r@[k].1 == reprs@[k],
{
    let ghost is = items@;
    let ghost rs = reprs@;
    let mut items = items;
    let mut reprs = reprs;
    let mut out: Vec<(Item, R)> = Vec::new();
    while items.len() > 0 && reprs.len() > 0
        invariant
            items@ == is.skip(out@.len() as int),
            reprs@ == rs.skip(out@.len() as int),
            out@.len() <= is.len(),
            out@.len() <= rs.len(),
            forall|k: int| 0 <= k < out@.len() ==> (#[trigger] out@[k]).0 == is[k] && out@[k].1 == rs[k],
        decreases items.len(),
    {
        let ghost n = out@.len() as int;
        let it = items.remove(0);
        let rp = reprs.remove(0);
        assert(items@ =~= is.skip(n + 1));
        assert(reprs@ =~= rs.skip(n + 1));
        out.push((it, rp));
    }
    out
}

} // verus!
