//! A small recommendation library: items gathered from outside sources, a
//! parser for arXiv Atom feeds, Hacker News hit conversion, request
//! construction for the scrapers, request pacing, and the engine builder.

pub mod arxiv;
pub mod engine;
pub mod hackernews;
pub mod item;
pub mod ollama;
pub mod text;
pub mod xml;

pub use arxiv::{parse_feed, FeedError};
pub use engine::{
    EngineBuilder, FeatureExtractor, QueryBuilder, QueryFormulator, RecommendationEngine, Scraper,
    Unset,
};
pub use hackernews::{Hit, HnSort};
pub use item::{Item, ItemView, MetaValue, MetaValueView, Profile};
pub use ollama::OllamaApi;
