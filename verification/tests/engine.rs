use recsys::engine::pair_with_reprs;
use recsys::ollama::OllamaApi;
use recsys::{EngineBuilder, FeatureExtractor, Item, Profile, Scraper};

fn item(id: &str, text: &str) -> Item {
    Item {
        id: id.to_string(),
        source: "test".to_string(),
        title: id.to_string(),
        text: text.to_string(),
        url: None,
        metadata: vec![],
    }
}

struct Lengths;

impl FeatureExtractor<usize> for Lengths {
    fn extract(&self, item: &Item) -> anyhow::Result<usize> {
        if item.text == "bad" {
            Err(anyhow::Error::msg("cannot extract"))
        } else {
            Ok(item.text.len())
        }
    }
}

struct Fixed(Vec<Item>);

impl Scraper for Fixed {
    type Representation = Vec<String>;

    fn source_name(&self) -> &str {
        "fixed"
    }

    fn scrape(&mut self, _keywords: &Vec<String>, limit: u32) -> anyhow::Result<Vec<Item>> {
        Ok(self.0.iter().take(limit as usize).cloned().collect())
    }

    fn get(&self, id: &str) -> anyhow::Result<Option<Item>> {
        Ok(self.0.iter().find(|i| i.id == id).cloned())
    }
}

#[test]
fn extract_batch_gives_one_per_item() {
    let items = vec![item("a", "x"), item("b", "yyy")];
    assert_eq!(Lengths.extract_batch(&items).unwrap(), vec![1, 3]);
    assert!(Lengths.extract_batch(&[]).unwrap().is_empty());
}

#[test]
fn extract_batch_stops_at_the_first_error() {
    let items = vec![item("a", "x"), item("b", "bad"), item("c", "z")];
    assert!(Lengths.extract_batch(&items).is_err());
}

#[test]
fn scraper_default_hint_is_empty() {
    let mut s = Fixed(vec![item("a", "1"), item("b", "2")]);
    assert_eq!(s.query_style_hint(), "");
    assert_eq!(s.source_name(), "fixed");
    assert_eq!(s.scrape(&vec![], 1).unwrap().len(), 1);
    assert_eq!(s.get("b").unwrap().unwrap().text, "2");
}

#[test]
fn builder_keeps_every_part() {
    let engine = EngineBuilder::new()
        .scorer(3u8)
        .extractor(Lengths)
        .query_builder("qb")
        .scraper(Fixed(vec![]))
        .scorer(5u8)
        .build();
    assert_eq!(engine.scorer, 5u8);
    assert_eq!(engine.query_builder, "qb");
    assert!(engine.scraper.0.is_empty());
}

#[test]
fn pairing_truncates_to_the_shorter_list() {
    let items = vec![item("a", ""), item("b", ""), item("c", "")];
    let pairs = pair_with_reprs(items, vec![10, 20]);
    assert_eq!(pairs.len(), 2);
    assert_eq!(pairs[0].0.id, "a");
    assert_eq!(pairs[1].1, 20);
    assert!(pair_with_reprs::<u8>(vec![], vec![1, 2]).is_empty());
}

#[test]
fn ollama_request_uses_the_model() {
    let api = OllamaApi::new("http://localhost:11434/api/embed".to_string(), "m".to_string(), 1024, 32768);
    assert_eq!(api.dim, 1024);
    assert_eq!(api.context_window_size, 32768);
    assert_eq!(api.url, "http://localhost:11434/api/embed");
    let req = api.embed_request(vec!["hello".to_string()]);
    assert_eq!(req.model, "m");
    assert_eq!(req.input, vec!["hello".to_string()]);
}

#[test]
fn default_profile_is_empty() {
    let p = Profile::default();
    assert!(p.engage_history.is_empty());
    assert!(p.ignore_history.is_empty());
}
