use recsys::arxiv::{
    arxiv_get_params, arxiv_search_params, request_wait_nanos, ARXIV_API_URL,
    MIN_REQUEST_GAP_NANOS,
};
use recsys::hackernews::{hn_item_missing, hn_item_url, hn_search_params, hn_search_url, HN_API_URL};
use recsys::HnSort;

fn pairs(v: Vec<(String, String)>) -> Vec<(String, String)> {
    v
}

fn p(a: &str, b: &str) -> (String, String) {
    (a.to_string(), b.to_string())
}

#[test]
fn arxiv_search_params_join_keywords() {
    let kw = vec!["Mycelium".to_string(), "5-ht2a".to_string(), "ai".to_string()];
    assert_eq!(
        pairs(arxiv_search_params(&kw, 5)),
        vec![
            p("search_query", "all:Mycelium OR all:5-ht2a OR all:ai"),
            p("start", "0"),
            p("max_results", "5"),
        ]
    );
}

#[test]
fn arxiv_results_are_capped() {
    let kw = vec!["x".to_string()];
    assert_eq!(arxiv_search_params(&kw, 5000)[2], p("max_results", "2000"));
    assert_eq!(arxiv_search_params(&kw, 2000)[2], p("max_results", "2000"));
    assert_eq!(arxiv_search_params(&vec![], 0)[0], p("search_query", ""));
}

#[test]
fn arxiv_get_asks_for_the_id() {
    assert_eq!(arxiv_get_params("2101.00001"), vec![p("id_list", "2101.00001")]);
    assert_eq!(arxiv_get_params("arxiv:2101.00001v1"), vec![p("id_list", "arxiv:2101.00001v1")]);
    assert_eq!(ARXIV_API_URL, "http://export.arxiv.org/api/query");
}

#[test]
fn hn_search_request() {
    assert_eq!(hn_search_url(&HnSort::Relevance), format!("{HN_API_URL}/search"));
    assert_eq!(hn_search_url(&HnSort::Date), "https://hn.algolia.com/api/v1/search_by_date");
    let kw = vec!["rust".to_string(), "verus".to_string()];
    assert_eq!(
        hn_search_params(&kw, 20),
        vec![p("query", "rust verus"), p("tags", "story"), p("hitsPerPage", "20")]
    );
    assert_eq!(hn_search_params(&kw, 100000)[2], p("hitsPerPage", "1000"));
}

#[test]
fn hn_item_lookup() {
    assert_eq!(hn_item_url("42"), "https://hn.algolia.com/api/v1/items/42");

    assert!(hn_item_missing(404));
    assert!(!hn_item_missing(200));
    assert!(!hn_item_missing(500));
}

const S: i128 = 1_000_000_000;

#[test]
fn wait_fills_the_gap() {
    assert_eq!(request_wait_nanos(None, None, 100 * S), 0);
    assert_eq!(request_wait_nanos(Some(99 * S), None, 100 * S), 2 * S as u64);
    assert_eq!(request_wait_nanos(None, Some(100 * S), 100 * S), MIN_REQUEST_GAP_NANOS);
    // the later of the two recorded requests counts
    assert_eq!(request_wait_nanos(Some(90 * S), Some(99 * S), 100 * S), 2 * S as u64);
    assert_eq!(request_wait_nanos(Some(99 * S), Some(90 * S), 100 * S), 2 * S as u64);
    // gap already passed, or a request recorded in the future
    assert_eq!(request_wait_nanos(Some(97 * S), None, 100 * S), 0);
    assert_eq!(request_wait_nanos(Some(200 * S), None, 100 * S), 0);
    // far before the epoch and at the extremes
    assert_eq!(request_wait_nanos(Some(i128::MIN), None, i128::MAX), 0);
    assert_eq!(request_wait_nanos(Some(-S), None, 0), 2 * S as u64);
}
