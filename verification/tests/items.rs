use recsys::hackernews::{hits_into_items, HN_SOURCE};
use recsys::item::take_last;
use recsys::{Hit, MetaValue};

fn bare(id: &str) -> Hit {
    Hit {
        object_id: id.to_string(),
        title: None,
        url: None,
        author: None,
        points: None,
        num_comments: None,
        created_at: None,
        story_text: None,
        comment_text: None,
    }
}

#[test]
fn full_hit_becomes_an_item() {
    let hit = Hit {
        object_id: "123".to_string(),
        title: Some("Show HN".to_string()),
        url: Some("https://example.com".to_string()),
        author: Some("pg".to_string()),
        points: Some(42),
        num_comments: Some(7),
        created_at: Some("2024-01-01T00:00:00Z".to_string()),
        story_text: Some("Story".to_string()),
        comment_text: Some("Comment".to_string()),
    };
    let item = hit.into_item();
    assert_eq!(item.id, "hackernews:123");
    assert_eq!(item.source, HN_SOURCE);
    assert_eq!(item.source, "hackernews");
    assert_eq!(item.title, "Show HN");
    assert_eq!(item.text, "Show HN\n\nStory\n\nComment");
    assert_eq!(item.url.as_deref(), Some("https://example.com"));
    let keys: Vec<&str> = item.metadata.iter().map(|(k, _)| k.as_str()).collect();
    assert_eq!(keys, vec!["points", "num_comments", "author", "created_at", "url"]);
    assert!(matches!(item.metadata[0].1, MetaValue::Int(42)));
    assert!(matches!(item.metadata[1].1, MetaValue::Int(7)));
    assert!(matches!(&item.metadata[2].1, MetaValue::Text(a) if a == "pg"));
}

#[test]
fn bare_hit_links_to_the_discussion() {
    let item = bare("99").into_item();
    assert_eq!(item.title, "");
    assert_eq!(item.text, "");
    assert_eq!(item.url.as_deref(), Some("https://news.ycombinator.com/item?id=99"));
    assert!(item.metadata.is_empty());
}

#[test]
fn text_skips_missing_parts() {
    let mut h = bare("1");
    h.comment_text = Some("only comment".to_string());
    h.title = Some("T".to_string());
    assert_eq!(h.into_item().text, "T\n\nonly comment");
}

#[test]
fn hits_keep_their_order() {
    let items = hits_into_items(vec![bare("a"), bare("b"), bare("c")]);
    let ids: Vec<&str> = items.iter().map(|i| i.id.as_str()).collect();
    assert_eq!(ids, vec!["hackernews:a", "hackernews:b", "hackernews:c"]);
    assert!(hits_into_items(vec![]).is_empty());
}

#[test]
fn take_last_gives_the_last() {
    assert_eq!(take_last(vec![1, 2, 3]), Some(3));
    assert_eq!(take_last(Vec::<u8>::new()), None);
}
