use recsys::arxiv::{feed_from_events, last_item_of_feed, parse_feed, FeedError, ARXIV_SOURCE};
use recsys::xml::{XmlAttr, XmlEvent};
use recsys::{Item, MetaValue};

const FEED: &str = r#"<?xml version="1.0" encoding="UTF-8"?>
<feed xmlns="http://www.w3.org/2005/Atom" xmlns:arxiv="http://arxiv.org/schemas/atom">
  <title type="html">ArXiv Query: search_query=all:mycelium</title>
  <id>http://arxiv.org/api/abc</id>
  <entry>
    <id>http://arxiv.org/abs/2101.00001v1</id>
    <title>Fungal Networks</title>
    <summary>  Mycelium  &amp; networks.  </summary>
    <author>
      <name>Ada Lovelace</name>
    </author>
    <author>
      <name>Alan Turing</name>
    </author>
    <link href="http://arxiv.org/abs/2101.00001v1" rel="alternate" type="text/html"/>
    <link title="pdf" href="http://arxiv.org/pdf/2101.00001v1" rel="related" type="application/pdf"/>
    <arxiv:primary_category term="q-bio.PE" scheme="http://arxiv.org/schemas/atom"/>
  </entry>
  <entry>
    <id>http://arxiv.org/abs/2102.00002v2</id>
    <title>Second</title>
    <summary>Body</summary>
  </entry>
</feed>"#;

fn meta<'a>(item: &'a Item, key: &str) -> Option<&'a MetaValue> {
    item.metadata.iter().find(|(k, _)| k == key).map(|(_, v)| v)
}

#[test]
fn parses_entries_in_order() {
    let items = parse_feed(FEED).unwrap();
    assert_eq!(items.len(), 2);
    let a = &items[0];
    assert_eq!(a.id, "arxiv:2101.00001v1");
    assert_eq!(a.source, ARXIV_SOURCE);
    assert_eq!(a.source, "arxiv");
    assert_eq!(a.title, "Fungal Networks");
    assert_eq!(a.text, "Fungal Networks\n\nMycelium  & networks.");
    assert_eq!(a.url.as_deref(), Some("http://arxiv.org/pdf/2101.00001v1"));
    match meta(a, "authors") {
        Some(MetaValue::TextList(v)) => {
            assert_eq!(v, &vec!["Ada Lovelace".to_string(), "Alan Turing".to_string()])
        }
        other => panic!("unexpected authors: {:?}", other),
    }
    match meta(a, "primary_category") {
        Some(MetaValue::Text(t)) => assert_eq!(t, "q-bio.PE"),
        other => panic!("unexpected category: {:?}", other),
    }
    assert_eq!(a.metadata.len(), 2);
    assert_eq!(a.metadata[0].0, "authors");
    assert_eq!(a.metadata[1].0, "primary_category");
}

#[test]
fn entry_without_pdf_link_uses_its_id_as_url() {
    let items = parse_feed(FEED).unwrap();
    let b = &items[1];
    assert_eq!(b.id, "arxiv:2102.00002v2");
    assert_eq!(b.url.as_deref(), Some("http://arxiv.org/abs/2102.00002v2"));
    assert_eq!(b.text, "Second\n\nBody");
    assert!(b.metadata.is_empty());
}

#[test]
fn api_error_entry_fails_the_feed() {
    let xml = r#"<feed><entry><id>http://arxiv.org/api/errors#incorrect_id_format_for_x</id><title>Error</title><summary>incorrect id format for x</summary></entry><entry><id>http://arxiv.org/abs/1</id></entry></feed>"#;
    match parse_feed(xml) {
        Err(FeedError::Api(s)) => assert_eq!(s, "incorrect id format for x"),
        other => panic!("unexpected outcome: {:?}", other),
    }
    let single = r#"<feed><entry><id>http://arxiv.org/api/errors#incorrect_id_format_for_x</id><title>Error</title><summary>incorrect id format for x</summary></entry></feed>"#;
    let err = parse_feed(single).unwrap_err();
    assert_eq!(err.message(), "arXiv API error: incorrect id format for x");
}

#[test]
fn api_error_after_valid_entries_returns_no_items() {
    let xml = r#"<feed><entry><id>http://arxiv.org/abs/1</id><title>ok</title></entry><entry><id>http://arxiv.org/api/errors#x</id><summary>bad query</summary></entry></feed>"#;
    let err = parse_feed(xml).unwrap_err();
    assert!(matches!(&err, FeedError::Api(s) if s == "bad query"));
    assert_eq!(err.message(), "arXiv API error: bad query");
}

#[test]
fn reader_error_message_is_the_readers_message() {
    let err = FeedError::Xml("boom".to_string());
    assert_eq!(err.message(), "boom");
}

#[test]
fn malformed_xml_is_an_xml_error() {
    let xml = "<feed><entry><id>x</id></feed>";
    assert!(matches!(parse_feed(xml), Err(FeedError::Xml(_))));
}

#[test]
fn bad_escape_in_link_attribute_is_an_xml_error() {
    let xml = r#"<feed><entry><id>http://arxiv.org/abs/1</id><link rel="related" title="pdf" href="&nosuch;"/></entry></feed>"#;
    assert!(matches!(parse_feed(xml), Err(FeedError::Xml(_))));
}

#[test]
fn bad_escape_in_text_is_an_xml_error() {
    let xml = r#"<feed><entry><id>http://arxiv.org/abs/1</id><title>a &nosuch; b</title></entry></feed>"#;
    assert!(matches!(parse_feed(xml), Err(FeedError::Xml(_))));
}

#[test]
fn empty_feed_has_no_items() {
    assert_eq!(parse_feed("<feed></feed>").unwrap().len(), 0);
    assert_eq!(parse_feed("").unwrap().len(), 0);
}

#[test]
fn author_id_does_not_overwrite_entry_id() {
    let xml = r#"<feed><entry><id>http://arxiv.org/abs/9</id><author><id>zzz</id><name>N</name></author></entry></feed>"#;
    let items = parse_feed(xml).unwrap();
    assert_eq!(items[0].id, "arxiv:9");
    match meta(&items[0], "authors") {
        Some(MetaValue::TextList(v)) => assert_eq!(v, &vec!["N".to_string()]),
        other => panic!("unexpected authors: {:?}", other),
    }
}

#[test]
fn fields_do_not_leak_into_the_next_entry() {
    let xml = r#"<feed><entry><id>http://x/1</id><title>T</title><author><name>A</name></author><arxiv:primary_category term="cs.AI"/></entry><entry><id>http://x/2</id></entry></feed>"#;
    let items = parse_feed(xml).unwrap();
    assert_eq!(items.len(), 2);
    assert_eq!(items[1].title, "");
    assert_eq!(items[1].text, "\n\n");
    assert!(items[1].metadata.is_empty());
}

#[test]
fn last_item_of_feed_is_the_last_entry() {
    let last = last_item_of_feed(FEED).unwrap().unwrap();
    assert_eq!(last.id, "arxiv:2102.00002v2");
    assert!(last_item_of_feed("<feed/>").unwrap().is_none());
}

fn start(name: &str, attrs: Vec<(&str, Result<&str, &str>)>) -> XmlEvent {
    XmlEvent::Start {
        name: name.to_string(),
        attrs: attrs
            .into_iter()
            .map(|(k, v)| XmlAttr {
                key: k.to_string(),
                value: v.map(|s| s.to_string()).map_err(|s| s.to_string()),
            })
            .collect(),
    }
}

fn end(name: &str) -> XmlEvent {
    XmlEvent::End { name: name.to_string() }
}

fn text(t: &str) -> XmlEvent {
    XmlEvent::Text(Ok(t.to_string()))
}

#[test]
fn one_item_per_closed_entry_from_events() {
    let events = vec![
        start("feed", vec![]),
        start("entry", vec![]),
        start("id", vec![]),
        text("http://arxiv.org/abs/a/b/c"),
        end("id"),
        end("entry"),
        XmlEvent::Other,
        start("entry", vec![]),
        start("title", vec![]),
        text("Two"),
        end("title"),
        end("entry"),
        end("feed"),
        XmlEvent::Eof,
    ];
    let items = feed_from_events(events).unwrap();
    assert_eq!(items.len(), 2);
    assert_eq!(items[0].id, "arxiv:c");
    assert_eq!(items[1].title, "Two");
    assert_eq!(items[1].url.as_deref(), Some(""));
}

#[test]
fn events_after_end_of_input_are_not_read() {
    let events = vec![
        start("entry", vec![]),
        end("entry"),
        XmlEvent::Eof,
        start("entry", vec![]),
        end("entry"),
    ];
    assert_eq!(feed_from_events(events).unwrap().len(), 1);
}

#[test]
fn reader_failure_event_is_an_xml_error() {
    let events = vec![start("entry", vec![]), XmlEvent::Failed("boom".to_string())];
    match feed_from_events(events) {
        Err(FeedError::Xml(m)) => assert_eq!(m, "boom"),
        other => panic!("unexpected outcome: {:?}", other),
    }
}

#[test]
fn unescape_error_only_matters_for_the_category_term() {
    let ok = vec![
        start("entry", vec![]),
        XmlEvent::Empty {
            name: "primary_category".to_string(),
            attrs: vec![
                XmlAttr { key: "scheme".to_string(), value: Err("bad".to_string()) },
                XmlAttr { key: "term".to_string(), value: Ok("cs.LG".to_string()) },
            ],
        },
        end("entry"),
    ];
    let items = feed_from_events(ok).unwrap();
    assert!(matches!(&items[0].metadata[0].1, MetaValue::Text(t) if t == "cs.LG"));
    let bad = vec![
        start("entry", vec![]),
        XmlEvent::Empty {
            name: "link".to_string(),
            attrs: vec![
                XmlAttr { key: "type".to_string(), value: Err("bad".to_string()) },
                XmlAttr { key: "href".to_string(), value: Ok("u".to_string()) },
            ],
        },
    ];
    match feed_from_events(bad) {
        Err(FeedError::Xml(m)) => assert_eq!(m, "bad"),
        other => panic!("unexpected outcome: {:?}", other),
    }
}

#[test]
fn link_outside_an_entry_is_ignored() {
    let events = vec![
        start("link", vec![("rel", Ok("related")), ("title", Ok("pdf")), ("href", Err("bad"))]),
        end("link"),
        start("entry", vec![]),
        start("link", vec![("rel", Ok("related")), ("title", Ok("pdf")), ("href", Ok("P"))]),
        end("link"),
        end("entry"),
    ];
    let items = feed_from_events(events).unwrap();
    assert_eq!(items.len(), 1);
    assert_eq!(items[0].url.as_deref(), Some("P"));
}
