use freshrss_reader::serde_rss::{
    Alternate, Canonical, Enclosure, Origin, RssItem, RssReadingList, Summary,
};

fn item(title: &str) -> RssItem {
    RssItem {
        id: "tag:google.com,2005:reader/item/0001".to_string(),
        crawl_time_msec: "1700000000000".to_string(),
        timestamp_usec: "1700000000000000".to_string(),
        published: 1_700_000_000,
        title: title.to_string(),
        canonical: vec![Canonical { href: "https://blog.example/post".to_string() }],
        alternate: vec![Alternate { href: "https://blog.example/post".to_string() }],
        categories: vec!["user/-/state/com.google/reading-list".to_string()],
        origin: Origin {
            stream_id: "feed/1".to_string(),
            html_url: "https://blog.example/".to_string(),
            title: "Blog".to_string(),
        },
        summary: Summary { content: "<p>Hello</p>".to_string() },
        enclosure: vec![],
        author: Some("Alice".to_string()),
    }
}

#[test]
fn defaults_are_empty() {
    let list = RssReadingList::default();
    assert_eq!(list.id, "");
    assert_eq!(list.updated, 0);
    assert!(list.items.is_empty());
    assert_eq!(list.continuation, "");
    let i = RssItem::default();
    assert_eq!(i.title, "");
    assert_eq!(i.published, 0);
    assert!(i.canonical.is_empty() && i.alternate.is_empty() && i.categories.is_empty());
    assert_eq!(i.origin, Origin::default());
    assert_eq!(i.summary, Summary::default());
    assert!(i.enclosure.is_empty());
    assert_eq!(i.author, None);
    let e = Enclosure::default();
    assert_eq!((e.href.as_str(), e.type_field.as_str(), e.length), ("", "", None));
    assert_eq!(Canonical::default().href, "");
    assert_eq!(Alternate::default().href, "");
}

#[test]
fn equal_contents_are_equal() {
    let a = RssReadingList {
        id: "user/-/state/com.google/reading-list".to_string(),
        updated: 1_700_000_001,
        items: vec![item("First"), item("Second")],
        continuation: "abc".to_string(),
    };
    let b = a.clone();
    assert!(a == b);
    assert!(item("x") == item("x"));
}

#[test]
fn different_contents_are_not_equal() {
    assert!(item("x") != item("y"));
    let mut i = item("x");
    i.author = None;
    assert!(i != item("x"));
    let mut j = item("x");
    j.categories.push("extra".to_string());
    assert!(j != item("x"));
    let mut k = item("x");
    k.enclosure.push(Enclosure { href: "a.mp3".to_string(), type_field: "audio/mpeg".to_string(), length: Some(3) });
    let mut l = k.clone();
    assert!(k == l);
    l.enclosure[0].length = None;
    assert!(k != l);
    let a = RssReadingList { id: "a".to_string(), updated: 1, items: vec![item("x")], continuation: String::new() };
    let mut b = a.clone();
    b.items[0].origin.title = "Other".to_string();
    assert!(a != b);
}
