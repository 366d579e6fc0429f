use opml::feeds::flatten;
use opml::{Body, Head, Opml, OpmlError, Outline};

fn node(text: &str, kind: Option<&str>, url: Option<&str>, kids: Option<Vec<Outline>>) -> Outline {
    Outline {
        text: text.to_string(),
        type_: kind.map(|k| k.to_string()),
        xml_url: url.map(|u| u.to_string()),
        outline: kids,
        ..Outline::default()
    }
}

fn doc(outlines: Vec<Outline>) -> Opml {
    Opml {
        version: "2.0".to_string(),
        head: Head::default(),
        body: Body { outline: outlines },
    }
}

#[test]
fn default_document_is_empty() {
    let d = Opml::default();
    assert_eq!(d.version, "2.0");
    assert_eq!(d.head, Head::default());
    assert!(d.head.title.is_none());
    assert!(d.head.window_bottom.is_none());
    assert!(d.body.outline.is_empty());
}

#[test]
fn default_outline_is_blank() {
    let o = Outline::default();
    assert_eq!(o.text, "");
    assert!(o.outline.is_none());
    assert!(o.type_.is_none());
    assert!(o.xml_url.is_none());
    assert!(o.extra.is_empty());
}

#[test]
fn absent_field_differs_from_empty_field() {
    let mut h = Head::default();
    h.title = Some(String::new());
    assert_ne!(h, Head::default());
}

#[test]
fn empty_body_gives_no_urls() {
    let d = Opml {
        version: "x".to_string(),
        head: Head::default(),
        body: Body::default(),
    };
    assert_eq!(d.get_xml_urls().unwrap(), Vec::<String>::new());
}

#[test]
fn single_feed_gives_its_url() {
    let d = doc(vec![node("a", Some("rss"), Some("http://example.com/feed"), None)]);
    assert_eq!(d.get_xml_urls().unwrap(), vec!["http://example.com/feed".to_string()]);
}

#[test]
fn feed_without_url_is_bad_rss() {
    let d = doc(vec![
        node("a", Some("rss"), Some("http://a/"), None),
        node("b", Some("rss"), None, None),
        node("c", Some("rss"), Some("http://c/"), None),
    ]);
    match d.get_xml_urls() {
        Err(OpmlError::BadRss(m)) => assert_eq!(m, "missing xml_url"),
        other => panic!("expected BadRss, got {:?}", other),
    }
}

#[test]
fn nested_feed_without_url_is_bad_rss() {
    let inner = node("deep", Some("rss"), None, None);
    let d = doc(vec![node("top", None, None, Some(vec![node("mid", None, None, Some(vec![inner]))]))]);
    assert!(matches!(d.get_xml_urls(), Err(OpmlError::BadRss(_))));
}

#[test]
fn non_feeds_never_contribute() {
    let d = doc(vec![
        node("none", None, Some("http://none/"), None),
        node("link", Some("link"), Some("http://link/"), None),
        node("upper", Some("RSS"), Some("http://upper/"), None),
        node("link without url", Some("link"), None, None),
    ]);
    assert_eq!(d.get_xml_urls().unwrap(), Vec::<String>::new());
}

#[test]
fn urls_come_parent_first_then_left_to_right() {
    let tree = vec![
        node(
            "p",
            Some("rss"),
            Some("http://p/"),
            Some(vec![
                node("c1", Some("rss"), Some("http://c1/"), Some(vec![node("g", Some("rss"), Some("http://g/"), None)])),
                node("c2", Some("link"), Some("http://c2/"), None),
                node("c3", Some("rss"), Some("http://c3/"), None),
            ]),
        ),
        node("q", None, None, Some(vec![node("q1", Some("rss"), Some("http://q1/"), None)])),
        node("r", Some("rss"), Some("http://r/"), None),
    ];
    let d = doc(tree);
    assert_eq!(
        d.get_xml_urls().unwrap(),
        vec!["http://p/", "http://c1/", "http://g/", "http://c3/", "http://q1/", "http://r/"]
            .into_iter()
            .map(String::from)
            .collect::<Vec<String>>()
    );
}

#[test]
fn siblings_keep_their_order() {
    let d = doc(vec![
        node("a", Some("rss"), Some("a"), None),
        node("b", Some("rss"), Some("b"), None),
        node("c", Some("rss"), Some("c"), None),
    ]);
    assert_eq!(d.get_xml_urls().unwrap(), vec!["a".to_string(), "b".to_string(), "c".to_string()]);
}

#[test]
fn flatten_visits_in_pre_order() {
    let root = node(
        "1",
        None,
        None,
        Some(vec![node("2", None, None, Some(vec![node("3", None, None, None)])), node("4", None, None, None)]),
    );
    let mut acc: Vec<&Outline> = Vec::new();
    flatten(&root, &mut acc);
    let texts: Vec<&str> = acc.iter().map(|o| o.text.as_str()).collect();
    assert_eq!(texts, vec!["1", "2", "3", "4"]);
    let empty_kids = node("5", None, None, Some(Vec::new()));
    flatten(&empty_kids, &mut acc);
    assert_eq!(acc.len(), 5);
    assert_eq!(acc[4].text, "5");
}

#[test]
fn extension_attributes_are_kept_and_compared() {
    let mut a = Outline::default();
    a.extra.insert("foo".to_string(), "bar".to_string());
    assert_eq!(a.extra.get("foo").map(String::as_str), Some("bar"));
    let b = Outline::default();
    assert_ne!(a, b);
}

#[test]
fn clone_copies_the_whole_tree() {
    let mut leaf = node("leaf", Some("rss"), Some("http://leaf/"), None);
    leaf.extra.insert("foo".to_string(), "bar".to_string());
    leaf.description = Some(String::new());
    let mut d = doc(vec![node("top", None, None, Some(vec![leaf]))]);
    d.head.title = Some("t".to_string());
    let copy = d.clone();
    assert_eq!(copy, d);
    let kids = copy.body.outline[0].outline.as_ref().unwrap();
    assert_eq!(kids[0].extra.get("foo").map(String::as_str), Some("bar"));
    assert_eq!(kids[0].description, Some(String::new()));
    assert_eq!(copy.get_xml_urls().unwrap(), vec!["http://leaf/".to_string()]);
    d.body.outline.clear();
    assert_eq!(copy.body.outline.len(), 1);
}
