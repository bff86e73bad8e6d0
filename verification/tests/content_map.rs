use nested_tooltips::content::{ContentEntry, TooltipMap, TooltipsContent};

fn entry(title: &str, body: &str) -> ContentEntry {
    ContentEntry {
        title: title.to_string(),
        content: vec![TooltipsContent::String(body.to_string())],
    }
}

#[test]
fn empty_map_has_no_entries() {
    let map = TooltipMap::new();
    assert!(map.get(&"anything".to_string()).is_none());
}

#[test]
fn insert_then_get_returns_the_entry() {
    let mut map = TooltipMap::new();
    map.insert("tooltip".to_string(), entry("ToolTip", "A way to show info"));
    let got = map.get(&"tooltip".to_string()).expect("key must resolve");
    assert_eq!(got.title, "ToolTip");
    assert_eq!(got.content.len(), 1);
    assert!(map.get(&"other".to_string()).is_none());
}

#[test]
fn insert_replaces_and_keeps_other_keys() {
    let mut map = TooltipMap::new();
    map.insert("a".to_string(), entry("A", "first"));
    map.insert("b".to_string(), entry("B", "second"));
    map.insert("a".to_string(), entry("A2", "replaced"));
    assert_eq!(map.get(&"a".to_string()).unwrap().title, "A2");
    assert_eq!(map.get(&"b".to_string()).unwrap().title, "B");
    assert_eq!(map.map.len(), 2);
}

#[test]
fn segment_texts_are_kept_verbatim() {
    let seg = TooltipsContent::Term("recursive".to_string());
    match &seg {
        TooltipsContent::Term(s) => assert_eq!(s, "recursive"),
        _ => panic!("wrong variant"),
    }
}
