use httpie::{build_body, KvPair};

fn kv(k: &str, v: &str) -> KvPair {
    KvPair { k: k.to_string(), v: v.to_string() }
}

#[test]
fn last_value_wins_for_a_repeated_key() {
    let body = build_body(&vec![kv("a", "1"), kv("a", "2")]);
    assert_eq!(body.len(), 1);
    assert_eq!(body.get("a"), Some("2".to_string()));
    let e = body.entries();
    assert_eq!(e.len(), 1);
    assert_eq!((e[0].k.as_str(), e[0].v.as_str()), ("a", "2"));
}

#[test]
fn distinct_keys_are_all_kept() {
    let body = build_body(&vec![kv("name", "widget"), kv("qty", "3")]);
    assert_eq!(body.len(), 2);
    assert_eq!(body.get("name"), Some("widget".to_string()));
    assert_eq!(body.get("qty"), Some("3".to_string()));
    assert_eq!(body.get("price"), None);
}

#[test]
fn repeated_key_keeps_its_first_place() {
    let body = build_body(&vec![kv("a", "1"), kv("b", "2"), kv("a", "3"), kv("c", "4")]);
    let keys: Vec<&str> = body.entries().iter().map(|p| p.k.as_str()).collect();
    assert_eq!(keys, vec!["a", "b", "c"]);
    assert_eq!(body.get("a"), Some("3".to_string()));
}

#[test]
fn no_pairs_give_an_empty_body() {
    let body = build_body(&vec![]);
    assert_eq!(body.len(), 0);
    assert!(body.entries().is_empty());
    assert_eq!(body.get(""), None);
}
