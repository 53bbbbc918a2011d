use httpie::{build_body, parse_post, CliError, Command};

fn tokens(ts: &[&str]) -> Vec<String> {
    ts.iter().map(|t| t.to_string()).collect()
}

#[test]
fn post_arguments_are_read() {
    let c = parse_post("http://example.test/items", &tokens(&["name=widget", "qty=3"])).unwrap();
    match c {
        Command::Post { url, pairs } => {
            assert_eq!(url, "http://example.test/items");
            let got: Vec<(&str, &str)> = pairs.iter().map(|p| (p.k.as_str(), p.v.as_str())).collect();
            assert_eq!(got, vec![("name", "widget"), ("qty", "3")]);
            let body = build_body(&pairs);
            assert_eq!(body.get("name"), Some("widget".to_string()));
            assert_eq!(body.get("qty"), Some("3".to_string()));
        }
        other => panic!("unexpected {:?}", other),
    }
}

#[test]
fn post_without_pairs_is_accepted() {
    match parse_post("http://example.test/items", &vec![]).unwrap() {
        Command::Post { pairs, .. } => assert!(pairs.is_empty()),
        other => panic!("unexpected {:?}", other),
    }
}

#[test]
fn post_to_no_url_is_refused() {
    match parse_post("not-a-url", &tokens(&["k=v"])) {
        Err(CliError::InvalidUrl(t)) => assert_eq!(t, "not-a-url"),
        other => panic!("unexpected {:?}", other),
    }
}

#[test]
fn post_with_a_bad_token_is_refused() {
    match parse_post("http://example.test/items", &tokens(&["badtoken"])) {
        Err(CliError::InvalidPair(t)) => assert_eq!(t, "badtoken"),
        other => panic!("unexpected {:?}", other),
    }
}

#[test]
fn first_bad_token_is_reported() {
    match parse_post("http://example.test/items", &tokens(&["a=1", "x", "y", "b=2"])) {
        Err(CliError::InvalidPair(t)) => assert_eq!(t, "x"),
        other => panic!("unexpected {:?}", other),
    }
}

#[test]
fn url_is_checked_before_the_tokens() {
    assert!(matches!(
        parse_post("not a url", &tokens(&["badtoken"])),
        Err(CliError::InvalidUrl(_))
    ));
}
