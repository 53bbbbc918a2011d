use httpie::{parse_url, url_verdict, CliError};

#[test]
fn absolute_url_is_returned_unchanged() {
    for u in [
        "http://example.test/items",
        "https://example.test:8443/a/b?x=1#frag",
        "http://127.0.0.1:1/x",
        "mailto:someone@example.test",
    ] {
        assert_eq!(parse_url(u).unwrap(), u);
    }
}

#[test]
fn text_that_is_no_url_is_refused() {
    match parse_url("not a url") {
        Err(CliError::InvalidUrl(t)) => assert_eq!(t, "not a url"),
        other => panic!("unexpected {:?}", other),
    }
    assert!(matches!(parse_url("not-a-url"), Err(CliError::InvalidUrl(_))));
    assert!(matches!(parse_url(""), Err(CliError::InvalidUrl(_))));
    assert!(matches!(parse_url("/items"), Err(CliError::InvalidUrl(_))));
    assert!(matches!(parse_url("1http://x"), Err(CliError::InvalidUrl(_))));
}

#[test]
fn verdict_follows_the_parser() {
    assert_eq!(url_verdict("anything", true).unwrap(), "anything");
    match url_verdict("anything", false) {
        Err(CliError::InvalidUrl(t)) => assert_eq!(t, "anything"),
        other => panic!("unexpected {:?}", other),
    }
}
