use di_registry::url::{strip_prefix, strip_url_prefix, url_prefix, UrlParts};

#[test]
fn strip_prefix_basic() {
    assert_eq!(strip_prefix("/foo/bar/baz", "/foo"), "/bar/baz");
}

#[test]
fn urlparts_basic() {
    let parts = UrlParts::new("/foo/bar/baz?bing&bang=boom");
    assert_eq!(parts.path(), "/foo/bar/baz");
    assert_eq!(parts.path_components(), &vec!["foo", "bar", "baz"]);
    assert_eq!(parts.query().len(), 2);
    assert_eq!(parts.query().get("bing").unwrap().as_str(), "");
    assert_eq!(parts.query().get("bang").unwrap().as_str(), "boom");
}

#[test]
fn urlparts_empty() {
    let parts = UrlParts::new("/");
    assert_eq!(parts.path(), "/");
    assert_eq!(parts.path_components().len(), 0);
    assert_eq!(parts.query().len(), 0);
}

#[test]
fn split_url_basic() {
    assert_eq!(strip_url_prefix("/foo", "/foo").path(), "/");
    assert_eq!(strip_url_prefix("/foo/", "/foo").path(), "/");
    assert_eq!(strip_url_prefix("/foo/bar", "/foo").path(), "/bar");
}

#[test]
fn urlparts_repeated_slashes() {
    let parts = UrlParts::new("/a//b///c");
    assert_eq!(parts.path(), "/a//b///c");
    assert_eq!(parts.path_components(), &vec!["a", "b", "c"]);
}

#[test]
fn urlparts_trailing_question_mark() {
    let parts = UrlParts::new("/x?");
    assert_eq!(parts.path(), "/x");
    assert_eq!(parts.query().len(), 1);
    assert_eq!(parts.query().get("").unwrap().as_str(), "");
}

#[test]
fn urlparts_duplicate_query_keys_last_wins() {
    let parts = UrlParts::new("/x?a=1&a=2");
    assert_eq!(parts.query().len(), 1);
    assert_eq!(parts.query().get("a").unwrap().as_str(), "2");
}

#[test]
fn urlparts_query_value_with_equals() {
    let parts = UrlParts::new("/x?k=a=b");
    assert_eq!(parts.query().get("k").unwrap().as_str(), "a=b");
    assert!(parts.query().get("missing").is_none());
}

#[test]
fn urlparts_question_mark_in_query_kept() {
    let parts = UrlParts::new("/p?q=a?b");
    assert_eq!(parts.path(), "/p");
    assert_eq!(parts.query().get("q").unwrap().as_str(), "a?b");
}

#[test]
fn url_prefix_basic() {
    assert_eq!(url_prefix("/closure/both/bar?baz"), "closure");
    assert_eq!(url_prefix("/raw"), "raw");
    assert_eq!(url_prefix("/"), "");
    assert_eq!(url_prefix("/traits?x"), "traits");
}
