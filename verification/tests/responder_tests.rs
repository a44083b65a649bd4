use di_registry::closure::{Closure, ClosureRoute};
use di_registry::factory::Factory;
use di_registry::pattern::Pattern;
use di_registry::raw::Raw;
use di_registry::stringly::Stringly;
use di_registry::traits::Traits;
use di_registry::traits_macro::{dispatcher, MacroReply, MacroRoute, TraitsMacro};
use di_registry::url::{strip_url_prefix, UrlParts};

#[test]
fn closure_routes_by_first_component() {
    let c = Closure {};
    assert_eq!(c.route(&UrlParts::new("/")), ClosureRoute::Root);
    assert_eq!(c.route(&UrlParts::new("/path/x")), ClosureRoute::Params);
    assert_eq!(c.route(&UrlParts::new("/query?a=b")), ClosureRoute::Query);
    assert_eq!(c.route(&UrlParts::new("/both/bar?baz")), ClosureRoute::Both);
    assert_eq!(c.route(&UrlParts::new("/other")), ClosureRoute::NotFound);
}

#[test]
fn pattern_matches_single_capture() {
    let p = Pattern {};
    let parts = strip_url_prefix("/pattern/foo/bar", "/pattern");
    assert_eq!(p.route(&parts).unwrap(), "bar");
    let empty = strip_url_prefix("/pattern/foo/", "/pattern");
    assert_eq!(p.route(&empty).unwrap(), "");
    assert!(p.route(&UrlParts::new("/foo/bar/baz")).is_none());
    assert!(p.route(&UrlParts::new("/other")).is_none());
    assert!(p.route(&UrlParts::new("/")).is_none());
}

#[test]
fn raw_strips_only_the_router_prefix() {
    let r = Raw {};
    assert_eq!(r.respond("/raw/foo/bar?baz", "/raw"), "/foo/bar?baz");
}

#[test]
fn stringly_joins_components() {
    let s = Stringly {};
    assert_eq!(s.respond(&UrlParts::new("/foo/bar/baz?x")), "foo|bar|baz");
    assert_eq!(s.respond(&UrlParts::new("/")), "");
    assert_eq!(s.respond(&UrlParts::new("/solo")), "solo");
}

#[test]
fn traits_round_trips_through_capabilities() {
    let t = Traits {};
    let (components, query) = t.respond(&UrlParts::new("/a/b?k=v"));
    assert_eq!(components, vec!["a", "b"]);
    assert_eq!(query.len(), 1);
    assert_eq!(query.get("k").unwrap().as_str(), "v");
}

#[test]
fn traits_macro_dispatches_and_derives() {
    assert_eq!(dispatcher(&UrlParts::new("/")), MacroRoute::Root);
    assert_eq!(dispatcher(&UrlParts::new("/nope")), MacroRoute::NotFound);

    let tm = TraitsMacro {};
    match tm.respond(UrlParts::new("/path/one/two")) {
        MacroReply::Paths(v) => assert_eq!(v, vec!["path", "one", "two"]),
        _ => panic!("the path route replies with the components"),
    }
    match tm.respond(UrlParts::new("/query?a=1")) {
        MacroReply::Query(q) => {
            assert_eq!(q.len(), 1);
            assert_eq!(q.get("a").unwrap().as_str(), "1");
        },
        _ => panic!("the query route replies with the arguments"),
    }
    match tm.respond(UrlParts::new("/both/x?y=z")) {
        MacroReply::Both(v, q) => {
            assert_eq!(v, vec!["both", "x"]);
            assert_eq!(q.get("y").unwrap().as_str(), "z");
        },
        _ => panic!("the both route replies with components and arguments"),
    }
    match tm.respond(UrlParts::new("/all/x?y=z")) {
        MacroReply::All(p, v, q) => {
            assert_eq!(p, "/all/x");
            assert_eq!(v, vec!["all", "x"]);
            assert_eq!(q.get("y").unwrap().as_str(), "z");
        },
        _ => panic!("the all route replies with path, components and arguments"),
    }
    match tm.respond(UrlParts::new("/")) {
        MacroReply::Root => (),
        _ => panic!("no components reach the index"),
    }
}

#[test]
fn factory_counts_across_requests() {
    let mut f = Factory::new();
    let first = f.respond(strip_url_prefix("/factory/", "/factory"));
    let second = f.respond(strip_url_prefix("/factory/", "/factory"));
    match (first, second) {
        (Ok(a), Ok(b)) => {
            assert_eq!(a, 1);
            assert_eq!(b, 2);
        },
        _ => panic!("the counter is registered by the constructor"),
    }
}
