use std::str::FromStr;

use regex::Regex;

use stubr::fields::{HttpQueryParamsStub, HttpReqHeadersStub, RequestMatcherStub};
use stubr::mapping::UrlStubMapper;
use stubr::matcher::MatcherValue;
use stubr::request_stub::RequestStub;
use stubr::url::{HttpUrl, ResolvedUrl, UrlError};

fn request(url: HttpUrl) -> RequestStub {
    RequestStub {
        method: None,
        url,
        headers: HttpReqHeadersStub::none(),
        queries: HttpQueryParamsStub::none(),
        body: None,
        jwt: None,
    }
}

fn pair(key: &str, value: &str) -> (String, String) {
    (String::from(key), String::from(value))
}

#[test]
fn should_map_exact_path() {
    let stub = request(HttpUrl { url: Some(String::from("/api/exact")), ..Default::default() });
    assert_eq!(ResolvedUrl::try_from(&stub).unwrap().path(), "/api/exact")
}

#[test]
fn should_map_exact_path_and_query() {
    let stub = request(HttpUrl { url: Some(String::from("/api/exact?a=b")), ..Default::default() });
    let url = ResolvedUrl::try_from(&stub).unwrap();
    assert_eq!(url.path(), "/api/exact");
    let mut queries = url.query_pairs().iter();
    assert_eq!(url.query_pairs().len(), 1);
    assert_eq!(queries.next().unwrap(), &pair("a", "b"));
}

#[test]
fn should_map_exact_path_and_queries() {
    let stub = request(HttpUrl {
        url: Some(String::from("/api/exact?a=b&c=d&e=f")),
        ..Default::default()
    });
    let url = ResolvedUrl::try_from(&stub).unwrap();
    assert_eq!(url.path(), "/api/exact");
    let mut queries = url.query_pairs().iter();
    assert_eq!(url.query_pairs().len(), 3);
    assert_eq!(queries.next().unwrap(), &pair("a", "b"));
    assert_eq!(queries.next().unwrap(), &pair("c", "d"));
    assert_eq!(queries.next().unwrap(), &pair("e", "f"));
}

#[test]
fn should_not_fail_when_path_missing() {
    let stub = request(HttpUrl { url: None, ..Default::default() });
    assert_eq!(ResolvedUrl::try_from(&stub).unwrap().path(), "/")
}

#[test]
fn url_should_map_exact_path() {
    let stub = request(HttpUrl { url_path: Some(String::from("/api/exact")), ..Default::default() });
    assert_eq!(ResolvedUrl::try_from(&stub).unwrap().path(), "/api/exact")
}

#[test]
fn should_not_fail_when_url_path_missing() {
    let stub = request(HttpUrl { url_path: None, ..Default::default() });
    assert_eq!(ResolvedUrl::try_from(&stub).unwrap().path(), "/")
}

#[test]
fn should_map_url_path_pattern() {
    let regex = "/api/regex/([a-z]{4})";
    let stub = request(HttpUrl { url_path_pattern: Some(String::from(regex)), ..Default::default() });
    let url = ResolvedUrl::try_from(&stub).unwrap();
    assert!(url.path().starts_with("/api/regex/"));
    let regex = Regex::from_str(regex).unwrap();
    assert!(regex.is_match(url.path()));
}

#[test]
fn should_not_fail_when_url_path_pattern_missing() {
    let stub = request(HttpUrl { url_path_pattern: None, ..Default::default() });
    assert_eq!(ResolvedUrl::try_from(&stub).unwrap().path(), "/")
}

#[test]
fn should_map_url_pattern() {
    let (path_regex, query_regex) = ("([a-z]{4})", "([a-z]{4})");
    let regex = format!("/api/regex/{}\\?a={}", path_regex, query_regex);
    let stub = request(HttpUrl { url_pattern: Some(regex), ..Default::default() });
    let url = ResolvedUrl::try_from(&stub).unwrap();
    assert!(url.path().starts_with("/api/regex/"));
    let regex = Regex::from_str(path_regex).unwrap();
    assert!(regex.is_match(url.path()));
    let mut queries = url.query_pairs().iter();
    assert_eq!(url.query_pairs().len(), 1);
    let (k, v) = queries.next().unwrap();
    assert_eq!(k, "a");
    assert!(Regex::from_str(query_regex).unwrap().is_match(&v.to_string()));
}

#[test]
fn should_not_fail_when_url_pattern_missing() {
    let stub = request(HttpUrl { url_pattern: None, ..Default::default() });
    assert_eq!(ResolvedUrl::try_from(&stub).unwrap().path(), "/")
}

#[test]
fn url_should_have_precedence_over_url_path() {
    let stub = request(HttpUrl {
        url: Some(String::from("/url")),
        url_path: Some(String::from("/url-path")),
        ..Default::default()
    });
    assert_eq!(UrlStubMapper::url_matcher(&stub), Some(("/url", false)))
}

#[test]
fn url_should_have_precedence_over_url_pattern() {
    let stub = request(HttpUrl {
        url: Some(String::from("/url")),
        url_pattern: Some(String::from("/url-pattern")),
        ..Default::default()
    });
    assert_eq!(UrlStubMapper::url_matcher(&stub), Some(("/url", false)))
}

#[test]
fn url_should_have_precedence_over_url_path_pattern() {
    let stub = request(HttpUrl {
        url: Some(String::from("/url")),
        url_path_pattern: Some(String::from("/url-path-pattern")),
        ..Default::default()
    });
    assert_eq!(UrlStubMapper::url_matcher(&stub), Some(("/url", false)))
}

#[test]
fn url_path_should_have_precedence_over_url_pattern() {
    let stub = request(HttpUrl {
        url_path: Some(String::from("/url-path")),
        url_pattern: Some(String::from("/url-pattern")),
        ..Default::default()
    });
    assert_eq!(UrlStubMapper::url_matcher(&stub), Some(("/url-path", false)))
}

#[test]
fn url_path_should_have_precedence_over_url_path_pattern() {
    let stub = request(HttpUrl {
        url_path: Some(String::from("/url-path")),
        url_path_pattern: Some(String::from("/url-path-pattern")),
        ..Default::default()
    });
    assert_eq!(UrlStubMapper::url_matcher(&stub), Some(("/url-path", false)))
}

#[test]
fn url_pattern_should_have_precedence_over_url_path_pattern() {
    let stub = request(HttpUrl {
        url_pattern: Some(String::from("/url-pattern")),
        url_path_pattern: Some(String::from("/url-path-pattern")),
        ..Default::default()
    });
    assert_eq!(UrlStubMapper::url_matcher(&stub), Some(("/url-pattern", true)))
}

#[test]
fn should_map_url_with_queries() {
    let url = HttpUrl { url: Some(String::from("/api/exact?a=b")), ..Default::default() };
    let matcher_c = MatcherValue::EqualTo(String::from("d"));
    let matcher_e = MatcherValue::EqualTo(String::from("f"));
    let query_parameters = vec![
        RequestMatcherStub { key: String::from("c"), value: matcher_c },
        RequestMatcherStub { key: String::from("e"), value: matcher_e },
    ];
    let queries = HttpQueryParamsStub::try_new(Some(query_parameters)).unwrap();
    let stub = RequestStub { queries, ..request(url) };
    let url = ResolvedUrl::try_from(&stub).unwrap();
    assert_eq!(url.path(), "/api/exact");
    let mut queries = url.query_pairs().iter();
    assert_eq!(url.query_pairs().len(), 3);
    assert_eq!(queries.next().unwrap(), &pair("a", "b"));
    assert_eq!(queries.next().unwrap(), &pair("c", "d"));
    assert_eq!(queries.next().unwrap(), &pair("e", "f"));
}

#[test]
fn all_four_rules_resolve_in_the_fixed_order() {
    let mut url = HttpUrl {
        url: Some(String::from("/url")),
        url_path: Some(String::from("/url-path")),
        url_pattern: Some(String::from("/url-pattern")),
        url_path_pattern: Some(String::from("/url-path-pattern")),
    };
    assert_eq!(UrlStubMapper::url_matcher(&request(HttpUrl { ..clone(&url) })), Some(("/url", false)));
    url.url = None;
    assert_eq!(UrlStubMapper::url_matcher(&request(clone(&url))), Some(("/url-path", false)));
    url.url_path = None;
    assert_eq!(UrlStubMapper::url_matcher(&request(clone(&url))), Some(("/url-pattern", true)));
    url.url_pattern = None;
    assert_eq!(UrlStubMapper::url_matcher(&request(clone(&url))), Some(("/url-path-pattern", true)));
    url.url_path_pattern = None;
    let stub = request(url);
    assert_eq!(UrlStubMapper::url_matcher(&stub), None);
    assert_eq!(UrlStubMapper::url_from_matcher(&stub), "");
    assert_eq!(ResolvedUrl::try_from(&stub).unwrap().path(), "/");
    assert!(ResolvedUrl::try_from(&stub).unwrap().query_pairs().is_empty());
}

fn clone(url: &HttpUrl) -> HttpUrl {
    HttpUrl {
        url: url.url.clone(),
        url_path: url.url_path.clone(),
        url_pattern: url.url_pattern.clone(),
        url_path_pattern: url.url_path_pattern.clone(),
    }
}

#[test]
fn exact_rule_stands_for_itself() {
    let stub = request(HttpUrl { url_path: Some(String::from("/a/b")), ..Default::default() });
    assert_eq!(UrlStubMapper::url_from_matcher(&stub), "/a/b");
    assert_eq!(
        UrlStubMapper::url_from_generated(Some(("/x", false)), Some(String::from("/drawn"))),
        "/x"
    );
}

#[test]
fn pattern_stands_for_what_was_drawn_or_nothing() {
    assert_eq!(
        UrlStubMapper::url_from_generated(Some(("/[a-z]", true)), Some(String::from("/q"))),
        "/q"
    );
    assert_eq!(UrlStubMapper::url_from_generated(Some(("/[a-z]", true)), None), "");
    assert_eq!(UrlStubMapper::url_from_generated(None, Some(String::from("/q"))), "");
}

#[test]
fn pattern_that_is_no_regex_gives_empty_reference() {
    let stub = request(HttpUrl { url_path_pattern: Some(String::from("/api/(")), ..Default::default() });
    assert_eq!(UrlStubMapper::url_from_matcher(&stub), "");
    assert_eq!(ResolvedUrl::try_from(&stub).unwrap().path(), "/");
}

#[test]
fn anchored_pattern_cannot_be_generated() {
    let stub = request(HttpUrl { url_pattern: Some(String::from("^/api$")), ..Default::default() });
    assert_eq!(UrlStubMapper::url_from_matcher(&stub), "");
}

#[test]
fn reference_is_resolved_by_the_url_library() {
    let none: Vec<(String, String)> = Vec::new();
    let url = ResolvedUrl::resolve("/a/../b/./c?x=1%202&y=%C3%A9", &none).unwrap();
    assert_eq!(url.path(), "/b/c");
    assert_eq!(url.query_pairs(), &vec![pair("x", "1 2"), pair("y", "é")]);
    let url = ResolvedUrl::resolve("relative path", &vec![pair("k", "v")]).unwrap();
    assert_eq!(url.path(), "/relative%20path");
    assert_eq!(url.query_pairs(), &vec![pair("k", "v")]);
}

#[test]
fn reference_that_is_no_url_is_refused() {
    let none: Vec<(String, String)> = Vec::new();
    assert!(matches!(ResolvedUrl::resolve("http://[", &none), Err(UrlError::Malformed)));
    let stub = request(HttpUrl { url: Some(String::from("http://[")), ..Default::default() });
    assert!(matches!(ResolvedUrl::try_from(&stub), Err(UrlError::Malformed)));
}
