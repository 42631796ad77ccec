use stubr::fields::FieldKind;
use stubr::matcher::MatcherValue;
use stubr::record::{
    body_from, capture, is_excluded, is_first, is_listed, is_only, keep, some_or_none,
    stands_for_its_name, ObservedResponse,
    RecordConfig, RecordedExchange,
};
use stubr::request::ObservedRequest;
use stubr::request_stub::RequestStub;
use stubr::response::{ResponseBody, ResponseStub};
use stubr::stub::{Config, JsonStub};

fn pair(key: &str, value: &str) -> (String, String) {
    (String::from(key), String::from(value))
}

fn exchange(headers: Vec<(String, String)>, queries: Vec<(String, String)>) -> RecordedExchange {
    RecordedExchange {
        request: ObservedRequest {
            method: String::from("GET"),
            path: String::from("/headers/resp/one"),
            query: None,
            queries,
            headers,
            body: String::new(),
            body_selections: Vec::new(),
            jwt_payload: None,
            jwt_selections: Vec::new(),
        },
        response: ObservedResponse {
            status: 200,
            headers: vec![pair("x-a", "a"), pair("x-b", "b")],
            body: String::from("{\"name\":\"bob\"}"),
        },
    }
}

fn keys(stub: Option<&Vec<stubr::fields::RequestMatcherStub>>) -> Vec<String> {
    match stub {
        Some(rules) => rules.iter().map(|rule| rule.key.clone()).collect(),
        None => Vec::new(),
    }
}

#[test]
fn default_config_excludes_host_and_user_agent() {
    let config = RecordConfig::default();
    assert_eq!(config.port, None);
    assert_eq!(config.output, None);
    assert_eq!(
        config.except_request_headers,
        Some(vec![String::from("host"), String::from("user-agent")])
    );
    assert_eq!(config.except_response_headers, None);
}

#[test]
fn default_config_records_only_other_headers() {
    let observed = exchange(vec![pair("host", "x"), pair("user-agent", "y"), pair("x-a", "a")], Vec::new());
    let stub = JsonStub::from_exchange(&observed, &RecordConfig::default());
    assert_eq!(keys(stub.request.headers.get_headers()), vec![String::from("x-a")]);
    let rules = stub.request.headers.get_headers().unwrap();
    assert!(matches!(&rules[0].value, MatcherValue::EqualTo(value) if value == "a"));
}

#[test]
fn recorded_stub_has_no_identity() {
    let stub = JsonStub::from_exchange(&exchange(Vec::new(), Vec::new()), &RecordConfig::default());
    assert!(stub.id.is_none());
    assert!(stub.uuid.is_none());
    assert!(stub.priority.is_none());
    assert_eq!(stub.request.method.as_deref(), Some("GET"));
    assert_eq!(stub.request.url.url_path.as_deref(), Some("/headers/resp/one"));
    assert!(stub.request.url.url.is_none());
    assert!(stub.request.url.url_pattern.is_none());
    assert!(stub.request.url.url_path_pattern.is_none());
    assert!(stub.request.headers.get_headers().is_none());
    assert!(stub.request.queries.get_queries().is_none());
    assert!(stub.request.body.is_none());
    assert!(stub.request.jwt.is_none());
}

#[test]
fn response_is_recorded_with_its_headers_and_readable_body() {
    let stub = JsonStub::from_exchange(&exchange(Vec::new(), Vec::new()), &RecordConfig::default());
    assert_eq!(stub.response.status, 200);
    assert!(stub.response.delay_ms.is_none());
    assert_eq!(stub.response.headers, vec![pair("x-a", "a"), pair("x-b", "b")]);
    assert!(matches!(&stub.response.body, ResponseBody::InlineJson(text) if text == "{\n  \"name\": \"bob\"\n}"));
    let config = RecordConfig {
        except_response_headers: Some(vec![String::from("x-a")]),
        ..RecordConfig::default()
    };
    let stub = ResponseStub::from_exchange(&exchange(Vec::new(), Vec::new()), &config);
    assert_eq!(stub.headers, vec![pair("x-b", "b")]);
}

#[test]
fn body_is_recorded_by_kind() {
    assert!(matches!(body_from("", None), ResponseBody::Empty));
    assert!(matches!(body_from("", Some(String::from("x"))), ResponseBody::Empty));
    assert!(matches!(body_from("hello", None), ResponseBody::InlineText(text) if text == "hello"));
    assert!(matches!(body_from("1", Some(String::from("1"))), ResponseBody::InlineJson(text) if text == "1"));
    let mut observed = exchange(Vec::new(), Vec::new());
    observed.response.body = String::from("plain text");
    let stub = ResponseStub::from_exchange(&observed, &RecordConfig::default());
    assert!(matches!(&stub.body, ResponseBody::InlineText(text) if text == "plain text"));
    observed.response.body = String::new();
    let stub = ResponseStub::from_exchange(&observed, &RecordConfig::default());
    assert!(matches!(&stub.body, ResponseBody::Empty));
}

#[test]
fn queries_are_recorded_as_equalities() {
    let observed = exchange(Vec::new(), vec![pair("a", "1"), pair("host", "h"), pair("a", "2"), pair("b", "")]);
    let stub = RequestStub::from_exchange(&observed, &RecordConfig::default());
    let rules = stub.queries.get_queries().unwrap();
    assert_eq!(rules.len(), 3);
    assert!(stubr::fields::keys_are_distinct(rules));
    assert!(matches!((&rules[0].key, &rules[0].value), (key, MatcherValue::EqualTo(value)) if key == "a" && value == "1"));
    assert!(matches!((&rules[1].key, &rules[1].value), (key, MatcherValue::EqualTo(value)) if key == "host" && value == "h"));
    assert!(matches!((&rules[2].key, &rules[2].value), (key, MatcherValue::EqualTo(value)) if key == "b" && value.is_empty()));
}

#[test]
fn recorded_stub_replays_its_own_request() {
    let observed = exchange(
        vec![pair("host", "x"), pair("host", "again"), pair("x-a", "a"), pair("accept", "*/*")],
        vec![pair("a", "1"), pair("a", "2"), pair("b", "")],
    );
    let stub = JsonStub::from_exchange(&observed, &RecordConfig::default());
    let mock = stub.try_creating_from(&Config::default()).unwrap();
    assert!(mock.matches(&observed.request));
    assert_eq!(mock.predicate.constraints.len(), 6);
    let mut other = exchange(vec![pair("x-a", "b"), pair("accept", "*/*")], vec![pair("a", "1"), pair("b", "")]);
    assert!(!mock.matches(&other.request));
    other.request.headers = vec![pair("x-a", "a"), pair("accept", "*/*"), pair("host", "elsewhere")];
    assert!(mock.matches(&other.request));
    other.request.path = String::from("/headers/resp/two");
    assert!(!mock.matches(&other.request));
}

#[test]
fn repeated_header_is_left_out_of_the_recording() {
    let observed = exchange(
        vec![pair("x-a", "a"), pair("x-b", "b"), pair("x-a", "again")],
        vec![pair("q", "1"), pair("q", "2")],
    );
    let stub = JsonStub::from_exchange(&observed, &RecordConfig::default());
    assert_eq!(keys(stub.request.headers.get_headers()), vec![String::from("x-b")]);
    assert_eq!(keys(stub.request.queries.get_queries()), vec![String::from("q")]);
    let mock = stub.try_creating_from(&Config::default()).unwrap();
    assert!(observed.request.is_valid());
    assert!(mock.matches(&observed.request));
    let only_repeated = exchange(vec![pair("x-a", "a"), pair("x-a", "a")], Vec::new());
    let stub = JsonStub::from_exchange(&only_repeated, &RecordConfig::default());
    assert!(stub.request.headers.get_headers().is_none());
    assert!(stub.try_creating_from(&Config::default()).unwrap().matches(&only_repeated.request));
}

#[test]
fn request_that_a_server_can_have_read() {
    let mut observed = exchange(Vec::new(), Vec::new());
    assert!(observed.request.is_valid());
    for path in ["", "api", "/api?x=1", "?"] {
        observed.request.path = String::from(path);
        assert!(!observed.request.is_valid());
    }
    observed.request.path = String::from("/");
    assert!(observed.request.is_valid());
    observed.request.path = String::from("api");
    let stub = JsonStub::from_exchange(&observed, &RecordConfig::default());
    let mock = stub.try_creating_from(&Config::default()).unwrap();
    assert!(!mock.matches(&observed.request));
}

#[test]
fn recording_twice_gives_the_same_stub() {
    let observed = exchange(vec![pair("host", "x"), pair("x-a", "a")], vec![pair("q", "1")]);
    let first = JsonStub::from_exchange(&observed, &RecordConfig::default());
    let second = JsonStub::from_exchange(&observed, &RecordConfig::default());
    assert_eq!(keys(first.request.headers.get_headers()), keys(second.request.headers.get_headers()));
    assert_eq!(keys(first.request.queries.get_queries()), keys(second.request.queries.get_queries()));
    assert_eq!(first.request.method, second.request.method);
    assert_eq!(first.request.url.url_path, second.request.url.url_path);
    assert_eq!(first.response.status, second.response.status);
    assert_eq!(first.response.headers, second.response.headers);
    assert!(matches!((&first.response.body, &second.response.body),
        (ResponseBody::InlineJson(one), ResponseBody::InlineJson(other)) if one == other));
}

#[test]
fn exclusion_is_by_exact_name() {
    let names = vec![String::from("host"), String::from("user-agent")];
    assert!(is_listed(&names, "host"));
    assert!(is_listed(&names, "user-agent"));
    assert!(!is_listed(&names, "Host"));
    assert!(!is_listed(&names, "x-a"));
    assert!(!is_listed(&Vec::new(), "host"));
    assert!(is_excluded(&Some(names), "host"));
    assert!(!is_excluded(&None, "host"));
}

#[test]
fn capture_and_keep() {
    let fields = vec![pair("a", "1"), pair("b", "2"), pair("a", "3"), pair("c", "4")];
    assert!(is_first(&fields, 0));
    assert!(is_first(&fields, 1));
    assert!(!is_first(&fields, 2));
    assert!(is_first(&fields, 3));
    assert!(!is_only(&fields, 0));
    assert!(is_only(&fields, 1));
    assert!(!is_only(&fields, 2));
    assert!(is_only(&fields, 3));
    assert!(stands_for_its_name(FieldKind::Query, &fields, 0));
    assert!(!stands_for_its_name(FieldKind::Header, &fields, 0));
    assert!(!stands_for_its_name(FieldKind::Query, &fields, 2));
    let excluded = Some(vec![String::from("b")]);
    let rules = capture(FieldKind::Query, &fields, &excluded);
    assert_eq!(rules.len(), 2);
    assert_eq!(rules[0].key, "a");
    assert_eq!(rules[1].key, "c");
    let headers = capture(FieldKind::Header, &fields, &excluded);
    assert_eq!(headers.len(), 1);
    assert_eq!(headers[0].key, "c");
    assert_eq!(capture(FieldKind::Header, &fields, &None).len(), 2);
    assert_eq!(keep(&fields, &excluded), vec![pair("a", "1"), pair("a", "3"), pair("c", "4")]);
    assert_eq!(keep(&fields, &None), fields);
    assert!(some_or_none(Vec::new()).is_none());
    assert_eq!(some_or_none(rules).unwrap().len(), 2);
}

fn proxied(path: &str, response_headers: Vec<(String, String)>) -> JsonStub {
    let observed = RecordedExchange {
        request: ObservedRequest {
            method: String::from("GET"),
            path: String::from(path),
            query: None,
            queries: Vec::new(),
            headers: vec![pair("host", "127.0.0.1"), pair("user-agent", "curl")],
            body: String::new(),
            body_selections: Vec::new(),
            jwt_payload: None,
            jwt_selections: Vec::new(),
        },
        response: ObservedResponse { status: 200, headers: response_headers, body: String::new() },
    };
    JsonStub::from_exchange(&observed, &RecordConfig::default())
}

#[test]
fn proxy_should_forward_response_headers() {
    let stub = proxied("/headers/resp/one", vec![pair("x-a", "a")]);
    assert_eq!(stub.request.method.as_deref(), Some("GET"));
    assert_eq!(stub.request.url.url_path.as_deref(), Some("/headers/resp/one"));
    assert!(stub.request.headers.get_headers().is_none());
    assert!(stub.request.queries.get_queries().is_none());
    assert_eq!(stub.response.status, 200);
    assert_eq!(stub.response.headers, vec![pair("x-a", "a")]);
    assert!(matches!(stub.response.body, ResponseBody::Empty));
}

#[test]
fn proxy_should_forward_many_response_headers() {
    let stub = proxied("/headers/resp/many", vec![pair("x-a", "a"), pair("x-b", "b")]);
    assert_eq!(stub.request.method.as_deref(), Some("GET"));
    assert_eq!(stub.request.url.url_path.as_deref(), Some("/headers/resp/many"));
    assert!(stub.request.headers.get_headers().is_none());
    assert_eq!(stub.response.status, 200);
    assert_eq!(stub.response.headers, vec![pair("x-a", "a"), pair("x-b", "b")]);
    assert!(matches!(stub.response.body, ResponseBody::Empty));
}
