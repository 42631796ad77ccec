use stubr::response::{
    with_json, BodyFile, Payload, Rendering, Reply, ResponseBody, ResponseStub, FAILED_STATUS,
};

fn file(path_exists: bool, extension: Option<&str>, content: &str) -> BodyFile {
    BodyFile {
        path_exists,
        path: String::from("body.file"),
        extension: extension.map(String::from),
        content: String::from(content),
    }
}

fn reply() -> Reply {
    Reply { status: 201, headers: vec![(String::from("x-a"), String::from("a"))], body: None, delay_ms: Some(30) }
}

fn rendered(outcome: Rendering) -> Reply {
    match outcome {
        Rendering::Rendered(reply) => reply,
        Rendering::Synthetic500 => panic!("failed closed"),
    }
}

fn json_of(reply: &Reply) -> &str {
    match &reply.body {
        Some(Payload::Json(text)) => text,
        _ => panic!("no json body"),
    }
}

fn text_of(reply: &Reply) -> &str {
    match &reply.body {
        Some(Payload::Text(text)) => text,
        _ => panic!("no text body"),
    }
}

#[test]
fn extension_decides_the_kind() {
    assert!(file(true, Some("json"), "").is_json());
    assert!(!file(true, Some("json"), "").is_text());
    assert!(file(true, Some("txt"), "").is_text());
    assert!(!file(true, Some("txt"), "").is_json());
    assert!(!file(true, Some("JSON"), "").is_json());
    assert!(!file(true, Some("xml"), "").is_json());
    assert!(!file(true, Some("xml"), "").is_text());
    assert!(!file(true, None, "").is_json());
    assert!(!file(true, None, "").is_text());
    assert!(!file(true, Some(""), "").is_text());
}

#[test]
fn file_content_by_kind() {
    assert_eq!(file(true, Some("txt"), "hello").maybe_as_text(), Some(String::from("hello")));
    assert_eq!(file(false, Some("txt"), "hello").maybe_as_text(), Some(String::from("hello")));
    assert_eq!(file(true, Some("json"), "hello").maybe_as_text(), None);
    assert_eq!(file(true, None, "hello").maybe_as_text(), None);
    assert_eq!(
        file(true, Some("json"), "{ \"a\": 1 }").maybe_as_json(),
        Some(String::from("{\"a\":1}"))
    );
    assert_eq!(file(true, Some("json"), "{ \"a\": ").maybe_as_json(), None);
    assert_eq!(file(true, Some("txt"), "{}").maybe_as_json(), None);
}

#[test]
fn json_file_is_parsed_and_written_back() {
    let made = rendered(file(true, Some("json"), "").render_templated(reply(), String::from("{ \"name\" : \"bob\" }")));
    assert_eq!(made.status, 201);
    assert_eq!(made.headers, vec![(String::from("x-a"), String::from("a"))]);
    assert_eq!(made.delay_ms, Some(30));
    assert_eq!(json_of(&made), "{\"name\":\"bob\"}");
    let made = rendered(file(true, Some("json"), "[1, 2]").add(reply()));
    assert_eq!(made.status, 201);
    assert_eq!(json_of(&made), "[1,2]");
}

#[test]
fn text_file_is_served_as_it_is() {
    let made = rendered(file(true, Some("txt"), "").render_templated(reply(), String::from(" { raw ")));
    assert_eq!(made.status, 201);
    assert_eq!(text_of(&made), " { raw ");
    let made = rendered(file(true, Some("txt"), "from file").add(reply()));
    assert_eq!(text_of(&made), "from file");
    assert_eq!(made.headers.len(), 1);
}

#[test]
fn invalid_json_file_renders_500_whether_found_or_not() {
    for path_exists in [true, false] {
        let body = file(path_exists, Some("json"), "{ \"a\": ");
        let outcome = body.render_templated(reply(), String::from("{ \"a\": "));
        assert!(matches!(outcome, Rendering::Synthetic500));
        assert_eq!(outcome.status(), 500);
        let sent = body.add(reply()).into_reply();
        assert_eq!(sent.status, 500);
        assert!(sent.headers.is_empty());
        assert!(sent.body.is_none());
        assert!(sent.delay_ms.is_none());
    }
}

#[test]
fn missing_file_renders_500_whatever_it_holds() {
    for extension in [Some("json"), Some("txt"), Some("xml"), None] {
        for content in ["{}", "text", ""] {
            let body = file(false, extension, content);
            assert_eq!(body.render_templated(reply(), String::from(content)).status(), 500);
            assert_eq!(body.add(reply()).status(), 500);
        }
    }
}

#[test]
fn unknown_extension_renders_500() {
    assert_eq!(file(true, Some("xml"), "<a/>").add(reply()).status(), 500);
    assert_eq!(file(true, None, "text").add(reply()).status(), 500);
    assert_eq!(file(true, Some("xml"), "").render_templated(reply(), String::from("{}")).status(), 500);
    assert_eq!(FAILED_STATUS, 500);
}

#[test]
fn templated_content_replaces_the_file_content() {
    let body = file(true, Some("json"), "not json before templating");
    assert_eq!(body.add(reply()).status(), 500);
    let made = rendered(body.render_templated(reply(), String::from("{}")));
    assert_eq!(json_of(&made), "{}");
}

#[test]
fn with_json_fails_closed_without_json() {
    assert!(matches!(with_json(reply(), None), Rendering::Synthetic500));
    let made = rendered(with_json(reply(), Some(String::from("1"))));
    assert_eq!(json_of(&made), "1");
    assert_eq!(made.status, 201);
}

#[test]
fn response_realises_one_kind_of_body() {
    let stub = |body: ResponseBody| ResponseStub {
        status: 200,
        headers: vec![(String::from("x-a"), String::from("a"))],
        body,
        delay_ms: Some(5),
    };
    let made = rendered(stub(ResponseBody::Empty).render());
    assert_eq!(made.status, 200);
    assert_eq!(made.delay_ms, Some(5));
    assert!(made.body.is_none());
    assert_eq!(made.headers.len(), 1);
    let made = rendered(stub(ResponseBody::InlineText(String::from("hi"))).render());
    assert_eq!(text_of(&made), "hi");
    let made = rendered(stub(ResponseBody::InlineJson(String::from("{ \"a\": [ ] }"))).render());
    assert_eq!(json_of(&made), "{\"a\":[]}");
    assert_eq!(stub(ResponseBody::InlineJson(String::from("{"))).render().status(), 500);
    let made = rendered(stub(ResponseBody::File(file(true, Some("txt"), "f"))).render());
    assert_eq!(text_of(&made), "f");
    assert_eq!(made.status, 200);
    assert_eq!(stub(ResponseBody::File(file(false, Some("txt"), "f"))).render().status(), 500);
    let copy = stub(ResponseBody::File(file(true, Some("json"), "[ ]"))).duplicate();
    assert_eq!(json_of(&rendered(copy.render())), "[]");
    assert_eq!(copy.head().status, 200);
}
