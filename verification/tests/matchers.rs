use stubr::json;
use stubr::matcher::{MatcherValue, Node, Selection};
use stubr::pattern;
use stubr::text;

fn none() -> Vec<Selection> {
    Vec::new()
}

fn node(json: &str, text: &str) -> Node {
    Node { json: String::from(json), text: String::from(text) }
}

#[test]
fn equal_to_is_byte_exact() {
    let rule = MatcherValue::EqualTo(String::from("abc"));
    assert!(rule.evaluate(Some("abc"), &none()));
    assert!(!rule.evaluate(Some("ABC"), &none()));
    assert!(!rule.evaluate(Some("abc "), &none()));
    assert!(!rule.evaluate(Some(""), &none()));
    assert!(!rule.evaluate(None, &none()));
    assert!(MatcherValue::EqualTo(String::new()).evaluate(Some(""), &none()));
}

#[test]
fn contains_is_a_substring_test() {
    let rule = MatcherValue::Contains(String::from("lo w"));
    assert!(rule.evaluate(Some("hello world"), &none()));
    assert!(rule.evaluate(Some("lo w"), &none()));
    assert!(!rule.evaluate(Some("hello"), &none()));
    assert!(!rule.evaluate(Some("low"), &none()));
    assert!(!rule.evaluate(None, &none()));
    assert!(MatcherValue::Contains(String::new()).evaluate(Some(""), &none()));
    assert!(MatcherValue::Contains(String::new()).evaluate(Some("x"), &none()));
    assert!(MatcherValue::Contains(String::from("é")).evaluate(Some("café au lait"), &none()));
}

#[test]
fn substring_search_on_bytes() {
    assert!(text::contains_bytes(b"abcabd", b"abd"));
    assert!(text::contains_bytes(b"abcabd", b""));
    assert!(text::contains_bytes(b"", b""));
    assert!(!text::contains_bytes(b"", b"a"));
    assert!(!text::contains_bytes(b"ab", b"abc"));
    assert!(!text::contains_bytes(b"aaab", b"ba"));
    assert!(text::contains_bytes(b"aaab", b"aab"));
    assert!(text::contains("stub", "tu"));
    assert!(text::same("", ""));
    assert!(text::same("é", "é"));
    assert!(!text::same("e", "é"));
    assert!(!text::same_bytes(b"ab", b"abc"));
    assert!(text::same_bytes(b"ab", b"ab"));
}

#[test]
fn matches_wants_the_whole_value() {
    let rule = MatcherValue::Matches(String::from("[a-z]{3}"));
    assert!(rule.evaluate(Some("abc"), &none()));
    assert!(!rule.evaluate(Some("abcd"), &none()));
    assert!(!rule.evaluate(Some("1abc"), &none()));
    assert!(!rule.evaluate(Some("ab"), &none()));
    assert!(!rule.evaluate(None, &none()));
    let either = MatcherValue::Matches(String::from("a|bc"));
    assert!(either.evaluate(Some("a"), &none()));
    assert!(either.evaluate(Some("bc"), &none()));
    assert!(!either.evaluate(Some("abc"), &none()));
}

#[test]
fn pattern_that_is_no_regex_matches_nothing() {
    let rule = MatcherValue::Matches(String::from("([a-z]"));
    assert!(!rule.evaluate(Some("a"), &none()));
    assert!(!rule.evaluate(Some("([a-z]"), &none()));
    assert!(!rule.evaluate(None, &none()));
    assert!(!pattern::is_well_formed("([a-z]"));
    assert!(pattern::is_well_formed("[a-z]"));
    assert!(!pattern::is_match("(", "("));
    assert!(pattern::try_generate("(").is_none());
}

#[test]
fn partial_and_full_match_differ() {
    assert!(pattern::is_match("b+", "abbbc"));
    assert!(!pattern::is_full_match("b+", "abbbc"));
    assert!(pattern::is_full_match("ab+c", "abbbc"));
    assert!(!pattern::is_match("b+", "ac"));
    assert_eq!(pattern::anchor("a|b"), "^(?:a|b)$");
    assert!(pattern::verdict(Some(true)));
    assert!(!pattern::verdict(Some(false)));
    assert!(!pattern::verdict(None));
}

#[test]
fn whole_match_of_a_pattern_that_ends_in_a_comment() {
    assert!(pattern::is_full_match("(?x)a b # the rest", "ab"));
    assert!(!pattern::is_full_match("(?x)a b # the rest", "abc"));
    assert!(!pattern::is_full_match("(?x)a b # the rest", "a b"));
    assert!(pattern::is_full_match("(?x) a+ ", "aaa"));
    assert!(MatcherValue::Matches(String::from("(?x)[0-9]+ # digits")).evaluate(Some("42"), &none()));
    assert!(!MatcherValue::Matches(String::from("(?x)[0-9]+ # digits")).evaluate(Some("42a"), &none()));
    assert_eq!(pattern::anchor_on_new_line("a"), "^(?:a\n)$");
    assert!(pattern::verdict_on_whole(Some(true), None));
    assert!(!pattern::verdict_on_whole(Some(false), Some(true)));
    assert!(pattern::verdict_on_whole(None, Some(true)));
    assert!(!pattern::verdict_on_whole(None, Some(false)));
    assert!(!pattern::verdict_on_whole(None, None));
}

#[test]
fn pattern_that_closes_more_than_it_opens_matches_nothing() {
    assert!(!pattern::is_well_formed("a)(?:b"));
    assert!(!pattern::is_full_match("a)(?:b", "ab"));
    assert!(!pattern::is_full_match("a)|(b", "a"));
}

#[test]
fn generated_text_matches_its_pattern() {
    let drawn = pattern::try_generate("/v[0-9]/[a-c]{5}").unwrap();
    assert_eq!(drawn.len(), 9);
    assert!(pattern::is_full_match("/v[0-9]/[a-c]{5}", &drawn));
    assert_eq!(pattern::or_empty(None), "");
    assert_eq!(pattern::or_empty(Some(String::from("x"))), "x");
}

#[test]
fn absent_matches_only_a_missing_field() {
    let rule = MatcherValue::Absent;
    assert!(rule.evaluate(None, &none()));
    assert!(!rule.evaluate(Some("42"), &none()));
    assert!(!rule.evaluate(Some(""), &none()));
}

#[test]
fn present_matches_only_a_field_that_is_there() {
    let rule = MatcherValue::Present;
    assert!(!rule.evaluate(None, &none()));
    assert!(rule.evaluate(Some("42"), &none()));
    assert!(rule.evaluate(Some(""), &none()));
    assert!(rule.is_exact());
    assert_eq!(rule.equal_to_as_str(), None);
}

#[test]
fn equal_to_json_ignores_key_order_but_not_array_order() {
    let rule = MatcherValue::EqualToJson(String::from(r#"{"a": 1, "b": [1, 2]}"#));
    assert!(rule.evaluate(Some(r#"{"b":[1,2],"a":1}"#), &none()));
    assert!(rule.evaluate(Some("{ \"a\" : 1,\n \"b\" : [ 1 , 2 ] }"), &none()));
    assert!(!rule.evaluate(Some(r#"{"a":1,"b":[2,1]}"#), &none()));
    assert!(!rule.evaluate(Some(r#"{"a":1}"#), &none()));
    assert!(!rule.evaluate(Some(r#"{"a":1,"b":[1,2]"#), &none()));
    assert!(!rule.evaluate(Some("not json"), &none()));
    assert!(!rule.evaluate(None, &none()));
}

#[test]
fn expected_json_that_is_no_json_matches_nothing() {
    let rule = MatcherValue::EqualToJson(String::from("{"));
    assert!(!rule.evaluate(Some("{"), &none()));
    assert!(!rule.evaluate(Some("{}"), &none()));
    assert!(!json::equals("{", "{"));
    assert!(json::equals("1", " 1 "));
    assert!(!json::equals("1", "1.0"));
    assert!(json::same(Some(true)));
    assert!(!json::same(Some(false)));
    assert!(!json::same(None));
}

#[test]
fn json_path_wants_json_and_a_node() {
    let rule = MatcherValue::MatchesJsonPath { expression: String::from("$.name"), sub: None };
    let found = vec![Selection { expression: String::from("$.name"), nodes: vec![node("\"bob\"", "bob")] }];
    let empty = vec![Selection { expression: String::from("$.name"), nodes: vec![] }];
    let other = vec![Selection { expression: String::from("$.age"), nodes: vec![node("3", "3")] }];
    assert!(rule.evaluate(Some(r#"{"name":"bob"}"#), &found));
    assert!(!rule.evaluate(Some(r#"{"name":"bob"}"#), &empty));
    assert!(!rule.evaluate(Some(r#"{"name":"bob"}"#), &other));
    assert!(!rule.evaluate(Some(r#"{"name":"bob"}"#), &none()));
    assert!(!rule.evaluate(Some("name=bob"), &found));
    assert!(!rule.evaluate(None, &found));
}

#[test]
fn json_path_sub_rule_wants_some_node() {
    let selections = vec![Selection {
        expression: String::from("$.names[*]"),
        nodes: vec![node("\"al\"", "al"), node("{\"n\":1}", "{\"n\":1}"), node("\"bob\"", "bob")],
    }];
    let body = Some(r#"{"names":["al",{"n":1},"bob"]}"#);
    let with = |sub: MatcherValue| MatcherValue::MatchesJsonPath {
        expression: String::from("$.names[*]"),
        sub: Some(Box::new(sub)),
    };
    assert!(with(MatcherValue::EqualTo(String::from("bob"))).evaluate(body, &selections));
    assert!(!with(MatcherValue::EqualTo(String::from("\"bob\""))).evaluate(body, &selections));
    assert!(!with(MatcherValue::EqualTo(String::from("carl"))).evaluate(body, &selections));
    assert!(with(MatcherValue::Contains(String::from("o"))).evaluate(body, &selections));
    assert!(with(MatcherValue::Matches(String::from("[a-z]{2}"))).evaluate(body, &selections));
    assert!(with(MatcherValue::EqualToJson(String::from("{ \"n\": 1 }"))).evaluate(body, &selections));
    assert!(with(MatcherValue::EqualToJson(String::from("\"al\""))).evaluate(body, &selections));
    assert!(!with(MatcherValue::Absent).evaluate(body, &selections));
    assert!(!with(MatcherValue::Unsupported).evaluate(body, &selections));
    assert!(!with(with(MatcherValue::EqualTo(String::from("bob")))).evaluate(body, &selections));
}

#[test]
fn first_selection_of_an_expression_counts() {
    let selections = vec![
        Selection { expression: String::from("$.a"), nodes: vec![] },
        Selection { expression: String::from("$.a"), nodes: vec![node("1", "1")] },
    ];
    let rule = MatcherValue::MatchesJsonPath { expression: String::from("$.a"), sub: None };
    assert!(!rule.evaluate(Some("{}"), &selections));
    assert_eq!(stubr::matcher::find_nodes(&selections, "$.a").unwrap().len(), 0);
    assert!(stubr::matcher::find_nodes(&selections, "$.b").is_none());
}

#[test]
fn unsupported_matches_nothing() {
    assert!(!MatcherValue::Unsupported.evaluate(Some("x"), &none()));
    assert!(!MatcherValue::Unsupported.evaluate(Some(""), &none()));
    assert!(!MatcherValue::Unsupported.evaluate(None, &none()));
}

#[test]
fn every_rule_gives_a_verdict_on_malformed_input() {
    let inputs = [None, Some(""), Some("{"), Some("\u{0}\u{ffff}"), Some("(]["), Some("\"")];
    let rules = vec![
        MatcherValue::EqualTo(String::from("(")),
        MatcherValue::Contains(String::from("\u{0}")),
        MatcherValue::Matches(String::from("(][")),
        MatcherValue::Matches(String::from("a{99999999}")),
        MatcherValue::Absent,
        MatcherValue::Present,
        MatcherValue::EqualToJson(String::from("{")),
        MatcherValue::MatchesJsonPath { expression: String::from("$[?("), sub: None },
        MatcherValue::Unsupported,
    ];
    let mut verdicts = 0;
    for rule in rules.iter() {
        for input in inputs.iter() {
            let verdict = rule.evaluate(*input, &none());
            assert!(verdict || !verdict);
            verdicts += 1;
        }
    }
    assert_eq!(verdicts, 54);
}

#[test]
fn exact_rules_are_equality_and_absence() {
    assert!(MatcherValue::EqualTo(String::from("x")).is_exact());
    assert!(MatcherValue::Absent.is_exact());
    assert!(!MatcherValue::Contains(String::from("x")).is_exact());
    assert!(!MatcherValue::Matches(String::from("x")).is_exact());
    assert!(!MatcherValue::EqualToJson(String::from("1")).is_exact());
    assert!(!MatcherValue::Unsupported.is_exact());
    assert_eq!(MatcherValue::EqualTo(String::from("x")).equal_to_as_str(), Some(String::from("x")));
    assert_eq!(MatcherValue::Absent.equal_to_as_str(), None);
    assert_eq!(MatcherValue::Contains(String::from("x")).equal_to_as_str(), None);
}

#[test]
fn copy_of_a_rule_judges_alike() {
    let rule = MatcherValue::MatchesJsonPath {
        expression: String::from("$.a"),
        sub: Some(Box::new(MatcherValue::Contains(String::from("x")))),
    };
    let copy = rule.duplicate();
    let selections = vec![Selection { expression: String::from("$.a"), nodes: vec![node("\"axb\"", "axb")] }];
    assert!(rule.evaluate(Some("{}"), &selections));
    assert!(copy.evaluate(Some("{}"), &selections));
}

#[test]
fn json_is_told_from_other_text() {
    assert!(json::is_valid("{ \"a\" : [ 1 , 2 ] }"));
    assert!(!json::is_valid("{ \"a\" : "));
    assert!(!json::is_valid(""));
}
