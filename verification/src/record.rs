//! From an observed exchange back to a stub document.

use vstd::prelude::*;
use vstd::string::StringExecFns;

use crate::fields::{
    declared, exact_pairs, has_distinct_keys, occurrences_from, residual_rules, value_from,
    FieldKind, FieldRule, HttpQueryParamsStub, HttpReqHeadersStub, Pairs, RequestMatcherStub,
};
use crate::json::{json_pretty_form, pretty};
use crate::matcher::{MatcherValue, MatcherView};
use crate::request::{
    all_met, body_constraints, exact_constraints, payload_constraints, rule_constraints,
    ConstraintView, ObservedRequest, RequestView,
};
use crate::request_stub::{
    field_conditions, full_url_conditions, url_conditions, RequestStub, RequestStubView,
};
use crate::response::{ResponseBody, ResponseBodyView, ResponseStub, ResponseStubView};
use crate::stub::{JsonStub, JsonStubView};
use crate::text::same;
use crate::url::{HttpUrl, HttpUrlView};

verus! {

/// How the recorder works.
#[derive(Debug)]
pub struct RecordConfig {
    /// The port the recording proxy listens on; a free one where none is
    /// given.
    pub port: Option<u16>,
    /// The directory that recorded stubs are written to.
    pub output: Option<String>,
    /// Request headers that are not recorded.
    pub except_request_headers: Option<Vec<String>>,
    /// Response headers that are not recorded.
    pub except_response_headers: Option<Vec<String>>,
}

/// The recorder's configuration as contracts see it.
pub struct RecordConfigView {
    pub port: Option<u16>,
    pub output: Option<Seq<char>>,
    pub except_request_headers: Option<Seq<Seq<char>>>,
    pub except_response_headers: Option<Seq<Seq<char>>>,
}

impl View for RecordConfig {
    type V = RecordConfigView;

    open spec fn view(&self) -> RecordConfigView {
        RecordConfigView {
            port: self.port,
            output: self.output.deep_view(),
            except_request_headers: self.except_request_headers.deep_view(),
            except_response_headers: self.except_response_headers.deep_view(),
        }
    }
}

/// The request headers that are left out unless the configuration says
/// otherwise: they belong to the connection, not to the request.
pub open spec fn default_excluded() -> Seq<Seq<char>> {
    seq!["host"@, "user-agent"@]
}

impl Default for RecordConfig {
    /// The configuration that leaves out the two connection headers of the
    /// request and nothing else.
    fn default() -> (config: RecordConfig)
        ensures
            config@ == (RecordConfigView {
                port: None,
                output: None,
                except_request_headers: Some(default_excluded()),
                except_response_headers: None,
            }),
    {
        let mut names: Vec<String> = Vec::new();
        names.push(String::from_str("host"));
        names.push(String::from_str("user-agent"));
        assert(names.deep_view() =~= default_excluded());
        RecordConfig {
            port: None,
            output: None,
            except_request_headers: Some(names),
            except_response_headers: None,
        }
    }
}

/// A response as it was observed, fully read.
pub struct ObservedResponse {
    pub status: u16,
    pub headers: Vec<(String, String)>,
    pub body: String,
}

/// An observed response as contracts see it.
pub struct ResponseView {
    pub status: u16,
    pub headers: Pairs,
    pub body: Seq<char>,
}

impl View for ObservedResponse {
    type V = ResponseView;

    open spec fn view(&self) -> ResponseView {
        ResponseView { status: self.status, headers: self.headers.deep_view(), body: self.body@ }
    }
}

/// A request and the response it got.
pub struct RecordedExchange {
    pub request: ObservedRequest,
    pub response: ObservedResponse,
}

/// An exchange as contracts see it.
pub struct ExchangeView {
    pub request: RequestView,
    pub response: ResponseView,
}

impl View for RecordedExchange {
    type V = ExchangeView;

    open spec fn view(&self) -> ExchangeView {
        ExchangeView { request: self.request@, response: self.response@ }
    }
}

/// The names of a list that may be missing.
pub open spec fn names_of(list: Option<Seq<Seq<char>>>) -> Seq<Seq<char>> {
    match list {
        Some(names) => names,
        None => Seq::empty(),
    }
}

/// No field before `at` has the name of the field at `at`.
pub open spec fn is_first_of_name(fields: Pairs, at: int) -> bool {
    forall|j: int| 0 <= j < at ==> (#[trigger] fields[j]).0 != fields[at].0
}

/// No other field has the name of the field at `at`.
pub open spec fn is_only_of_name(fields: Pairs, at: int) -> bool {
    forall|j: int| 0 <= j < fields.len() && j != at ==> (#[trigger] fields[j]).0 != fields[at].0
}

/// The field at `at` is recorded: its name is not excluded, and an
/// equality with its value is one that the request meets. Of a query
/// parameter that is so for the first field of a name. Of a header it is so
/// for a field that is the only one of its name: a header that stands more
/// than once meets no equality and is left out.
pub open spec fn is_captured(
    kind: FieldKind,
    fields: Pairs,
    excluded: Seq<Seq<char>>,
    at: int,
) -> bool {
    !excluded.contains(fields[at].0) && match kind {
        FieldKind::Header => is_only_of_name(fields, at),
        FieldKind::Query => is_first_of_name(fields, at),
    }
}

/// The rule that records a field: its value has to be the one observed.
pub open spec fn replay_rule(field: (Seq<char>, Seq<char>)) -> FieldRule {
    FieldRule { key: field.0, value: MatcherView::EqualTo(field.1) }
}

/// The rules that record the first `upto` fields of one kind, in the
/// fields' order.
pub open spec fn captured_upto(
    kind: FieldKind,
    fields: Pairs,
    excluded: Seq<Seq<char>>,
    upto: int,
) -> Seq<FieldRule>
    decreases upto,
{
    if upto <= 0 {
        Seq::empty()
    } else if is_captured(kind, fields, excluded, upto - 1) {
        captured_upto(kind, fields, excluded, upto - 1).push(replay_rule(fields[upto - 1]))
    } else {
        captured_upto(kind, fields, excluded, upto - 1)
    }
}

/// The rules that record the fields of one kind of a request: one equality
/// for each field that is recorded.
pub open spec fn captured(kind: FieldKind, fields: Pairs, excluded: Seq<Seq<char>>) -> Seq<
    FieldRule,
> {
    captured_upto(kind, fields, excluded, fields.len() as int)
}

/// The recorded rules as they stand in a stub: left out where there are
/// none.
pub open spec fn declared_or_none(rules: Seq<FieldRule>) -> Option<Seq<FieldRule>> {
    if rules.len() == 0 {
        None
    } else {
        Some(rules)
    }
}

/// Those of the first `upto` fields whose name is not excluded, in order.
pub open spec fn kept_upto(fields: Pairs, excluded: Seq<Seq<char>>, upto: int) -> Pairs
    decreases upto,
{
    if upto <= 0 {
        Seq::empty()
    } else if !excluded.contains(fields[upto - 1].0) {
        kept_upto(fields, excluded, upto - 1).push(fields[upto - 1])
    } else {
        kept_upto(fields, excluded, upto - 1)
    }
}

/// The fields whose name is not excluded.
pub open spec fn kept(fields: Pairs, excluded: Seq<Seq<char>>) -> Pairs {
    kept_upto(fields, excluded, fields.len() as int)
}

/// The body that records an observed one: none for an empty one, JSON
/// indented for one that is JSON, the text as it came for any other.
pub open spec fn recorded_body(body: Seq<char>) -> ResponseBodyView {
    if body.len() == 0 {
        ResponseBodyView::Empty
    } else {
        match json_pretty_form(body) {
            Some(indented) => ResponseBodyView::InlineJson(indented),
            None => ResponseBodyView::InlineText(body),
        }
    }
}

/// The request part of the stub that records a request: method, path and
/// query parameters as they were observed, headers but the excluded ones
/// and those that stand more than once, each as an equality. No pattern is
/// ever recorded.
pub open spec fn recorded_request(request: RequestView, config: RecordConfigView)
    -> RequestStubView {
    RequestStubView {
        method: Some(request.method),
        url: HttpUrlView {
            url_path: Some(request.path),
            url_path_pattern: None,
            url: None,
            url_pattern: None,
        },
        headers: declared_or_none(
            captured(FieldKind::Header, request.headers, names_of(config.except_request_headers)),
        ),
        queries: declared_or_none(captured(FieldKind::Query, request.queries, Seq::empty())),
        body: None,
        jwt: None,
    }
}

/// The response part of the stub that records a response.
pub open spec fn recorded_response(response: ResponseView, config: RecordConfigView)
    -> ResponseStubView {
    ResponseStubView {
        status: response.status,
        headers: kept(response.headers, names_of(config.except_response_headers)),
        body: recorded_body(response.body),
        delay_ms: None,
    }
}

/// The stub that records an exchange. Identifiers and priority are left to
/// whoever stores it.
pub open spec fn recorded(exchange: ExchangeView, config: RecordConfigView) -> JsonStubView {
    JsonStubView {
        id: None,
        uuid: None,
        priority: None,
        request: recorded_request(exchange.request, config),
        response: recorded_response(exchange.response, config),
    }
}

/// Tells whether `name` is one of `names`.
pub fn is_listed(names: &Vec<String>, name: &str) -> (listed: bool)
    ensures
        listed == names.deep_view().contains(name@),
{
    let mut k: usize = 0;
    while k < names.len()
        invariant
            k <= names@.len(),
            forall|j: int| 0 <= j < k ==> names.deep_view()[j] != name@,
        decreases names@.len() - k,
    {
        if same(names[k].as_str(), name) {
            assert(names.deep_view()[k as int] == name@);
            return true;
        }
        k += 1;
    }
    false
}

/// Tells whether `name` is excluded.
pub fn is_excluded(excluded: &Option<Vec<String>>, name: &str) -> (left_out: bool)
    ensures
        left_out == names_of(excluded.deep_view()).contains(name@),
{
    match excluded {
        Some(names) => is_listed(names, name),
        None => false,
    }
}

/// Tells whether no field before `at` has the name of the field at `at`.
pub fn is_first(fields: &Vec<(String, String)>, at: usize) -> (first: bool)
    requires
        at < fields@.len(),
    ensures
        first == is_first_of_name(fields.deep_view(), at as int),
{
    let mut j: usize = 0;
    while j < at
        invariant
            j <= at < fields@.len(),
            forall|i: int|
                0 <= i < j ==> (#[trigger] fields.deep_view()[i]).0 != fields.deep_view()[at as int].0,
        decreases at - j,
    {
        if same(fields[j].0.as_str(), fields[at].0.as_str()) {
            assert(fields.deep_view()[j as int].0 == fields.deep_view()[at as int].0);
            return false;
        }
        j += 1;
    }
    true
}

/// Tells whether no other field has the name of the field at `at`.
pub fn is_only(fields: &Vec<(String, String)>, at: usize) -> (only: bool)
    requires
        at < fields@.len(),
    ensures
        only == is_only_of_name(fields.deep_view(), at as int),
{
    let mut j: usize = 0;
    while j < fields.len()
        invariant
            j <= fields@.len(),
            at < fields@.len(),
            forall|i: int|
                0 <= i < j && i != at ==> (#[trigger] fields.deep_view()[i]).0
                    != fields.deep_view()[at as int].0,
        decreases fields@.len() - j,
    {
        if j != at && same(fields[j].0.as_str(), fields[at].0.as_str()) {
            assert(fields.deep_view()[j as int].0 == fields.deep_view()[at as int].0);
            return false;
        }
        j += 1;
    }
    true
}

/// Tells whether the field at `at`, whose name is not excluded, is
/// recorded.
pub fn stands_for_its_name(kind: FieldKind, fields: &Vec<(String, String)>, at: usize) -> (chosen:
    bool)
    requires
        at < fields@.len(),
    ensures
        chosen == match kind {
            FieldKind::Header => is_only_of_name(fields.deep_view(), at as int),
            FieldKind::Query => is_first_of_name(fields.deep_view(), at as int),
        },
{
    match kind {
        FieldKind::Header => is_only(fields, at),
        FieldKind::Query => is_first(fields, at),
    }
}

/// Records the fields of one kind of a request as equalities.
pub fn capture(
    kind: FieldKind,
    fields: &Vec<(String, String)>,
    excluded: &Option<Vec<String>>,
) -> (rules: Vec<RequestMatcherStub>)
    ensures
        rules.deep_view() == captured(kind, fields.deep_view(), names_of(excluded.deep_view())),
        has_distinct_keys(rules.deep_view()),
{
    proof {
        lemma_captured_keys_distinct(
            kind,
            fields.deep_view(),
            names_of(excluded.deep_view()),
            fields.deep_view().len() as int,
        );
    }
    let mut rules: Vec<RequestMatcherStub> = Vec::new();
    let mut k: usize = 0;
    while k < fields.len()
        invariant
            k <= fields@.len(),
            rules.deep_view() == captured_upto(
                kind,
                fields.deep_view(),
                names_of(excluded.deep_view()),
                k as int,
            ),
        decreases fields@.len() - k,
    {
        if !is_excluded(excluded, fields[k].0.as_str()) && stands_for_its_name(kind, fields, k) {
            rules.push(
                RequestMatcherStub {
                    key: fields[k].0.clone(),
                    value: MatcherValue::EqualTo(fields[k].1.clone()),
                },
            );
        }
        k += 1;
    }
    rules
}

/// Keeps the fields whose name is not excluded.
pub fn keep(fields: &Vec<(String, String)>, excluded: &Option<Vec<String>>) -> (rest: Vec<
    (String, String),
>)
    ensures
        rest.deep_view() == kept(fields.deep_view(), names_of(excluded.deep_view())),
{
    let mut rest: Vec<(String, String)> = Vec::new();
    let mut k: usize = 0;
    while k < fields.len()
        invariant
            k <= fields@.len(),
            rest.deep_view() == kept_upto(
                fields.deep_view(),
                names_of(excluded.deep_view()),
                k as int,
            ),
        decreases fields@.len() - k,
    {
        if !is_excluded(excluded, fields[k].0.as_str()) {
            rest.push((fields[k].0.clone(), fields[k].1.clone()));
        }
        k += 1;
    }
    rest
}

/// Leaves recorded rules out of a stub where there are none.
pub fn some_or_none(rules: Vec<RequestMatcherStub>) -> (declared: Option<Vec<RequestMatcherStub>>)
    ensures
        declared.deep_view() == declared_or_none(rules.deep_view()),
{
    if rules.len() == 0 {
        None
    } else {
        Some(rules)
    }
}

/// Chooses the body that records an observed one, given its indented form
/// where it is JSON.
pub fn body_from(body: &str, indented: Option<String>) -> (recorded: ResponseBody)
    ensures
        recorded@ == if body@.len() == 0 {
            ResponseBodyView::Empty
        } else {
            match indented {
                Some(form) => ResponseBodyView::InlineJson(form@),
                None => ResponseBodyView::InlineText(body@),
            }
        },
{
    if body.is_empty() {
        ResponseBody::Empty
    } else {
        match indented {
            Some(form) => ResponseBody::InlineJson(form),
            None => ResponseBody::InlineText(body.to_owned()),
        }
    }
}

impl RequestStub {
    /// The request part of the stub that records `exchange`.
    pub fn from_exchange(exchange: &RecordedExchange, config: &RecordConfig) -> (stub:
        RequestStub)
        ensures
            stub@ == recorded_request(exchange@.request, config@),
    {
        let request = &exchange.request;
        let nothing: Option<Vec<String>> = None;
        RequestStub {
            method: Some(request.method.clone()),
            url: HttpUrl {
                url_path: Some(request.path.clone()),
                url_path_pattern: None,
                url: None,
                url_pattern: None,
            },
            headers: HttpReqHeadersStub::from_distinct(
                some_or_none(
                    capture(FieldKind::Header, &request.headers, &config.except_request_headers),
                ),
            ),
            queries: HttpQueryParamsStub::from_distinct(
                some_or_none(capture(FieldKind::Query, &request.queries, &nothing)),
            ),
            body: None,
            jwt: None,
        }
    }
}

impl ResponseStub {
    /// The response part of the stub that records `exchange`.
    pub fn from_exchange(exchange: &RecordedExchange, config: &RecordConfig) -> (stub:
        ResponseStub)
        ensures
            stub@ == recorded_response(exchange@.response, config@),
    {
        let response = &exchange.response;
        ResponseStub {
            status: response.status,
            headers: keep(&response.headers, &config.except_response_headers),
            body: body_from(response.body.as_str(), pretty(response.body.as_str())),
            delay_ms: None,
        }
    }
}

impl JsonStub {
    /// The stub that records `exchange`. The same exchange under the same
    /// configuration always gives the same stub. The stub of a request that
    /// a server can have read compiles and accepts that request.
    pub fn from_exchange(exchange: &RecordedExchange, config: &RecordConfig) -> (stub: JsonStub)
        ensures
            stub@ == recorded(exchange@, config@),
            exchange@.request.is_valid() ==> stub@.compiled() is Ok && stub@.compiled()->Ok_0.matches(
                exchange@.request,
            ),
    {
        proof {
            if exchange@.request.is_valid() {
                lemma_recorded_stub_replays(exchange@, config@);
            }
        }
        JsonStub {
            id: None,
            uuid: None,
            priority: None,
            request: RequestStub::from_exchange(exchange, config),
            response: ResponseStub::from_exchange(exchange, config),
        }
    }
}

/// From `from` on, the first field of a name is the one that a lookup of
/// that name finds.
proof fn lemma_first_field_is_found(fields: Pairs, at: int, from: int)
    requires
        0 <= from <= at < fields.len(),
        is_first_of_name(fields, at),
    ensures
        value_from(fields, fields[at].0, from) == Some(fields[at].1),
    decreases at - from,
{
    if from < at {
        assert(fields[from].0 != fields[at].0);
        lemma_first_field_is_found(fields, at, from + 1);
    }
}

/// A field that is the only one of its name is counted once from every
/// place up to its own, and not at all behind it.
proof fn lemma_lone_field_counts_once(fields: Pairs, at: int, from: int)
    requires
        0 <= at < fields.len(),
        0 <= from <= fields.len(),
        is_only_of_name(fields, at),
    ensures
        occurrences_from(fields, fields[at].0, from) == if from <= at {
            1nat
        } else {
            0nat
        },
    decreases fields.len() - from,
{
    if from < fields.len() {
        lemma_lone_field_counts_once(fields, at, from + 1);
        if from != at {
            assert(fields[from].0 != fields[at].0);
        }
    }
}

/// The equality that records a field holds of the fields it was recorded
/// from.
pub proof fn lemma_recorded_field_replays(
    kind: FieldKind,
    fields: Pairs,
    excluded: Seq<Seq<char>>,
    at: int,
)
    requires
        0 <= at < fields.len(),
        is_captured(kind, fields, excluded, at),
    ensures
        replay_rule(fields[at]).holds(kind, fields),
{
    match kind {
        FieldKind::Header => {
            assert(is_first_of_name(fields, at));
            lemma_first_field_is_found(fields, at, 0);
            lemma_lone_field_counts_once(fields, at, 0);
        },
        FieldKind::Query => {
            assert(fields.contains(fields[at]));
        },
    }
}

/// Every rule that records a field is an equality that the recorded fields
/// meet, on a name that is not excluded.
pub proof fn lemma_captured_rules_hold(
    kind: FieldKind,
    fields: Pairs,
    excluded: Seq<Seq<char>>,
    upto: int,
)
    requires
        0 <= upto <= fields.len(),
    ensures
        forall|k: int|
            0 <= k < captured_upto(kind, fields, excluded, upto).len() ==> {
                let rule = #[trigger] captured_upto(kind, fields, excluded, upto)[k];
                &&& rule.value is EqualTo
                &&& rule.holds(kind, fields)
                &&& !excluded.contains(rule.key)
            },
    decreases upto,
{
    if upto > 0 {
        lemma_captured_rules_hold(kind, fields, excluded, upto - 1);
        let fewer = captured_upto(kind, fields, excluded, upto - 1);
        let rules = captured_upto(kind, fields, excluded, upto);
        if is_captured(kind, fields, excluded, upto - 1) {
            lemma_recorded_field_replays(kind, fields, excluded, upto - 1);
        }
        assert forall|k: int| 0 <= k < rules.len() implies {
            let rule = #[trigger] rules[k];
            &&& rule.value is EqualTo
            &&& rule.holds(kind, fields)
            &&& !excluded.contains(rule.key)
        } by {
            if k < fewer.len() {
                assert(rules[k] == fewer[k]);
            }
        }
    }
}

/// The rules that record fields are on the names of fields that were seen,
/// and no two of them are on the same name.
pub proof fn lemma_captured_keys_distinct(
    kind: FieldKind,
    fields: Pairs,
    excluded: Seq<Seq<char>>,
    upto: int,
)
    requires
        0 <= upto <= fields.len(),
    ensures
        has_distinct_keys(captured_upto(kind, fields, excluded, upto)),
        forall|k: int|
            0 <= k < captured_upto(kind, fields, excluded, upto).len() ==> exists|at: int|
                0 <= at < upto && (#[trigger] fields[at]).0 == (#[trigger] captured_upto(
                    kind,
                    fields,
                    excluded,
                    upto,
                )[k]).key,
    decreases upto,
{
    if upto > 0 {
        lemma_captured_keys_distinct(kind, fields, excluded, upto - 1);
        let fewer = captured_upto(kind, fields, excluded, upto - 1);
        let rules = captured_upto(kind, fields, excluded, upto);
        assert forall|k: int| 0 <= k < rules.len() implies exists|at: int|
            0 <= at < upto && (#[trigger] fields[at]).0 == (#[trigger] rules[k]).key by {
            if k < fewer.len() {
                let at = choose|at: int|
                    0 <= at < upto - 1 && (#[trigger] fields[at]).0 == fewer[k].key;
                assert(fields[at].0 == rules[k].key);
            } else {
                assert(fields[upto - 1].0 == rules[k].key);
            }
        }
        assert forall|i: int, j: int| 0 <= i < j < rules.len() implies (#[trigger] rules[i]).key
            != (#[trigger] rules[j]).key by {
            if j < fewer.len() {
                assert(fewer[i].key != fewer[j].key);
            } else {
                let at = choose|at: int|
                    0 <= at < upto - 1 && (#[trigger] fields[at]).0 == fewer[i].key;
                assert(fields[at].0 != fields[upto - 1].0);
            }
        }
    }
}

/// What is recorded of fewer fields stands at the start of what is recorded
/// of more.
proof fn lemma_captured_prefix(
    kind: FieldKind,
    fields: Pairs,
    excluded: Seq<Seq<char>>,
    fewer: int,
    more: int,
)
    requires
        0 <= fewer <= more <= fields.len(),
    ensures
        captured_upto(kind, fields, excluded, fewer).len() <= captured_upto(
            kind,
            fields,
            excluded,
            more,
        ).len(),
        forall|k: int|
            0 <= k < captured_upto(kind, fields, excluded, fewer).len() ==> captured_upto(
                kind,
                fields,
                excluded,
                more,
            )[k] == #[trigger] captured_upto(kind, fields, excluded, fewer)[k],
    decreases more - fewer,
{
    if fewer < more {
        lemma_captured_prefix(kind, fields, excluded, fewer, more - 1);
    }
}

/// A field that is recorded has its rule among the recorded ones.
pub proof fn lemma_recorded_field_has_rule(
    kind: FieldKind,
    fields: Pairs,
    excluded: Seq<Seq<char>>,
    at: int,
)
    requires
        0 <= at < fields.len(),
        is_captured(kind, fields, excluded, at),
    ensures
        captured(kind, fields, excluded).contains(replay_rule(fields[at])),
{
    lemma_captured_prefix(kind, fields, excluded, at + 1, fields.len() as int);
    let rules = captured_upto(kind, fields, excluded, at + 1);
    assert(rules[rules.len() - 1] == replay_rule(fields[at]));
    assert(captured(kind, fields, excluded)[rules.len() - 1] == replay_rule(fields[at]));
}

/// Every name of a query parameter that is not excluded is recorded by a
/// rule on that name.
pub proof fn lemma_other_names_are_captured(fields: Pairs, excluded: Seq<Seq<char>>, at: int)
    requires
        0 <= at < fields.len(),
        !excluded.contains(fields[at].0),
    ensures
        exists|k: int|
            0 <= k < captured(FieldKind::Query, fields, excluded).len() && (#[trigger] captured(
                FieldKind::Query,
                fields,
                excluded,
            )[k]).key == fields[at].0,
    decreases at,
{
    if is_first_of_name(fields, at) {
        lemma_recorded_field_has_rule(FieldKind::Query, fields, excluded, at);
        let rules = captured(FieldKind::Query, fields, excluded);
        let k = choose|k: int| 0 <= k < rules.len() && rules[k] == replay_rule(fields[at]);
        assert(rules[k].key == fields[at].0);
    } else {
        let earlier = choose|j: int| 0 <= j < at && (#[trigger] fields[j]).0 == fields[at].0;
        lemma_other_names_are_captured(fields, excluded, earlier);
    }
}

/// The recorded fields are those of the observed ones whose name is not
/// excluded: no rule is on an excluded name, and every field that can be
/// recorded under another name has its rule.
pub proof fn lemma_excluded_names_left_out(
    kind: FieldKind,
    fields: Pairs,
    excluded: Seq<Seq<char>>,
)
    ensures
        forall|k: int|
            0 <= k < captured(kind, fields, excluded).len() ==> !excluded.contains(
                (#[trigger] captured(kind, fields, excluded)[k]).key,
            ),
        forall|at: int|
            0 <= at < fields.len() && #[trigger] is_captured(kind, fields, excluded, at)
                ==> captured(kind, fields, excluded).contains(replay_rule(fields[at])),
{
    lemma_captured_rules_hold(kind, fields, excluded, fields.len() as int);
    assert forall|at: int|
        0 <= at < fields.len() && #[trigger] is_captured(
            kind,
            fields,
            excluded,
            at,
        ) implies captured(kind, fields, excluded).contains(replay_rule(fields[at])) by {
        lemma_recorded_field_has_rule(kind, fields, excluded, at);
    }
}

/// The conditions compiled from the recorded rules on fields of one kind are
/// met by the fields they were recorded from.
proof fn lemma_recorded_fields_replay(
    kind: FieldKind,
    excluded: Seq<Seq<char>>,
    request: RequestView,
)
    ensures
        all_met(
            field_conditions(
                kind,
                declared_or_none(captured(kind, request.fields(kind), excluded)),
            ),
            request,
        ),
{
    let fields = request.fields(kind);
    let rules = captured(kind, fields, excluded);
    assert(declared(declared_or_none(rules)) =~= rules);
    lemma_captured_rules_hold(kind, fields, excluded, fields.len() as int);
    crate::fields::lemma_passes_cover_rules(kind, rules, fields);
    crate::request::lemma_field_constraints_met(
        kind,
        exact_pairs(rules),
        residual_rules(rules),
        request,
    );
    crate::request::lemma_all_met_of_parts(
        exact_constraints(kind, exact_pairs(rules)),
        rule_constraints(kind, residual_rules(rules)),
        request,
    );
}

/// The stub that records a request compiles, and the request it was
/// recorded from meets it.
pub proof fn lemma_recorded_stub_replays(exchange: ExchangeView, config: RecordConfigView)
    requires
        exchange.request.is_valid(),
    ensures
        recorded(exchange, config).compiled() matches Ok(mock) && mock.matches(exchange.request),
{
    let request = exchange.request;
    let stub = recorded_request(request, config);
    let head = stub.method_conditions();
    let url = url_conditions(stub.url);
    let headers = field_conditions(FieldKind::Header, stub.headers);
    let queries = field_conditions(FieldKind::Query, stub.queries);
    let body = body_constraints(Seq::empty());
    let token = payload_constraints(Seq::empty());
    assert(full_url_conditions(stub.url) == Some(Seq::<ConstraintView>::empty()));
    assert(url =~= seq![ConstraintView::PathExact(request.path)]);
    assert(body =~= Seq::empty());
    assert(token =~= Seq::empty());
    assert(all_met(head, request));
    assert(all_met(url, request));
    assert(all_met(body, request));
    assert(all_met(token, request));
    lemma_recorded_fields_replay(
        FieldKind::Header,
        names_of(config.except_request_headers),
        request,
    );
    lemma_recorded_fields_replay(FieldKind::Query, Seq::empty(), request);
    crate::request::lemma_all_met_of_parts(headers + queries + body, token, request);
    crate::request::lemma_all_met_of_parts(headers + queries, body, request);
    crate::request::lemma_all_met_of_parts(headers, queries, request);
    crate::request::lemma_all_met_of_parts(head + url, stub.further_conditions(), request);
    crate::request::lemma_all_met_of_parts(head, url, request);
}

} // verus!
