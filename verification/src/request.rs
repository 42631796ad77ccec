//! Requests as they are observed, the request part of a stub, and the
//! predicate that a stub compiles to.

use vstd::prelude::*;
use vstd::string::{StrSliceExecFns, StringExecFns};

use crate::fields::{exact_holds, pair_holds, FieldKind, FieldRule, Pairs, RequestMatcherStub};
use crate::json::{deep_equal, equals};
use crate::matcher::{
    find_nodes, nodes_of, MatcherValue, MatcherView, NodeView, Selection, SelectionView,
};
use crate::pattern::{is_match, matches_within};
use crate::text::same;
use crate::url::{PathExactMatcher, PathRegexMatcher};

verus! {

/// A request as the dispatch engine observed it, fully read.
pub struct ObservedRequest {
    pub method: String,
    /// The path, percent-encoded.
    pub path: String,
    /// The query as it stands behind `?`, where there is one.
    pub query: Option<String>,
    /// The query's parameters, decoded, in order.
    pub queries: Vec<(String, String)>,
    pub headers: Vec<(String, String)>,
    pub body: String,
    /// What the JSONPath expressions of the stubs yield on the body.
    pub body_selections: Vec<Selection>,
    /// The payload of the request's token, decoded, where it carries one.
    pub jwt_payload: Option<String>,
    /// What the JSONPath expressions of the stubs yield on the payload.
    pub jwt_selections: Vec<Selection>,
}

/// A request as contracts see it.
pub struct RequestView {
    pub method: Seq<char>,
    pub path: Seq<char>,
    pub query: Option<Seq<char>>,
    pub queries: Pairs,
    pub headers: Pairs,
    pub body: Seq<char>,
    pub body_selections: Seq<SelectionView>,
    pub jwt_payload: Option<Seq<char>>,
    pub jwt_selections: Seq<SelectionView>,
}

impl View for ObservedRequest {
    type V = RequestView;

    open spec fn view(&self) -> RequestView {
        RequestView {
            method: self.method@,
            path: self.path@,
            query: self.query.deep_view(),
            queries: self.queries.deep_view(),
            headers: self.headers.deep_view(),
            body: self.body@,
            body_selections: self.body_selections.deep_view(),
            jwt_payload: self.jwt_payload.deep_view(),
            jwt_selections: self.jwt_selections.deep_view(),
        }
    }
}

impl RequestView {
    /// Path and query as they stand in the request line.
    pub open spec fn target(self) -> Seq<char> {
        match self.query {
            Some(query) => self.path + seq!['?'] + query,
            None => self.path,
        }
    }

    /// The request is one that a server can have read: its path starts with
    /// `/` and holds no `?`, behind which the query would stand.
    pub open spec fn is_valid(self) -> bool {
        self.path.len() > 0 && self.path[0] == '/' && !crate::text::text_contains(
            self.path,
            "?"@,
        )
    }

    /// The request's fields of one kind.
    pub open spec fn fields(self, kind: FieldKind) -> Pairs {
        match kind {
            FieldKind::Header => self.headers,
            FieldKind::Query => self.queries,
        }
    }
}

impl ObservedRequest {
    /// Path and query as they stand in the request line.
    pub fn target(&self) -> (target: String)
        ensures
            target@ == self@.target(),
    {
        match &self.query {
            Some(query) => {
                proof {
                    reveal_strlit("?");
                }
                self.path.clone().concat("?").concat(query.as_str())
            },
            None => self.path.clone(),
        }
    }

    /// Tells whether the request is one that a server can have read.
    pub fn is_valid(&self) -> (valid: bool)
        ensures
            valid == self@.is_valid(),
    {
        !self.path.as_str().is_empty() && self.path.as_str().get_char(0) == '/'
            && !crate::text::contains(self.path.as_str(), "?")
    }

    /// The request's fields of one kind.
    pub fn fields(&self, kind: FieldKind) -> (fields: &Vec<(String, String)>)
        ensures
            fields.deep_view() == self@.fields(kind),
    {
        match kind {
            FieldKind::Header => &self.headers,
            FieldKind::Query => &self.queries,
        }
    }
}

/// A rule on the payload of the request's token: the JSONPath expression
/// `0` yields a node that holds the same JSON value as the text `1`.
pub struct JsonPayloadPathEqMatcher(pub String, pub String);

/// A rule on the token's payload as contracts see it.
pub struct PayloadRule {
    pub path: Seq<char>,
    pub expected: Seq<char>,
}

impl DeepView for JsonPayloadPathEqMatcher {
    type V = PayloadRule;

    open spec fn deep_view(&self) -> PayloadRule {
        PayloadRule { path: self.0@, expected: self.1@ }
    }
}

/// Some node holds the same JSON value as `expected`.
pub open spec fn some_node_equals(nodes: Seq<NodeView>, expected: Seq<char>) -> bool {
    exists|k: int| 0 <= k < nodes.len() && deep_equal((#[trigger] nodes[k]).json, expected)
}

impl PayloadRule {
    /// The request carries a token, and the expression yields on its payload
    /// a node equal to the expected value.
    pub open spec fn holds(self, request: RequestView) -> bool {
        request.jwt_payload is Some && match nodes_of(request.jwt_selections, self.path) {
            Some(nodes) => some_node_equals(nodes, self.expected),
            None => false,
        }
    }
}

impl JsonPayloadPathEqMatcher {
    /// Tells whether the rule holds of the request. A request without a
    /// token meets no such rule.
    pub fn matches(&self, req: &ObservedRequest) -> (verdict: bool)
        ensures
            verdict == self.deep_view().holds(req@),
    {
        if req.jwt_payload.is_none() {
            return false;
        }
        let nodes = match find_nodes(&req.jwt_selections, self.0.as_str()) {
            Some(nodes) => nodes,
            None => { return false; },
        };
        let mut k: usize = 0;
        while k < nodes.len()
            invariant
                k <= nodes@.len(),
                req@.jwt_payload is Some,
                nodes_of(req@.jwt_selections, self.0@) == Some(nodes.deep_view()),
                forall|j: int|
                    0 <= j < k ==> !deep_equal((#[trigger] nodes.deep_view()[j]).json, self.1@),
            decreases nodes@.len() - k,
        {
            if equals(nodes[k].json.as_str(), self.1.as_str()) {
                assert(deep_equal(nodes.deep_view()[k as int].json, self.1@));
                return true;
            }
            k += 1;
        }
        false
    }

    /// A copy of the rule.
    pub fn duplicate(&self) -> (copy: JsonPayloadPathEqMatcher)
        ensures
            copy.deep_view() == self.deep_view(),
    {
        JsonPayloadPathEqMatcher(self.0.clone(), self.1.clone())
    }
}

/// One condition that a request has to meet.
pub enum Constraint {
    /// The method is this one.
    Method(String),
    /// The path is this one.
    PathExact(PathExactMatcher),
    /// Some part of the path matches this regular expression.
    PathRegex(PathRegexMatcher),
    /// Some part of path and query matches this regular expression.
    UrlRegex(String),
    /// The field has this value.
    Exact { kind: FieldKind, name: String, value: String },
    /// The field meets this rule.
    Rule { kind: FieldKind, rule: RequestMatcherStub },
    /// The body meets this rule.
    Body(MatcherValue),
    /// The token's payload meets this rule.
    JwtPayload(JsonPayloadPathEqMatcher),
}

/// A condition as contracts see it.
pub enum ConstraintView {
    Method(Seq<char>),
    PathExact(Seq<char>),
    PathRegex(Seq<char>),
    UrlRegex(Seq<char>),
    Exact { kind: FieldKind, pair: (Seq<char>, Seq<char>) },
    Rule { kind: FieldKind, rule: FieldRule },
    Body(MatcherView),
    JwtPayload(PayloadRule),
}

impl DeepView for Constraint {
    type V = ConstraintView;

    open spec fn deep_view(&self) -> ConstraintView {
        match self {
            Constraint::Method(method) => ConstraintView::Method(method@),
            Constraint::PathExact(matcher) => ConstraintView::PathExact(matcher.0@),
            Constraint::PathRegex(matcher) => ConstraintView::PathRegex(matcher.0@),
            Constraint::UrlRegex(pattern) => ConstraintView::UrlRegex(pattern@),
            Constraint::Exact { kind, name, value } => ConstraintView::Exact {
                kind: *kind,
                pair: (name@, value@),
            },
            Constraint::Rule { kind, rule } => ConstraintView::Rule { kind: *kind, rule: rule@ },
            Constraint::Body(rule) => ConstraintView::Body(rule@),
            Constraint::JwtPayload(rule) => ConstraintView::JwtPayload(rule.deep_view()),
        }
    }
}

impl ConstraintView {
    /// The request meets the condition.
    pub open spec fn holds(self, request: RequestView) -> bool {
        match self {
            ConstraintView::Method(method) => request.method == method,
            ConstraintView::PathExact(path) => request.path == path,
            ConstraintView::PathRegex(pattern) => matches_within(pattern, request.path),
            ConstraintView::UrlRegex(pattern) => matches_within(pattern, request.target()),
            ConstraintView::Exact { kind, pair } => pair_holds(kind, pair, request.fields(kind)),
            ConstraintView::Rule { kind, rule } => rule.holds(kind, request.fields(kind)),
            ConstraintView::Body(rule) => rule.accepts(
                Some(request.body),
                request.body_selections,
            ),
            ConstraintView::JwtPayload(rule) => rule.holds(request),
        }
    }
}

/// The request meets every condition.
pub open spec fn all_met(constraints: Seq<ConstraintView>, request: RequestView) -> bool {
    forall|k: int| 0 <= k < constraints.len() ==> (#[trigger] constraints[k]).holds(request)
}

impl Constraint {
    /// Tells whether the request meets the condition.
    pub fn holds(&self, req: &ObservedRequest) -> (verdict: bool)
        ensures
            verdict == self.deep_view().holds(req@),
    {
        match self {
            Constraint::Method(method) => same(req.method.as_str(), method.as_str()),
            Constraint::PathExact(matcher) => matcher.matches(req.path.as_str()),
            Constraint::PathRegex(matcher) => matcher.matches(req.path.as_str()),
            Constraint::UrlRegex(pattern) => {
                let target = req.target();
                is_match(pattern.as_str(), target.as_str())
            },
            Constraint::Exact { kind, name, value } => exact_holds(
                *kind,
                name.as_str(),
                value.as_str(),
                req.fields(*kind),
            ),
            Constraint::Rule { kind, rule } => rule.holds(*kind, req.fields(*kind)),
            Constraint::Body(rule) => rule.evaluate(Some(req.body.as_str()), &req.body_selections),
            Constraint::JwtPayload(rule) => rule.matches(req),
        }
    }
}

/// The conjunction of the conditions gathered so far.
pub struct MockBuilder {
    pub constraints: Vec<Constraint>,
}

impl DeepView for MockBuilder {
    type V = Seq<ConstraintView>;

    open spec fn deep_view(&self) -> Seq<ConstraintView> {
        self.constraints.deep_view()
    }
}

impl MockBuilder {
    /// The predicate that every request meets.
    pub fn any() -> (mock: MockBuilder)
        ensures
            mock.deep_view() == Seq::<ConstraintView>::empty(),
    {
        let mock = MockBuilder { constraints: Vec::new() };
        mock
    }

    /// Adds one condition.
    pub fn and(self, constraint: Constraint) -> (mock: MockBuilder)
        ensures
            mock.deep_view() == self.deep_view().push(constraint.deep_view()),
    {
        let mut constraints = self.constraints;
        constraints.push(constraint);
        MockBuilder { constraints }
    }

    /// Adds conditions, in their order.
    pub fn and_all(self, more: Vec<Constraint>) -> (mock: MockBuilder)
        ensures
            mock.deep_view() == self.deep_view() + more.deep_view(),
    {
        let mut constraints = self.constraints;
        let mut more = more;
        constraints.append(&mut more);
        MockBuilder { constraints }
    }

    /// Tells whether the request meets every condition.
    pub fn matches(&self, req: &ObservedRequest) -> (verdict: bool)
        ensures
            verdict == all_met(self.deep_view(), req@),
    {
        let mut k: usize = 0;
        while k < self.constraints.len()
            invariant
                k <= self.constraints@.len(),
                forall|j: int| 0 <= j < k ==> (#[trigger] self.deep_view()[j]).holds(req@),
            decreases self.constraints@.len() - k,
        {
            if !self.constraints[k].holds(req) {
                assert(!self.deep_view()[k as int].holds(req@));
                return false;
            }
            k += 1;
        }
        true
    }
}

/// One equality per pair, on fields of one kind.
pub open spec fn exact_constraints(kind: FieldKind, pairs: Pairs) -> Seq<ConstraintView> {
    pairs.map_values(|pair: (Seq<char>, Seq<char>)| ConstraintView::Exact { kind, pair })
}

/// One condition per rule, on fields of one kind.
pub open spec fn rule_constraints(kind: FieldKind, rules: Seq<FieldRule>) -> Seq<ConstraintView> {
    rules.map_values(|rule: FieldRule| ConstraintView::Rule { kind, rule })
}

/// One condition per rule on the body.
pub open spec fn body_constraints(rules: Seq<MatcherView>) -> Seq<ConstraintView> {
    rules.map_values(|rule: MatcherView| ConstraintView::Body(rule))
}

/// One condition per rule on the token's payload.
pub open spec fn payload_constraints(rules: Seq<PayloadRule>) -> Seq<ConstraintView> {
    rules.map_values(|rule: PayloadRule| ConstraintView::JwtPayload(rule))
}

/// A request meets a conjunction made of two parts exactly when it meets
/// both.
pub proof fn lemma_all_met_of_parts(
    first: Seq<ConstraintView>,
    second: Seq<ConstraintView>,
    request: RequestView,
)
    ensures
        all_met(first + second, request) <==> all_met(first, request) && all_met(second, request),
{
    let both = first + second;
    if all_met(both, request) {
        assert forall|k: int| 0 <= k < first.len() implies (#[trigger] first[k]).holds(
            request,
        ) by {
            assert(both[k].holds(request));
        }
        assert forall|k: int| 0 <= k < second.len() implies (#[trigger] second[k]).holds(
            request,
        ) by {
            assert(both[first.len() + k].holds(request));
        }
    }
    if all_met(first, request) && all_met(second, request) {
        assert forall|k: int| 0 <= k < both.len() implies (#[trigger] both[k]).holds(request) by {
            if k < first.len() {
                assert(first[k].holds(request));
            } else {
                assert(second[k - first.len()].holds(request));
            }
        }
    }
}

/// What one of two parts holds, the whole holds.
pub proof fn lemma_part_is_contained(
    first: Seq<ConstraintView>,
    second: Seq<ConstraintView>,
    condition: ConstraintView,
)
    requires
        first.contains(condition) || second.contains(condition),
    ensures
        (first + second).contains(condition),
{
    if first.contains(condition) {
        let k = choose|k: int| 0 <= k < first.len() && first[k] == condition;
        assert((first + second)[k] == condition);
    } else {
        let k = choose|k: int| 0 <= k < second.len() && second[k] == condition;
        assert((first + second)[first.len() + k] == condition);
    }
}

/// The equalities compiled for fields of one kind are met exactly when the
/// request's fields of that kind have the demanded values, and the rules
/// compiled for them exactly when those fields meet the rules.
pub proof fn lemma_field_constraints_met(
    kind: FieldKind,
    pairs: Pairs,
    rules: Seq<FieldRule>,
    request: RequestView,
)
    ensures
        all_met(exact_constraints(kind, pairs), request) <==> crate::fields::all_pairs_hold(
            kind, pairs,
            request.fields(kind),
        ),
        all_met(rule_constraints(kind, rules), request) <==> crate::fields::all_hold(
            kind, rules,
            request.fields(kind),
        ),
{
    let exact = exact_constraints(kind, pairs);
    let ruled = rule_constraints(kind, rules);
    let fields = request.fields(kind);
    if all_met(exact, request) {
        assert forall|k: int| 0 <= k < pairs.len() implies pair_holds(
            kind, #[trigger] pairs[k],
            fields,
        ) by {
            assert(exact[k].holds(request));
        }
    }
    if crate::fields::all_pairs_hold(kind, pairs, fields) {
        assert forall|k: int| 0 <= k < exact.len() implies (#[trigger] exact[k]).holds(
            request,
        ) by {
            assert(pair_holds(kind, pairs[k], fields));
        }
    }
    if all_met(ruled, request) {
        assert forall|k: int| 0 <= k < rules.len() implies (#[trigger] rules[k]).holds(
            kind,
            fields,
        ) by {
            assert(ruled[k].holds(request));
        }
    }
    if crate::fields::all_hold(kind, rules, fields) {
        assert forall|k: int| 0 <= k < ruled.len() implies (#[trigger] ruled[k]).holds(
            request,
        ) by {
            assert(rules[k].holds(kind, fields));
        }
    }
}

impl RequestView {
    /// The request with one more field of one kind, put in at `at`.
    pub open spec fn with_field(
        self,
        kind: FieldKind,
        at: int,
        extra: (Seq<char>, Seq<char>),
    ) -> RequestView {
        match kind {
            FieldKind::Header => RequestView { headers: self.headers.insert(at, extra), ..self },
            FieldKind::Query => RequestView { queries: self.queries.insert(at, extra), ..self },
        }
    }
}

impl ConstraintView {
    /// The condition is on the field `name` of kind `kind`.
    pub open spec fn is_on(self, kind: FieldKind, name: Seq<char>) -> bool {
        match self {
            ConstraintView::Exact { kind: on, pair } => on == kind && pair.0 == name,
            ConstraintView::Rule { kind: on, rule } => on == kind && rule.key == name,
            _ => false,
        }
    }
}

/// A header or a query parameter added to a request under a name that no
/// condition is on changes the verdict of no condition, and so not that of
/// their conjunction.
pub proof fn lemma_unrelated_field_keeps_verdict(
    constraints: Seq<ConstraintView>,
    request: RequestView,
    kind: FieldKind,
    at: int,
    extra: (Seq<char>, Seq<char>),
)
    requires
        0 <= at <= request.fields(kind).len(),
        forall|k: int| 0 <= k < constraints.len() ==> !(#[trigger] constraints[k]).is_on(
            kind,
            extra.0,
        ),
    ensures
        forall|k: int|
            0 <= k < constraints.len() ==> (#[trigger] constraints[k]).holds(
                request.with_field(kind, at, extra),
            ) == constraints[k].holds(request),
        all_met(constraints, request.with_field(kind, at, extra)) == all_met(constraints, request),
{
    let more = request.with_field(kind, at, extra);
    assert forall|k: int| 0 <= k < constraints.len() implies (#[trigger] constraints[k]).holds(
        more,
    ) == constraints[k].holds(request) by {
        let constraint = constraints[k];
        assert(!constraint.is_on(kind, extra.0));
        match constraint {
            ConstraintView::Exact { kind: on, pair } => {
                if on == kind {
                    crate::fields::lemma_other_field_keeps_equality(
                        kind,
                        request.fields(kind),
                        at,
                        extra,
                        pair,
                    );
                }
            },
            ConstraintView::Rule { kind: on, rule } => {
                if on == kind {
                    crate::fields::lemma_unrelated_field_is_ignored(
                        kind,
                        seq![rule],
                        request.fields(kind),
                        at,
                        extra,
                    );
                    assert(seq![rule][0] == rule);
                }
            },
            _ => {
                assert(more.target() == request.target());
            },
        }
    }
}

/// Makes the equalities on fields of one kind.
pub fn make_exact(kind: FieldKind, pairs: &Vec<(String, String)>) -> (made: Vec<Constraint>)
    ensures
        made.deep_view() == exact_constraints(kind, pairs.deep_view()),
{
    let mut made: Vec<Constraint> = Vec::new();
    let mut k: usize = 0;
    while k < pairs.len()
        invariant
            k <= pairs@.len(),
            made@.len() == k,
            forall|j: int|
                0 <= j < k ==> (#[trigger] made@[j]).deep_view() == (ConstraintView::Exact {
                    kind,
                    pair: pairs.deep_view()[j],
                }),
        decreases pairs@.len() - k,
    {
        made.push(Constraint::Exact { kind, name: pairs[k].0.clone(), value: pairs[k].1.clone() });
        k += 1;
    }
    made
}

/// Makes the conditions for rules on fields of one kind.
pub fn make_rules(kind: FieldKind, rules: &Vec<RequestMatcherStub>) -> (made: Vec<Constraint>)
    ensures
        made.deep_view() == rule_constraints(kind, rules.deep_view()),
{
    let mut made: Vec<Constraint> = Vec::new();
    let mut k: usize = 0;
    while k < rules.len()
        invariant
            k <= rules@.len(),
            made@.len() == k,
            forall|j: int|
                0 <= j < k ==> (#[trigger] made@[j]).deep_view() == (ConstraintView::Rule {
                    kind,
                    rule: rules.deep_view()[j],
                }),
        decreases rules@.len() - k,
    {
        made.push(Constraint::Rule { kind, rule: rules[k].duplicate() });
        k += 1;
    }
    made
}

/// Makes the conditions for rules on the body.
pub fn make_body(rules: &Vec<MatcherValue>) -> (made: Vec<Constraint>)
    ensures
        made.deep_view() == body_constraints(rules.deep_view()),
{
    let mut made: Vec<Constraint> = Vec::new();
    let mut k: usize = 0;
    while k < rules.len()
        invariant
            k <= rules@.len(),
            made@.len() == k,
            forall|j: int|
                0 <= j < k ==> (#[trigger] made@[j]).deep_view() == ConstraintView::Body(
                    rules.deep_view()[j],
                ),
        decreases rules@.len() - k,
    {
        made.push(Constraint::Body(rules[k].duplicate()));
        k += 1;
    }
    made
}

/// Makes the conditions for rules on the token's payload.
pub fn make_payload(rules: &Vec<JsonPayloadPathEqMatcher>) -> (made: Vec<Constraint>)
    ensures
        made.deep_view() == payload_constraints(rules.deep_view()),
{
    let mut made: Vec<Constraint> = Vec::new();
    let mut k: usize = 0;
    while k < rules.len()
        invariant
            k <= rules@.len(),
            made@.len() == k,
            forall|j: int|
                0 <= j < k ==> (#[trigger] made@[j]).deep_view() == ConstraintView::JwtPayload(
                    rules.deep_view()[j],
                ),
        decreases rules@.len() - k,
    {
        made.push(Constraint::JwtPayload(rules[k].duplicate()));
        k += 1;
    }
    made
}

} // verus!
