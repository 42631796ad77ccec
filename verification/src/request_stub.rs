//! The request part of a stub and its compilation into a predicate.

use vstd::prelude::*;

use crate::fields::{
    collect_exact, collect_residual, declared, exact_pairs, has_field,
    lemma_absent_rule_means_no_field, lemma_residual_rule_is_kept, residual_rules, FieldKind,
    FieldRule, HttpQueryParamsStub, HttpReqHeadersStub,
};
use crate::matcher::{MatcherValue, MatcherView};
use crate::request::{
    all_met, body_constraints, exact_constraints, lemma_part_is_contained, make_body, make_exact,
    make_payload, make_rules, payload_constraints, rule_constraints, Constraint,
    ConstraintView, JsonPayloadPathEqMatcher, MockBuilder, PayloadRule, RequestView,
};
use crate::pattern::is_well_formed;
use crate::url::{
    locate, located, usable_path, usable_pattern, HttpUrl, HttpUrlView, Located,
    PathExactMatcher, PathRegexMatcher, UrlError,
};

verus! {

/// What a stub demands of a request.
pub struct RequestStub {
    pub method: Option<String>,
    pub url: HttpUrl,
    pub headers: HttpReqHeadersStub,
    pub queries: HttpQueryParamsStub,
    pub body: Option<Vec<MatcherValue>>,
    pub jwt: Option<Vec<JsonPayloadPathEqMatcher>>,
}

/// The request part of a stub as contracts see it.
pub struct RequestStubView {
    pub method: Option<Seq<char>>,
    pub url: HttpUrlView,
    pub headers: Option<Seq<FieldRule>>,
    pub queries: Option<Seq<FieldRule>>,
    pub body: Option<Seq<MatcherView>>,
    pub jwt: Option<Seq<PayloadRule>>,
}

impl View for RequestStub {
    type V = RequestStubView;

    open spec fn view(&self) -> RequestStubView {
        RequestStubView {
            method: self.method.deep_view(),
            url: self.url@,
            headers: self.headers.deep_view(),
            queries: self.queries.deep_view(),
            body: self.body.deep_view(),
            jwt: self.jwt.deep_view(),
        }
    }
}

/// A part of a stub that adds its conditions to a predicate.
pub trait MockRegistrable {
    /// The conditions that this part stands for.
    spec fn conditions(&self) -> Seq<ConstraintView>;

    /// Adds the conditions to `mock`, behind those it holds.
    fn register(&self, mock: MockBuilder) -> (extended: MockBuilder)
        ensures
            extended.deep_view() == mock.deep_view() + self.conditions(),
    ;
}

/// The conditions of the rules on the path alone: the exact path, then the
/// pattern. Both are attached where both are set. A `url_path` that is no
/// path and a pattern that is no regular expression are left out.
pub open spec fn path_conditions(url: HttpUrlView) -> Seq<ConstraintView> {
    let exact = match url.url_path {
        Some(path) => match usable_path(path) {
            Some(full) => seq![ConstraintView::PathExact(full)],
            None => Seq::empty(),
        },
        None => Seq::empty(),
    };
    let regex = match usable_pattern(url.url_path_pattern) {
        Some(pattern) => seq![ConstraintView::PathRegex(pattern)],
        None => Seq::empty(),
    };
    exact + regex
}

/// The conditions of an exact URL: its path, then one equality for each
/// query parameter it carries.
pub open spec fn exact_url_conditions(found: crate::url::LocatedView) -> Seq<ConstraintView> {
    seq![ConstraintView::PathExact(found.path)] + exact_constraints(FieldKind::Query, found.pairs)
}

/// The conditions of the rules on path and query: those of the exact URL,
/// then the pattern. A pattern that is no regular expression is left out.
/// `None` where the exact URL is no URL.
pub open spec fn full_url_conditions(url: HttpUrlView) -> Option<Seq<ConstraintView>> {
    let regex = match usable_pattern(url.url_pattern) {
        Some(pattern) => seq![ConstraintView::UrlRegex(pattern)],
        None => Seq::empty(),
    };
    match url.url {
        Some(text) => match located(text) {
            Some(found) => Some(exact_url_conditions(found) + regex),
            None => None,
        },
        None => Some(regex),
    }
}

/// The conditions of all the URL rules of a stub: those on path and query,
/// then those on the path alone. Every rule that is set and can be used is
/// attached; an exact URL that is no URL is left out together with the
/// pattern on path and query.
pub open spec fn url_conditions(url: HttpUrlView) -> Seq<ConstraintView> {
    match full_url_conditions(url) {
        Some(full) => full + path_conditions(url),
        None => path_conditions(url),
    }
}

impl MockRegistrable for HttpUrl {
    open spec fn conditions(&self) -> Seq<ConstraintView> {
        url_conditions(self@)
    }

    fn register(&self, mock: MockBuilder) -> (extended: MockBuilder) {
        let mock = match self.full_constraints() {
            Ok(full) => mock.and_all(full),
            Err(_) => mock,
        };
        self.register_paths(mock)
    }
}

impl HttpUrl {
    /// Adds the conditions of the rules on the path alone.
    pub fn register_paths(&self, mock: MockBuilder) -> (extended: MockBuilder)
        ensures
            extended.deep_view() == mock.deep_view() + path_conditions(self@),
    {
        let mut mock = mock;
        if let Ok(exact) = PathExactMatcher::try_from(self) {
            mock = mock.and(Constraint::PathExact(exact));
        }
        if let Ok(regex) = PathRegexMatcher::try_from(self) {
            mock = mock.and(Constraint::PathRegex(regex));
        }
        mock
    }

    /// The conditions of the rules on path and query. An exact URL that is
    /// no URL gives an error.
    pub fn full_constraints(&self) -> (made: Result<Vec<Constraint>, UrlError>)
        ensures
            match full_url_conditions(self@) {
                Some(conditions) => made matches Ok(full) && full.deep_view() == conditions,
                None => made matches Err(reason) && reason == UrlError::Malformed,
            },
    {
        match self.register_url(MockBuilder::any()) {
            Ok(mock) => Ok(mock.constraints),
            Err(reason) => Err(reason),
        }
    }

    /// Adds the conditions of an exact URL whose parts were found, or hands
    /// the error on.
    pub fn register_located(
        parts: Result<Located, UrlError>,
        mock: MockBuilder,
    ) -> (extended: Result<MockBuilder, UrlError>)
        ensures
            match parts {
                Ok(found) => extended matches Ok(made) && made.deep_view() == mock.deep_view()
                    + exact_url_conditions(found@),
                Err(reason) => extended matches Err(given) && given == reason,
            },
    {
        match parts {
            Ok(found) => {
                let path = Constraint::PathExact(PathExactMatcher(found.path));
                Ok(mock.and(path).and_all(make_exact(FieldKind::Query, &found.pairs)))
            },
            Err(reason) => Err(reason),
        }
    }

    /// Adds the conditions of the rules on path and query. An exact URL that
    /// is no URL gives an error; a pattern that is no regular expression is
    /// left out.
    pub fn register_url(&self, mock: MockBuilder) -> (extended: Result<MockBuilder, UrlError>)
        ensures
            match full_url_conditions(self@) {
                Some(conditions) => extended matches Ok(made) && made.deep_view()
                    == mock.deep_view() + conditions,
                None => extended matches Err(reason) && reason == UrlError::Malformed,
            },
    {
        let mock = match &self.url {
            Some(text) => match HttpUrl::register_located(locate(text.as_str()), mock) {
                Ok(made) => made,
                Err(reason) => { return Err(reason); },
            },
            None => mock,
        };
        let made = match &self.url_pattern {
            Some(pattern) => {
                if is_well_formed(pattern.as_str()) {
                    mock.and(Constraint::UrlRegex(pattern.clone()))
                } else {
                    mock
                }
            },
            None => mock,
        };
        Ok(made)
    }
}

/// The conditions of rules on fields of one kind: the equalities first, then
/// the rules that the exact pass does not cover. A rule that is no
/// comparison is left out.
pub open spec fn field_conditions(kind: FieldKind, rules: Option<Seq<FieldRule>>) -> Seq<
    ConstraintView,
> {
    exact_constraints(kind, exact_pairs(declared(rules))) + rule_constraints(
        kind,
        residual_rules(declared(rules)),
    )
}

impl MockRegistrable for HttpReqHeadersStub {
    open spec fn conditions(&self) -> Seq<ConstraintView> {
        field_conditions(FieldKind::Header, self.deep_view())
    }

    fn register(&self, mock: MockBuilder) -> (extended: MockBuilder) {
        match self.get_headers() {
            Some(rules) => {
                let exact = make_exact(FieldKind::Header, &collect_exact(rules));
                let rest = make_rules(FieldKind::Header, &collect_residual(rules));
                mock.and_all(exact).and_all(rest)
            },
            None => mock,
        }
    }
}

impl MockRegistrable for HttpQueryParamsStub {
    open spec fn conditions(&self) -> Seq<ConstraintView> {
        field_conditions(FieldKind::Query, self.deep_view())
    }

    fn register(&self, mock: MockBuilder) -> (extended: MockBuilder) {
        match self.get_queries() {
            Some(rules) => {
                let exact = make_exact(FieldKind::Query, &collect_exact(rules));
                let rest = make_rules(FieldKind::Query, &collect_residual(rules));
                mock.and_all(exact).and_all(rest)
            },
            None => mock,
        }
    }
}

/// Why a stub gave no predicate.
#[derive(Debug, Clone, Copy, PartialEq, Eq, Structural)]
pub enum CompileError {
    /// The stub names neither a method nor a URL rule that can be used.
    NoRequestInfo,
    /// The stub's exact URL is no URL.
    MalformedUrl,
}

impl RequestStubView {
    /// The condition on the method, where the stub names one.
    pub open spec fn method_conditions(self) -> Seq<ConstraintView> {
        match self.method {
            Some(method) => seq![ConstraintView::Method(method)],
            None => Seq::empty(),
        }
    }

    /// The conditions behind those on method and URL, in the order in which
    /// they are attached: headers, query, body, token.
    pub open spec fn further_conditions(self) -> Seq<ConstraintView> {
        field_conditions(FieldKind::Header, self.headers) + field_conditions(
            FieldKind::Query,
            self.queries,
        ) + body_constraints(
            match self.body {
                Some(rules) => rules,
                None => Seq::empty(),
            },
        ) + payload_constraints(
            match self.jwt {
                Some(rules) => rules,
                None => Seq::empty(),
            },
        )
    }

    /// What the stub compiles to: the conjunction of all its conditions, or
    /// the reason why there is none.
    pub open spec fn compiled(self) -> Result<Seq<ConstraintView>, CompileError> {
        if self.method is None && !self.url.has_usable_rule() {
            Err(CompileError::NoRequestInfo)
        } else {
            match full_url_conditions(self.url) {
                Some(_) => Ok(
                    self.method_conditions() + url_conditions(self.url)
                        + self.further_conditions(),
                ),
                None => Err(CompileError::MalformedUrl),
            }
        }
    }
}

impl RequestStubView {
    /// The rules that the stub declares on fields of one kind.
    pub open spec fn rules(self, kind: FieldKind) -> Seq<FieldRule> {
        declared(
            match kind {
                FieldKind::Header => self.headers,
                FieldKind::Query => self.queries,
            },
        )
    }
}

/// The rule that the field `name` is absent.
pub open spec fn absence_of(name: Seq<char>) -> FieldRule {
    FieldRule { key: name, value: MatcherView::Absent }
}

/// A rule that the stub declares on a field, and that the exact pass does
/// not cover, is one of the conditions that the stub compiles to.
pub proof fn lemma_declared_rule_is_compiled(stub: RequestStubView, kind: FieldKind, at: int)
    requires
        stub.compiled() is Ok,
        0 <= at < stub.rules(kind).len(),
        stub.rules(kind)[at].is_residual(),
    ensures
        stub.compiled()->Ok_0.contains(ConstraintView::Rule { kind, rule: stub.rules(kind)[at] }),
{
    let rules = stub.rules(kind);
    let condition = ConstraintView::Rule { kind, rule: rules[at] };
    let kept = residual_rules(rules);
    lemma_residual_rule_is_kept(rules, rules.len() as int, at);
    let k = choose|k: int| 0 <= k < kept.len() && kept[k] == rules[at];
    assert(rule_constraints(kind, kept)[k] == condition);
    let of_headers = field_conditions(FieldKind::Header, stub.headers);
    let of_queries = field_conditions(FieldKind::Query, stub.queries);
    let of_body = body_constraints(
        match stub.body {
            Some(rules) => rules,
            None => Seq::empty(),
        },
    );
    let of_token = payload_constraints(
        match stub.jwt {
            Some(rules) => rules,
            None => Seq::empty(),
        },
    );
    lemma_part_is_contained(
        exact_constraints(kind, exact_pairs(rules)),
        rule_constraints(kind, kept),
        condition,
    );
    lemma_part_is_contained(of_headers, of_queries, condition);
    lemma_part_is_contained(of_headers + of_queries, of_body, condition);
    lemma_part_is_contained(of_headers + of_queries + of_body, of_token, condition);
    lemma_part_is_contained(
        stub.method_conditions() + url_conditions(stub.url),
        stub.further_conditions(),
        condition,
    );
}

/// A stub that declares a field absent, on headers or on query parameters,
/// accepts no request that has the field, whatever its value, the empty
/// text included. It accepts a request without the field where the request
/// meets the stub's other conditions.
pub proof fn lemma_absent_rule_decides(
    stub: RequestStubView,
    kind: FieldKind,
    name: Seq<char>,
    at: int,
    request: RequestView,
)
    requires
        stub.compiled() is Ok,
        0 <= at < stub.rules(kind).len(),
        stub.rules(kind)[at] == absence_of(name),
    ensures
        has_field(request.fields(kind), name) ==> !all_met(stub.compiled()->Ok_0, request),
        !has_field(request.fields(kind), name) && (forall|k: int|
            0 <= k < stub.compiled()->Ok_0.len() && (#[trigger] stub.compiled()->Ok_0[k])
                != (ConstraintView::Rule { kind, rule: absence_of(name) })
                ==> stub.compiled()->Ok_0[k].holds(request)) ==> all_met(
            stub.compiled()->Ok_0,
            request,
        ),
{
    let conditions = stub.compiled()->Ok_0;
    let condition = ConstraintView::Rule { kind, rule: absence_of(name) };
    lemma_absent_rule_means_no_field(kind, name, request.fields(kind));
    lemma_declared_rule_is_compiled(stub, kind, at);
    if has_field(request.fields(kind), name) {
        let k = choose|k: int| 0 <= k < conditions.len() && conditions[k] == condition;
        assert(!conditions[k].holds(request));
    }
}

impl MockBuilder {
    /// The predicate that starts with the condition on the method.
    pub fn from_method(method: &Option<String>) -> (mock: MockBuilder)
        ensures
            mock.deep_view() == match method.deep_view() {
                Some(name) => seq![ConstraintView::Method(name)],
                None => Seq::empty(),
            },
    {
        match method {
            Some(name) => MockBuilder::any().and(Constraint::Method(name.clone())),
            None => MockBuilder::any(),
        }
    }

    /// Adds what stands behind method and URL.
    pub fn and_further(self, request: &RequestStub) -> (mock: MockBuilder)
        ensures
            mock.deep_view() == self.deep_view() + request@.further_conditions(),
    {
        let mut mock = request.headers.register(self);
        mock = request.queries.register(mock);
        mock = match &request.body {
            Some(rules) => mock.and_all(make_body(rules)),
            None => mock,
        };
        mock = match &request.jwt {
            Some(rules) => mock.and_all(make_payload(rules)),
            None => mock,
        };
        mock
    }

    /// Compiles the request part of a stub. A stub that names neither a
    /// method nor a URL rule that can be used, or whose exact URL is no
    /// URL, gives an error; every other stub gives the conjunction of its
    /// conditions. A rule that cannot be read is left out, and the rest is
    /// compiled.
    pub fn try_from(request: &RequestStub) -> (made: Result<MockBuilder, CompileError>)
        ensures
            match request@.compiled() {
                Ok(conditions) => made matches Ok(mock) && mock.deep_view() == conditions,
                Err(reason) => made matches Err(given) && given == reason,
            },
    {
        if request.method.is_none() && !request.url.has_usable_rule() {
            return Err(CompileError::NoRequestInfo);
        }
        let mock = MockBuilder::from_method(&request.method);
        let mock = match request.url.register_url(mock) {
            Ok(made) => request.url.register_paths(made),
            Err(_) => { return Err(CompileError::MalformedUrl); },
        };
        Ok(mock.and_further(request))
    }
}

/// Tells whether a declared pattern is a regular expression.
pub fn is_usable_pattern(pattern: &Option<String>) -> (usable: bool)
    ensures
        usable == usable_pattern(pattern.deep_view()) is Some,
{
    match pattern {
        Some(text) => is_well_formed(text.as_str()),
        None => false,
    }
}

impl HttpUrl {
    /// Tells whether no URL rule is set.
    pub fn is_unset(&self) -> (unset: bool)
        ensures
            unset == self@.is_unset(),
    {
        self.url.is_none() && self.url_path.is_none() && self.url_pattern.is_none()
            && self.url_path_pattern.is_none()
    }

    /// Tells whether some URL rule can be used.
    pub fn has_usable_rule(&self) -> (usable: bool)
        ensures
            usable == self@.has_usable_rule(),
    {
        self.url.is_some() || PathExactMatcher::try_from(self).is_ok() || is_usable_pattern(
            &self.url_pattern,
        ) || is_usable_pattern(&self.url_path_pattern)
    }
}

} // verus!
