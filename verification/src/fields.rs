//! Rules on the named fields of a request: headers and query parameters.

use vstd::prelude::*;

use crate::matcher::{MatcherConstructionError, MatcherValue, MatcherView, Selection};
use crate::text::same;

verus! {

/// The fields of a request as they were observed, in order.
pub type Pairs = Seq<(Seq<char>, Seq<char>)>;

/// The value of the first field called `name` from position `from` on.
pub open spec fn value_from(fields: Pairs, name: Seq<char>, from: int) -> Option<Seq<char>>
    decreases fields.len() - from,
{
    if from < 0 || from >= fields.len() {
        None
    } else if fields[from].0 == name {
        Some(fields[from].1)
    } else {
        value_from(fields, name, from + 1)
    }
}

/// The value that a request holds for the field `name`: that of the first
/// field of that name, `None` where there is none.
pub open spec fn value_of(fields: Pairs, name: Seq<char>) -> Option<Seq<char>> {
    value_from(fields, name, 0)
}

/// The two kinds of named fields of a request.
#[derive(Debug, Clone, Copy, PartialEq, Eq, Structural)]
pub enum FieldKind {
    Header,
    Query,
}

/// How many fields from position `from` on are called `name`.
pub open spec fn occurrences_from(fields: Pairs, name: Seq<char>, from: int) -> nat
    decreases fields.len() - from,
{
    if from < 0 || from >= fields.len() {
        0
    } else if fields[from].0 == name {
        1 + occurrences_from(fields, name, from + 1)
    } else {
        occurrences_from(fields, name, from + 1)
    }
}

/// How many fields are called `name`.
pub open spec fn occurrences(fields: Pairs, name: Seq<char>) -> nat {
    occurrences_from(fields, name, 0)
}

/// Some field is called `name`.
pub open spec fn has_field(fields: Pairs, name: Seq<char>) -> bool {
    exists|k: int| 0 <= k < fields.len() && #[trigger] fields[k].0 == name
}

/// Looking a field up from `from` on finds one exactly where one of that
/// name stands there, and the value found belongs to a field of that name.
pub proof fn lemma_value_from_finds(fields: Pairs, name: Seq<char>, from: int)
    requires
        0 <= from,
    ensures
        value_from(fields, name, from) is Some <==> exists|k: int|
            from <= k < fields.len() && #[trigger] fields[k].0 == name,
        value_from(fields, name, from) matches Some(value) ==> exists|k: int|
            from <= k < fields.len() && #[trigger] fields[k] == (name, value),
    decreases fields.len() - from,
{
    if from < fields.len() {
        if fields[from].0 == name {
            assert(fields[from] == (name, fields[from].1));
        } else {
            lemma_value_from_finds(fields, name, from + 1);
        }
    }
}

/// A field has a value exactly where the request has a field of that name.
pub proof fn lemma_value_of_present(fields: Pairs, name: Seq<char>)
    ensures
        value_of(fields, name) is Some <==> has_field(fields, name),
{
    lemma_value_from_finds(fields, name, 0);
}

/// Looks the field `name` up.
pub fn find_value<'a>(fields: &'a Vec<(String, String)>, name: &str) -> (found: Option<&'a String>)
    ensures
        found.deep_view() == value_of(fields.deep_view(), name@),
{
    let mut k: usize = 0;
    while k < fields.len()
        invariant
            k <= fields@.len(),
            value_of(fields.deep_view(), name@) == value_from(fields.deep_view(), name@, k as int),
        decreases fields@.len() - k,
    {
        if same(fields[k].0.as_str(), name) {
            return Some(&fields[k].1);
        }
        k += 1;
    }
    None
}

/// One declared rule on one named field.
pub struct RequestMatcherStub {
    pub key: String,
    pub value: MatcherValue,
}

/// A rule on a named field as contracts see it.
pub struct FieldRule {
    pub key: Seq<char>,
    pub value: MatcherView,
}

impl View for RequestMatcherStub {
    type V = FieldRule;

    open spec fn view(&self) -> FieldRule {
        FieldRule { key: self.key@, value: self.value@ }
    }
}

impl DeepView for RequestMatcherStub {
    type V = FieldRule;

    open spec fn deep_view(&self) -> FieldRule {
        self@
    }
}

impl FieldRule {
    /// The rule holds of the fields of one kind. An equality is judged as
    /// `pair_holds` says; any other rule is judged on the value of the
    /// first field of the rule's name.
    pub open spec fn holds(self, kind: FieldKind, fields: Pairs) -> bool {
        match self.value.equal_to() {
            Some(text) => pair_holds(kind, (self.key, text), fields),
            None => self.value.accepts(value_of(fields, self.key), Seq::empty()),
        }
    }

    /// The rule demands a value equal to a text.
    pub open spec fn exact_pair(self) -> Option<(Seq<char>, Seq<char>)> {
        match self.value.equal_to() {
            Some(text) => Some((self.key, text)),
            None => None,
        }
    }

    /// The rule is a comparison that the exact pass does not cover.
    pub open spec fn is_residual(self) -> bool {
        !(self.value is EqualTo) && !(self.value is Unsupported)
    }
}

/// No two rules are on the same field: a set of rules maps each name to
/// one rule.
pub open spec fn has_distinct_keys(rules: Seq<FieldRule>) -> bool {
    forall|i: int, j: int|
        0 <= i < j < rules.len() ==> (#[trigger] rules[i]).key != (#[trigger] rules[j]).key
}

/// Every rule holds of the fields of one kind.
pub open spec fn all_hold(kind: FieldKind, rules: Seq<FieldRule>, fields: Pairs) -> bool {
    forall|k: int| 0 <= k < rules.len() ==> (#[trigger] rules[k]).holds(kind, fields)
}

/// The equalities that the first `upto` rules demand, in the rules' order.
pub open spec fn exact_upto(rules: Seq<FieldRule>, upto: int) -> Pairs
    decreases upto,
{
    if upto <= 0 {
        Seq::empty()
    } else {
        match rules[upto - 1].exact_pair() {
            Some(pair) => exact_upto(rules, upto - 1).push(pair),
            None => exact_upto(rules, upto - 1),
        }
    }
}

/// The equalities that the rules demand.
pub open spec fn exact_pairs(rules: Seq<FieldRule>) -> Pairs {
    exact_upto(rules, rules.len() as int)
}

/// Those of the first `upto` rules that the exact pass does not cover, in
/// the rules' order.
pub open spec fn residual_upto(rules: Seq<FieldRule>, upto: int) -> Seq<FieldRule>
    decreases upto,
{
    if upto <= 0 {
        Seq::empty()
    } else if rules[upto - 1].is_residual() {
        residual_upto(rules, upto - 1).push(rules[upto - 1])
    } else {
        residual_upto(rules, upto - 1)
    }
}

/// The rules that the exact pass does not cover.
pub open spec fn residual_rules(rules: Seq<FieldRule>) -> Seq<FieldRule> {
    residual_upto(rules, rules.len() as int)
}

/// The fields of one kind meet the equality of the field `pair.0` with the
/// value `pair.1`. A header is compared with all its values: it has to
/// occur once, with that value. A query parameter may occur more than
/// once: some occurrence has to have that value.
pub open spec fn pair_holds(kind: FieldKind, pair: (Seq<char>, Seq<char>), fields: Pairs) -> bool {
    match kind {
        FieldKind::Header => occurrences(fields, pair.0) == 1 && value_of(fields, pair.0) == Some(
            pair.1,
        ),
        FieldKind::Query => fields.contains(pair),
    }
}

/// Every demanded equality holds of the fields of one kind.
pub open spec fn all_pairs_hold(kind: FieldKind, pairs: Pairs, fields: Pairs) -> bool {
    forall|k: int| 0 <= k < pairs.len() ==> pair_holds(kind, #[trigger] pairs[k], fields)
}

/// Counts the fields called `name`.
pub fn count_fields(fields: &Vec<(String, String)>, name: &str) -> (count: usize)
    ensures
        count == occurrences(fields.deep_view(), name@),
{
    let total: usize = fields.len();
    let mut count: usize = 0;
    let mut k: usize = total;
    while k > 0
        invariant
            k <= total == fields@.len(),
            count <= total - k,
            count == occurrences_from(fields.deep_view(), name@, k as int),
        decreases k,
    {
        k -= 1;
        if same(fields[k].0.as_str(), name) {
            count += 1;
        }
    }
    count
}

/// Tells whether some field has this name and this value.
pub fn has_pair(fields: &Vec<(String, String)>, name: &str, value: &str) -> (found: bool)
    ensures
        found == fields.deep_view().contains((name@, value@)),
{
    let mut k: usize = 0;
    while k < fields.len()
        invariant
            k <= fields@.len(),
            forall|j: int| 0 <= j < k ==> fields.deep_view()[j] != (name@, value@),
        decreases fields@.len() - k,
    {
        if same(fields[k].0.as_str(), name) && same(fields[k].1.as_str(), value) {
            assert(fields.deep_view()[k as int] == (name@, value@));
            return true;
        }
        k += 1;
    }
    false
}

/// Tells whether the fields of one kind meet the equality of the field
/// `name` with `value`.
pub fn exact_holds(kind: FieldKind, name: &str, value: &str, fields: &Vec<(String, String)>) -> (
    verdict: bool)
    ensures
        verdict == pair_holds(kind, (name@, value@), fields.deep_view()),
{
    match kind {
        FieldKind::Header => {
            match find_value(fields, name) {
                Some(found) => same(found.as_str(), value) && count_fields(fields, name) == 1,
                None => false,
            }
        },
        FieldKind::Query => has_pair(fields, name, value),
    }
}

impl RequestMatcherStub {
    /// Tells whether the rule is exact.
    pub fn is_exact_match(&self) -> (exact: bool)
        ensures
            exact == self@.value.is_exact(),
    {
        self.value.is_exact()
    }

    /// The text that the rule compares with, where it is an equality.
    pub fn equal_to_as_str(&self) -> (text: Option<String>)
        ensures
            text.deep_view() == self@.value.equal_to(),
    {
        self.value.equal_to_as_str()
    }

    /// A copy of the rule.
    pub fn duplicate(&self) -> (copy: RequestMatcherStub)
        ensures
            copy@ == self@,
    {
        RequestMatcherStub { key: self.key.clone(), value: self.value.duplicate() }
    }

    /// Evaluates the rule on the fields of one kind of a request.
    pub fn holds(&self, kind: FieldKind, fields: &Vec<(String, String)>) -> (verdict: bool)
        ensures
            verdict == self@.holds(kind, fields.deep_view()),
    {
        match &self.value {
            MatcherValue::EqualTo(text) => exact_holds(
                kind,
                self.key.as_str(),
                text.as_str(),
                fields,
            ),
            _ => {
                let none: Vec<Selection> = Vec::new();
                let observed = match find_value(fields, self.key.as_str()) {
                    Some(value) => Some(value.as_str()),
                    None => None,
                };
                self.value.evaluate(observed, &none)
            },
        }
    }
}

/// The equalities that the rules demand, each as a key and the text its
/// value has to equal. A rule that is exact without being a comparison with
/// a text gives none.
pub fn collect_exact(rules: &Vec<RequestMatcherStub>) -> (pairs: Vec<(String, String)>)
    ensures
        pairs.deep_view() == exact_pairs(rules.deep_view()),
{
    let mut pairs: Vec<(String, String)> = Vec::new();
    let mut k: usize = 0;
    while k < rules.len()
        invariant
            k <= rules@.len(),
            pairs.deep_view() == exact_upto(rules.deep_view(), k as int),
        decreases rules@.len() - k,
    {
        if rules[k].is_exact_match() {
            match rules[k].equal_to_as_str() {
                Some(text) => pairs.push((rules[k].key.clone(), text)),
                None => {},
            }
        }
        k += 1;
    }
    pairs
}

/// The rules that the exact pass does not cover.
pub fn collect_residual(rules: &Vec<RequestMatcherStub>) -> (rest: Vec<RequestMatcherStub>)
    ensures
        rest.deep_view() == residual_rules(rules.deep_view()),
{
    let mut rest: Vec<RequestMatcherStub> = Vec::new();
    let mut k: usize = 0;
    while k < rules.len()
        invariant
            k <= rules@.len(),
            rest.deep_view() == residual_upto(rules.deep_view(), k as int),
        decreases rules@.len() - k,
    {
        let covered = match &rules[k].value {
            MatcherValue::EqualTo(_) => true,
            MatcherValue::Unsupported => true,
            _ => false,
        };
        if !covered {
            rest.push(rules[k].duplicate());
        }
        k += 1;
    }
    rest
}

/// Tells whether no two rules are on the same field.
pub fn keys_are_distinct(rules: &Vec<RequestMatcherStub>) -> (distinct: bool)
    ensures
        distinct == has_distinct_keys(rules.deep_view()),
{
    let mut later: usize = 0;
    while later < rules.len()
        invariant
            later <= rules@.len(),
            forall|i: int, j: int|
                0 <= i < j < later ==> (#[trigger] rules.deep_view()[i]).key != (
                #[trigger] rules.deep_view()[j]).key,
        decreases rules@.len() - later,
    {
        let mut earlier: usize = 0;
        while earlier < later
            invariant
                earlier <= later < rules@.len(),
                forall|i: int|
                    0 <= i < earlier ==> (#[trigger] rules.deep_view()[i]).key
                        != rules.deep_view()[later as int].key,
            decreases later - earlier,
        {
            if same(rules[earlier].key.as_str(), rules[later].key.as_str()) {
                assert(rules.deep_view()[earlier as int].key == rules.deep_view()[later as int].key);
                return false;
            }
            earlier += 1;
        }
        later += 1;
    }
    true
}

/// Tells whether every demanded equality holds of the fields of one kind.
pub fn pairs_hold(
    kind: FieldKind,
    pairs: &Vec<(String, String)>,
    fields: &Vec<(String, String)>,
) -> (verdict: bool)
    ensures
        verdict == all_pairs_hold(kind, pairs.deep_view(), fields.deep_view()),
{
    let mut k: usize = 0;
    while k < pairs.len()
        invariant
            k <= pairs@.len(),
            forall|j: int|
                0 <= j < k ==> pair_holds(
                    kind,
                    #[trigger] pairs.deep_view()[j],
                    fields.deep_view(),
                ),
        decreases pairs@.len() - k,
    {
        if !exact_holds(kind, pairs[k].0.as_str(), pairs[k].1.as_str(), fields) {
            assert(!pair_holds(kind, pairs.deep_view()[k as int], fields.deep_view()));
            return false;
        }
        k += 1;
    }
    true
}

/// Tells whether every rule holds of the fields of one kind.
pub fn rules_hold(
    kind: FieldKind,
    rules: &Vec<RequestMatcherStub>,
    fields: &Vec<(String, String)>,
) -> (verdict: bool)
    ensures
        verdict == all_hold(kind, rules.deep_view(), fields.deep_view()),
{
    let mut k: usize = 0;
    while k < rules.len()
        invariant
            k <= rules@.len(),
            forall|j: int|
                0 <= j < k ==> (#[trigger] rules.deep_view()[j]).holds(kind, fields.deep_view()),
        decreases rules@.len() - k,
    {
        if !rules[k].holds(kind, fields) {
            assert(!rules.deep_view()[k as int].holds(kind, fields.deep_view()));
            return false;
        }
        k += 1;
    }
    true
}

/// The equality of one header with a text.
pub struct HeaderExactMatcher {
    pub name: String,
    pub value: String,
}

impl DeepView for HeaderExactMatcher {
    type V = (Seq<char>, Seq<char>);

    open spec fn deep_view(&self) -> (Seq<char>, Seq<char>) {
        (self.name@, self.value@)
    }
}

impl HeaderExactMatcher {
    /// The matcher that an equality rule gives; any other rule gives none.
    pub fn try_from(header_matcher: &RequestMatcherStub) -> (made: Result<
        HeaderExactMatcher,
        MatcherConstructionError,
    >)
        ensures
            made matches Ok(matcher) ==> header_matcher@.exact_pair() == Some(matcher.deep_view()),
            made matches Err(reason) ==> header_matcher@.exact_pair() is None && reason
                == MatcherConstructionError::NoExactMatcher,
    {
        match header_matcher.equal_to_as_str() {
            Some(exact) => Ok(HeaderExactMatcher { name: header_matcher.key.clone(), value: exact }),
            None => Err(MatcherConstructionError::NoExactMatcher),
        }
    }

    /// Tells whether the request's headers hold this header once, with
    /// this value.
    pub fn matches(&self, headers: &Vec<(String, String)>) -> (verdict: bool)
        ensures
            verdict == pair_holds(FieldKind::Header, self.deep_view(), headers.deep_view()),
    {
        exact_holds(FieldKind::Header, self.name.as_str(), self.value.as_str(), headers)
    }
}

/// The equality of one query parameter with a text.
pub struct QueryParamExactMatcher {
    pub key: String,
    pub value: String,
}

impl DeepView for QueryParamExactMatcher {
    type V = (Seq<char>, Seq<char>);

    open spec fn deep_view(&self) -> (Seq<char>, Seq<char>) {
        (self.key@, self.value@)
    }
}

impl QueryParamExactMatcher {
    /// The matcher that an equality rule gives; any other rule gives none.
    pub fn try_from(query: &RequestMatcherStub) -> (made: Result<
        QueryParamExactMatcher,
        MatcherConstructionError,
    >)
        ensures
            made matches Ok(matcher) ==> query@.exact_pair() == Some(matcher.deep_view()),
            made matches Err(reason) ==> query@.exact_pair() is None && reason
                == MatcherConstructionError::NoExactMatcher,
    {
        match query.equal_to_as_str() {
            Some(equal) => Ok(QueryParamExactMatcher { key: query.key.clone(), value: equal }),
            None => Err(MatcherConstructionError::NoExactMatcher),
        }
    }

    /// Tells whether some parameter of the request's query has this name
    /// and this value.
    pub fn matches(&self, queries: &Vec<(String, String)>) -> (verdict: bool)
        ensures
            verdict == pair_holds(FieldKind::Query, self.deep_view(), queries.deep_view()),
    {
        exact_holds(FieldKind::Query, self.key.as_str(), self.value.as_str(), queries)
    }
}

/// The rules that a stub declares on headers: at most one rule for each
/// name.
pub struct HttpReqHeadersStub {
    headers: Option<Vec<RequestMatcherStub>>,
}

/// The rules that a stub declares on query parameters: at most one rule
/// for each name.
pub struct HttpQueryParamsStub {
    query_parameters: Option<Vec<RequestMatcherStub>>,
}

impl DeepView for HttpReqHeadersStub {
    type V = Option<Seq<FieldRule>>;

    closed spec fn deep_view(&self) -> Option<Seq<FieldRule>> {
        self.headers.deep_view()
    }
}

impl DeepView for HttpQueryParamsStub {
    type V = Option<Seq<FieldRule>>;

    closed spec fn deep_view(&self) -> Option<Seq<FieldRule>> {
        self.query_parameters.deep_view()
    }
}

/// The rules of a declaration, none where nothing is declared.
pub open spec fn declared(rules: Option<Seq<FieldRule>>) -> Seq<FieldRule> {
    match rules {
        Some(list) => list,
        None => Seq::empty(),
    }
}

/// Tells whether the declared rules are on distinct names.
pub fn declares_distinct_keys(rules: &Option<Vec<RequestMatcherStub>>) -> (distinct: bool)
    ensures
        distinct == has_distinct_keys(declared(rules.deep_view())),
{
    match rules {
        Some(list) => keys_are_distinct(list),
        None => true,
    }
}

impl HttpReqHeadersStub {
    /// No two rules are on the same header.
    #[verifier::type_invariant]
    closed spec fn is_map(self) -> bool {
        has_distinct_keys(declared(self.headers.deep_view()))
    }

    /// The stub that declares no rule on headers.
    pub fn none() -> (stub: HttpReqHeadersStub)
        ensures
            stub.deep_view() is None,
    {
        HttpReqHeadersStub { headers: None }
    }

    /// The stub that declares these rules, which are on distinct names.
    pub fn from_distinct(rules: Option<Vec<RequestMatcherStub>>) -> (stub: HttpReqHeadersStub)
        requires
            has_distinct_keys(declared(rules.deep_view())),
        ensures
            stub.deep_view() == rules.deep_view(),
    {
        HttpReqHeadersStub { headers: rules }
    }

    /// The stub that declares these rules. Two rules on one name give an
    /// error.
    pub fn try_new(rules: Option<Vec<RequestMatcherStub>>) -> (made: Result<
        HttpReqHeadersStub,
        MatcherConstructionError,
    >)
        ensures
            if has_distinct_keys(declared(rules.deep_view())) {
                made matches Ok(stub) && stub.deep_view() == rules.deep_view()
            } else {
                made matches Err(reason) && reason == MatcherConstructionError::RepeatedKey
            },
    {
        if declares_distinct_keys(&rules) {
            Ok(HttpReqHeadersStub::from_distinct(rules))
        } else {
            Err(MatcherConstructionError::RepeatedKey)
        }
    }

    /// The declared rules, which are on distinct names.
    pub fn get_headers(&self) -> (rules: Option<&Vec<RequestMatcherStub>>)
        ensures
            rules.deep_view() == self.deep_view(),
            has_distinct_keys(declared(self.deep_view())),
    {
        proof {
            use_type_invariant(self);
        }
        match &self.headers {
            Some(rules) => Some(rules),
            None => None,
        }
    }

    /// The exact matchers of the declared headers, in the order of their
    /// declaration: one for each rule that is an equality with a text. The
    /// other rules are left out. A stub without header rules gives an error.
    pub fn exact_matchers(&self) -> (made: Result<
        Vec<HeaderExactMatcher>,
        MatcherConstructionError,
    >)
        ensures
            made matches Ok(matchers) ==> self.deep_view() matches Some(rules)
                && matchers.deep_view() == exact_pairs(rules),
            made matches Err(reason) ==> self.deep_view() is None && reason
                == MatcherConstructionError::NoFields,
    {
        let rules = match self.get_headers() {
            Some(rules) => rules,
            None => { return Err(MatcherConstructionError::NoFields); },
        };
        let mut matchers: Vec<HeaderExactMatcher> = Vec::new();
        let mut k: usize = 0;
        while k < rules.len()
            invariant
                k <= rules@.len(),
                matchers.deep_view() == exact_upto(rules.deep_view(), k as int),
            decreases rules@.len() - k,
        {
            if rules[k].is_exact_match() {
                match HeaderExactMatcher::try_from(&rules[k]) {
                    Ok(matcher) => matchers.push(matcher),
                    Err(_) => {},
                }
            }
            k += 1;
        }
        Ok(matchers)
    }
}

impl HttpQueryParamsStub {
    /// No two rules are on the same parameter.
    #[verifier::type_invariant]
    closed spec fn is_map(self) -> bool {
        has_distinct_keys(declared(self.query_parameters.deep_view()))
    }

    /// The stub that declares no rule on query parameters.
    pub fn none() -> (stub: HttpQueryParamsStub)
        ensures
            stub.deep_view() is None,
    {
        HttpQueryParamsStub { query_parameters: None }
    }

    /// The stub that declares these rules, which are on distinct names.
    pub fn from_distinct(rules: Option<Vec<RequestMatcherStub>>) -> (stub: HttpQueryParamsStub)
        requires
            has_distinct_keys(declared(rules.deep_view())),
        ensures
            stub.deep_view() == rules.deep_view(),
    {
        HttpQueryParamsStub { query_parameters: rules }
    }

    /// The stub that declares these rules. Two rules on one name give an
    /// error.
    pub fn try_new(rules: Option<Vec<RequestMatcherStub>>) -> (made: Result<
        HttpQueryParamsStub,
        MatcherConstructionError,
    >)
        ensures
            if has_distinct_keys(declared(rules.deep_view())) {
                made matches Ok(stub) && stub.deep_view() == rules.deep_view()
            } else {
                made matches Err(reason) && reason == MatcherConstructionError::RepeatedKey
            },
    {
        if declares_distinct_keys(&rules) {
            Ok(HttpQueryParamsStub::from_distinct(rules))
        } else {
            Err(MatcherConstructionError::RepeatedKey)
        }
    }

    /// The declared rules, which are on distinct names.
    pub fn get_queries(&self) -> (rules: Option<&Vec<RequestMatcherStub>>)
        ensures
            rules.deep_view() == self.deep_view(),
            has_distinct_keys(declared(self.deep_view())),
    {
        proof {
            use_type_invariant(self);
        }
        match &self.query_parameters {
            Some(rules) => Some(rules),
            None => None,
        }
    }

    /// The exact matchers of the declared query parameters, in the order of
    /// their declaration: one for each rule that is an equality with a
    /// text. The other rules are left out. A stub without query rules gives
    /// an error.
    pub fn exact_matchers(&self) -> (made: Result<
        Vec<QueryParamExactMatcher>,
        MatcherConstructionError,
    >)
        ensures
            made matches Ok(matchers) ==> self.deep_view() matches Some(rules)
                && matchers.deep_view() == exact_pairs(rules),
            made matches Err(reason) ==> self.deep_view() is None && reason
                == MatcherConstructionError::NoFields,
    {
        let rules = match self.get_queries() {
            Some(rules) => rules,
            None => { return Err(MatcherConstructionError::NoFields); },
        };
        let mut matchers: Vec<QueryParamExactMatcher> = Vec::new();
        let mut k: usize = 0;
        while k < rules.len()
            invariant
                k <= rules@.len(),
                matchers.deep_view() == exact_upto(rules.deep_view(), k as int),
            decreases rules@.len() - k,
        {
            if rules[k].is_exact_match() {
                match QueryParamExactMatcher::try_from(&rules[k]) {
                    Ok(matcher) => matchers.push(matcher),
                    Err(_) => {},
                }
            }
            k += 1;
        }
        Ok(matchers)
    }

    /// The declared equalities as pairs of a key and a value, none where
    /// nothing is declared.
    pub fn exact_pairs(&self) -> (pairs: Vec<(String, String)>)
        ensures
            pairs.deep_view() == exact_pairs(declared(self.deep_view())),
    {
        match self.get_queries() {
            Some(rules) => collect_exact(rules),
            None => Vec::new(),
        }
    }
}

/// A rule that the exact pass does not cover is among those kept for the
/// second pass.
pub proof fn lemma_residual_rule_is_kept(rules: Seq<FieldRule>, upto: int, at: int)
    requires
        0 <= at < upto <= rules.len(),
        rules[at].is_residual(),
    ensures
        residual_upto(rules, upto).contains(rules[at]),
    decreases upto,
{
    let kept = residual_upto(rules, upto);
    if at == upto - 1 {
        assert(kept[kept.len() - 1] == rules[at]);
    } else {
        lemma_residual_rule_is_kept(rules, upto - 1, at);
        let fewer = residual_upto(rules, upto - 1);
        let k = choose|k: int| 0 <= k < fewer.len() && fewer[k] == rules[at];
        assert(kept[k] == rules[at]);
    }
}

/// A rule that tests for absence holds of a request exactly where the
/// request has no field of that name: a field of that name fails it
/// whatever its value, the empty text included.
pub proof fn lemma_absent_rule_means_no_field(kind: FieldKind, name: Seq<char>, fields: Pairs)
    ensures
        (FieldRule { key: name, value: MatcherView::Absent }).holds(kind, fields) <==> !has_field(
            fields,
            name,
        ),
{
    lemma_value_of_present(fields, name);
}

/// Where every rule is an equality with a text, the exact pass makes as many
/// checks as there are rules, one for each rule and in the rules' order.
pub proof fn lemma_exact_checks_counted(rules: Seq<FieldRule>, upto: int)
    requires
        0 <= upto <= rules.len(),
        forall|k: int| 0 <= k < upto ==> (#[trigger] rules[k]).value is EqualTo,
    ensures
        exact_upto(rules, upto).len() == upto,
        forall|k: int|
            0 <= k < upto ==> #[trigger] exact_upto(rules, upto)[k] == (
                rules[k].key,
                rules[k].value->EqualTo_0,
            ),
    decreases upto,
{
    if upto > 0 {
        lemma_exact_checks_counted(rules, upto - 1);
        assert(rules[upto - 1].value is EqualTo);
    }
}

/// A set of N equalities compiles to exactly N checks, and the request meets
/// the checks exactly when it meets the rules.
pub proof fn lemma_exact_rules_are_conjunction(
    kind: FieldKind,
    rules: Seq<FieldRule>,
    fields: Pairs,
)
    requires
        forall|k: int| 0 <= k < rules.len() ==> (#[trigger] rules[k]).value is EqualTo,
    ensures
        exact_pairs(rules).len() == rules.len(),
        all_pairs_hold(kind, exact_pairs(rules), fields) <==> all_hold(kind, rules, fields),
{
    lemma_exact_checks_counted(rules, rules.len() as int);
    let pairs = exact_pairs(rules);
    if all_pairs_hold(kind, pairs, fields) {
        assert forall|k: int| 0 <= k < rules.len() implies (#[trigger] rules[k]).holds(kind, fields) by {
            assert(pair_holds(kind, pairs[k], fields));
        }
    }
    if all_hold(kind, rules, fields) {
        assert forall|k: int| 0 <= k < pairs.len() implies pair_holds(
            kind, #[trigger] pairs[k],
            fields,
        ) by {
            assert(rules[k].holds(kind, fields));
        }
    }
}

/// What the two passes make of the first `upto` rules says as much as the
/// rules themselves, but for rules that are no comparison, which the passes
/// leave out.
pub proof fn lemma_passes_cover_upto(
    kind: FieldKind,
    rules: Seq<FieldRule>,
    fields: Pairs,
    upto: int,
)
    requires
        0 <= upto <= rules.len(),
    ensures
        (forall|k: int| 0 <= k < upto ==> (#[trigger] rules[k]).holds(kind, fields)) ==> all_pairs_hold(
            kind, exact_upto(rules, upto),
            fields,
        ) && all_hold(kind, residual_upto(rules, upto), fields),
        all_pairs_hold(kind, exact_upto(rules, upto), fields) && all_hold(
            kind, residual_upto(rules, upto),
            fields,
        ) ==> (forall|k: int|
            0 <= k < upto ==> (#[trigger] rules[k]).holds(kind, fields) || rules[k].value
                is Unsupported),
    decreases upto,
{
    if upto > 0 {
        lemma_passes_cover_upto(kind, rules, fields, upto - 1);
        let last = rules[upto - 1];
        let pairs = exact_upto(rules, upto);
        let rest = residual_upto(rules, upto);
        let fewer_pairs = exact_upto(rules, upto - 1);
        let fewer_rest = residual_upto(rules, upto - 1);
        if forall|k: int| 0 <= k < upto ==> (#[trigger] rules[k]).holds(kind, fields) {
            assert(last.holds(kind, fields));
            assert forall|k: int| 0 <= k < pairs.len() implies pair_holds(
                kind, #[trigger] pairs[k],
                fields,
            ) by {
                if k < fewer_pairs.len() {
                    assert(pair_holds(kind, fewer_pairs[k], fields));
                }
            }
            assert forall|k: int| 0 <= k < rest.len() implies (#[trigger] rest[k]).holds(
                kind, fields,
            ) by {
                if k < fewer_rest.len() {
                    assert(fewer_rest[k].holds(kind, fields));
                }
            }
        }
        if all_pairs_hold(kind, pairs, fields) && all_hold(kind, rest, fields) {
            assert forall|k: int| 0 <= k < fewer_pairs.len() implies pair_holds(
                kind, #[trigger] fewer_pairs[k],
                fields,
            ) by {
                assert(pair_holds(kind, pairs[k], fields));
            }
            assert forall|k: int| 0 <= k < fewer_rest.len() implies (#[trigger] fewer_rest[k]).holds(
                kind, fields,
            ) by {
                assert(rest[k].holds(kind, fields));
            }
            if last.value is EqualTo {
                assert(pair_holds(kind, pairs[pairs.len() - 1], fields));
            } else if !(last.value is Unsupported) {
                assert(rest[rest.len() - 1].holds(kind, fields));
            }
        }
    }
}

/// A request that meets the rules meets what the two passes make of them,
/// and where every rule is a comparison the converse holds too.
pub proof fn lemma_passes_cover_rules(kind: FieldKind, rules: Seq<FieldRule>, fields: Pairs)
    ensures
        all_hold(kind, rules, fields) ==> all_pairs_hold(kind, exact_pairs(rules), fields) && all_hold(
            kind, residual_rules(rules),
            fields,
        ),
        (forall|k: int| 0 <= k < rules.len() ==> !((#[trigger] rules[k]).value is Unsupported))
            && all_pairs_hold(kind, exact_pairs(rules), fields) && all_hold(
            kind, residual_rules(rules),
            fields,
        ) ==> all_hold(kind, rules, fields),
{
    lemma_passes_cover_upto(kind, rules, fields, rules.len() as int);
}

/// Past an inserted field, lookups and counts see the fields one place
/// further.
proof fn lemma_lookup_shifted(
    fields: Pairs,
    at: int,
    extra: (Seq<char>, Seq<char>),
    name: Seq<char>,
    from: int,
)
    requires
        0 <= at <= from <= fields.len(),
    ensures
        value_from(fields.insert(at, extra), name, from + 1) == value_from(fields, name, from),
        occurrences_from(fields.insert(at, extra), name, from + 1) == occurrences_from(
            fields,
            name,
            from,
        ),
    decreases fields.len() - from,
{
    if from < fields.len() {
        lemma_lookup_shifted(fields, at, extra, name, from + 1);
    }
}

/// Before an inserted field of another name, lookups and counts see what
/// they saw.
proof fn lemma_lookup_skips(
    fields: Pairs,
    at: int,
    extra: (Seq<char>, Seq<char>),
    name: Seq<char>,
    from: int,
)
    requires
        0 <= from <= at <= fields.len(),
        extra.0 != name,
    ensures
        value_from(fields.insert(at, extra), name, from) == value_from(fields, name, from),
        occurrences_from(fields.insert(at, extra), name, from) == occurrences_from(
            fields,
            name,
            from,
        ),
    decreases at - from,
{
    if from < at {
        lemma_lookup_skips(fields, at, extra, name, from + 1);
    } else {
        lemma_lookup_shifted(fields, at, extra, name, at);
    }
}

/// A field added to a request, at any place, leaves the value and the
/// number of the fields of every other name as they were.
pub proof fn lemma_other_field_keeps_value(
    fields: Pairs,
    at: int,
    extra: (Seq<char>, Seq<char>),
    name: Seq<char>,
)
    requires
        0 <= at <= fields.len(),
        extra.0 != name,
    ensures
        value_of(fields.insert(at, extra), name) == value_of(fields, name),
        occurrences(fields.insert(at, extra), name) == occurrences(fields, name),
{
    lemma_lookup_skips(fields, at, extra, name, 0);
}

/// A field added to a request, at any place, changes no equality on a
/// field of another name.
pub proof fn lemma_other_field_keeps_equality(
    kind: FieldKind,
    fields: Pairs,
    at: int,
    extra: (Seq<char>, Seq<char>),
    pair: (Seq<char>, Seq<char>),
)
    requires
        0 <= at <= fields.len(),
        extra.0 != pair.0,
    ensures
        pair_holds(kind, pair, fields.insert(at, extra)) == pair_holds(kind, pair, fields),
{
    let more = fields.insert(at, extra);
    lemma_other_field_keeps_value(fields, at, extra, pair.0);
    if fields.contains(pair) {
        let k = choose|k: int| 0 <= k < fields.len() && fields[k] == pair;
        if k < at {
            assert(more[k] == pair);
        } else {
            assert(more[k + 1] == pair);
        }
    }
    if more.contains(pair) {
        let k = choose|k: int| 0 <= k < more.len() && more[k] == pair;
        if k < at {
            assert(fields[k] == pair);
        } else {
            assert(k != at);
            assert(fields[k - 1] == pair);
        }
    }
}

/// A field added to a request under a name that no rule speaks of changes
/// the verdict of no rule, and so not that of their conjunction, nor that of
/// the exact checks compiled from them.
pub proof fn lemma_unrelated_field_is_ignored(
    kind: FieldKind,
    rules: Seq<FieldRule>,
    fields: Pairs,
    at: int,
    extra: (Seq<char>, Seq<char>),
)
    requires
        0 <= at <= fields.len(),
        forall|k: int| 0 <= k < rules.len() ==> (#[trigger] rules[k]).key != extra.0,
    ensures
        forall|k: int|
            0 <= k < rules.len() ==> (#[trigger] rules[k]).holds(kind, fields.insert(at, extra))
                == rules[k].holds(kind, fields),
        all_hold(kind, rules, fields.insert(at, extra)) == all_hold(kind, rules, fields),
{
    assert forall|k: int| 0 <= k < rules.len() implies (#[trigger] rules[k]).holds(
        kind,
        fields.insert(at, extra),
    ) == rules[k].holds(kind, fields) by {
        lemma_other_field_keeps_value(fields, at, extra, rules[k].key);
        if let Some(text) = rules[k].value.equal_to() {
            lemma_other_field_keeps_equality(kind, fields, at, extra, (rules[k].key, text));
        }
    }
}

} // verus!
