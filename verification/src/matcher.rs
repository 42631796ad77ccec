//! One comparison rule against one observed value.

use vstd::prelude::*;

use crate::json::{deep_equal, equals, is_json, is_valid};
use crate::pattern::{is_full_match, matches_whole};
use crate::text::{contains, same, text_contains};

verus! {

/// One node of a JSON value.
pub struct Node {
    /// The node as JSON text.
    pub json: String,
    /// The node as a plain value: the content of a string node, the JSON
    /// text of any other node.
    pub text: String,
}

/// A node as contracts see it.
pub struct NodeView {
    pub json: Seq<char>,
    pub text: Seq<char>,
}

impl DeepView for Node {
    type V = NodeView;

    open spec fn deep_view(&self) -> NodeView {
        NodeView { json: self.json@, text: self.text@ }
    }
}

/// The nodes that a JSONPath expression yields on an observed JSON value.
/// Whoever observes the value evaluates the expressions that the stub
/// declares and lists what they yield.
pub struct Selection {
    pub expression: String,
    pub nodes: Vec<Node>,
}

/// A selection as contracts see it.
pub struct SelectionView {
    pub expression: Seq<char>,
    pub nodes: Seq<NodeView>,
}

impl View for Selection {
    type V = SelectionView;

    open spec fn view(&self) -> SelectionView {
        SelectionView { expression: self.expression@, nodes: self.nodes.deep_view() }
    }
}

impl DeepView for Selection {
    type V = SelectionView;

    open spec fn deep_view(&self) -> SelectionView {
        self@
    }
}

/// The nodes listed for `expression` from position `from` on: those of the
/// first selection that carries it.
pub open spec fn nodes_from(
    selections: Seq<SelectionView>,
    expression: Seq<char>,
    from: int,
) -> Option<Seq<NodeView>>
    decreases selections.len() - from,
{
    if from < 0 || from >= selections.len() {
        None
    } else if selections[from].expression == expression {
        Some(selections[from].nodes)
    } else {
        nodes_from(selections, expression, from + 1)
    }
}

/// The nodes listed for `expression`, if any selection carries it.
pub open spec fn nodes_of(selections: Seq<SelectionView>, expression: Seq<char>) -> Option<
    Seq<NodeView>,
> {
    nodes_from(selections, expression, 0)
}

/// Finds the selection that carries `expression`.
pub fn find_nodes<'a>(selections: &'a Vec<Selection>, expression: &str) -> (found: Option<
    &'a Vec<Node>,
>)
    ensures
        found.deep_view() == nodes_of(selections.deep_view(), expression@),
{
    let mut k: usize = 0;
    while k < selections.len()
        invariant
            k <= selections@.len(),
            nodes_of(selections.deep_view(), expression@) == nodes_from(
                selections.deep_view(),
                expression@,
                k as int,
            ),
        decreases selections@.len() - k,
    {
        if same(selections[k].expression.as_str(), expression) {
            return Some(&selections[k].nodes);
        }
        k += 1;
    }
    None
}

/// A comparison rule. The kinds are closed: a payload that is none of them is
/// `Unsupported` and never becomes another kind.
pub enum MatcherValue {
    /// The observed value is this text, byte for byte.
    EqualTo(String),
    /// The observed value holds this text.
    Contains(String),
    /// The whole observed value matches this regular expression.
    Matches(String),
    /// There is no observed value.
    Absent,
    /// There is an observed value, whatever it is.
    Present,
    /// The observed value is JSON and holds the same value as this JSON text.
    EqualToJson(String),
    /// The observed value is JSON, the expression yields a node on it and,
    /// where a rule is given, some node meets it.
    MatchesJsonPath { expression: String, sub: Option<Box<MatcherValue>> },
    /// A payload that could not be read as a comparison.
    Unsupported,
}

/// A rule as contracts see it.
pub enum MatcherView {
    EqualTo(Seq<char>),
    Contains(Seq<char>),
    Matches(Seq<char>),
    Absent,
    Present,
    EqualToJson(Seq<char>),
    MatchesJsonPath { expression: Seq<char>, sub: Option<Box<MatcherView>> },
    Unsupported,
}

impl MatcherValue {
    /// The rule with its texts as sequences of characters.
    pub open spec fn model(&self) -> MatcherView
        decreases self,
    {
        match self {
            MatcherValue::EqualTo(text) => MatcherView::EqualTo(text@),
            MatcherValue::Contains(text) => MatcherView::Contains(text@),
            MatcherValue::Matches(pattern) => MatcherView::Matches(pattern@),
            MatcherValue::Absent => MatcherView::Absent,
            MatcherValue::Present => MatcherView::Present,
            MatcherValue::EqualToJson(text) => MatcherView::EqualToJson(text@),
            MatcherValue::MatchesJsonPath { expression, sub } => MatcherView::MatchesJsonPath {
                expression: expression@,
                sub: match sub {
                    Some(rule) => Some(Box::new(rule.model())),
                    None => None,
                },
            },
            MatcherValue::Unsupported => MatcherView::Unsupported,
        }
    }
}

impl View for MatcherValue {
    type V = MatcherView;

    open spec fn view(&self) -> MatcherView {
        self.model()
    }
}

impl DeepView for MatcherValue {
    type V = MatcherView;

    open spec fn deep_view(&self) -> MatcherView {
        self@
    }
}

impl MatcherView {
    /// Whether the rule holds of `observed` by itself: a rule on JSONPath
    /// needs selections and holds of no value without them.
    pub open spec fn accepts_plain(self, observed: Option<Seq<char>>) -> bool {
        match self {
            MatcherView::EqualTo(text) => observed == Some(text),
            MatcherView::Contains(text) => observed matches Some(value) && text_contains(
                value,
                text,
            ),
            MatcherView::Matches(pattern) => observed matches Some(value) && matches_whole(
                pattern,
                value,
            ),
            MatcherView::Absent => observed is None,
            MatcherView::Present => observed is Some,
            MatcherView::EqualToJson(text) => observed matches Some(value) && deep_equal(
                value,
                text,
            ),
            MatcherView::MatchesJsonPath { .. } => false,
            MatcherView::Unsupported => false,
        }
    }

    /// Whether the rule holds of one node of a JSON value: a comparison of
    /// JSON values looks at the node's JSON text, any other rule at its
    /// plain value.
    pub open spec fn accepts_node(self, node: NodeView) -> bool {
        match self {
            MatcherView::EqualToJson(text) => deep_equal(node.json, text),
            _ => self.accepts_plain(Some(node.text)),
        }
    }

    /// Some node meets the rule.
    pub open spec fn accepts_some(self, nodes: Seq<NodeView>) -> bool {
        exists|k: int| 0 <= k < nodes.len() && #[trigger] self.accepts_node(nodes[k])
    }

    /// Whether the rule holds of `observed`, the value of one field of a
    /// request (`None` where the request has no such field), given the
    /// JSONPath selections made on that value. A rule on the nodes of a
    /// JSONPath is applied to each node by itself.
    pub open spec fn accepts(
        self,
        observed: Option<Seq<char>>,
        selections: Seq<SelectionView>,
    ) -> bool {
        match self {
            MatcherView::MatchesJsonPath { expression, sub } => match (
                observed,
                nodes_of(selections, expression),
            ) {
                (Some(value), Some(nodes)) => is_json(value) && nodes.len() > 0 && match sub {
                    Some(rule) => rule.accepts_some(nodes),
                    None => true,
                },
                _ => false,
            },
            _ => self.accepts_plain(observed),
        }
    }

    /// An exact rule is one that a plain comparison or a test for absence
    /// or presence settles; every other rule is a pattern.
    pub open spec fn is_exact(self) -> bool {
        self is EqualTo || self is Absent || self is Present
    }

    /// The text that an equality rule compares with.
    pub open spec fn equal_to(self) -> Option<Seq<char>> {
        match self {
            MatcherView::EqualTo(text) => Some(text),
            _ => None,
        }
    }
}

impl MatcherValue {
    /// Evaluates the rule on `observed` by itself.
    pub fn evaluate_plain(&self, observed: Option<&str>) -> (verdict: bool)
        ensures
            verdict == self@.accepts_plain(observed.deep_view()),
    {
        match self {
            MatcherValue::EqualTo(text) => match observed {
                Some(value) => same(value, text.as_str()),
                None => false,
            },
            MatcherValue::Contains(text) => match observed {
                Some(value) => contains(value, text.as_str()),
                None => false,
            },
            MatcherValue::Matches(pattern) => match observed {
                Some(value) => is_full_match(pattern.as_str(), value),
                None => false,
            },
            MatcherValue::Absent => observed.is_none(),
            MatcherValue::Present => observed.is_some(),
            MatcherValue::EqualToJson(text) => match observed {
                Some(value) => equals(value, text.as_str()),
                None => false,
            },
            MatcherValue::MatchesJsonPath { .. } => false,
            MatcherValue::Unsupported => false,
        }
    }

    /// Evaluates the rule on one node of a JSON value.
    pub fn evaluate_node(&self, node: &Node) -> (verdict: bool)
        ensures
            verdict == self@.accepts_node(node.deep_view()),
    {
        match self {
            MatcherValue::EqualToJson(text) => equals(node.json.as_str(), text.as_str()),
            _ => self.evaluate_plain(Some(node.text.as_str())),
        }
    }

    /// Tells whether some node meets the rule.
    pub fn some_node_meets(&self, nodes: &Vec<Node>) -> (met: bool)
        ensures
            met == self@.accepts_some(nodes.deep_view()),
    {
        let mut k: usize = 0;
        while k < nodes.len()
            invariant
                k <= nodes@.len(),
                forall|j: int| 0 <= j < k ==> !#[trigger] self@.accepts_node(nodes.deep_view()[j]),
            decreases nodes@.len() - k,
        {
            if self.evaluate_node(&nodes[k]) {
                assert(self@.accepts_node(nodes.deep_view()[k as int]));
                return true;
            }
            k += 1;
        }
        false
    }

    /// Evaluates the rule. Every rule gives a verdict on every input: a text
    /// that is not JSON, a pattern that is no regular expression and a
    /// payload that is no comparison all give `false`.
    pub fn evaluate(&self, observed: Option<&str>, selections: &Vec<Selection>) -> (verdict: bool)
        ensures
            verdict == self@.accepts(observed.deep_view(), selections.deep_view()),
    {
        match self {
            MatcherValue::MatchesJsonPath { expression, sub } => {
                let value = match observed {
                    Some(value) => value,
                    None => { return false; },
                };
                let nodes = match find_nodes(selections, expression.as_str()) {
                    Some(nodes) => nodes,
                    None => { return false; },
                };
                if !is_valid(value) || nodes.len() == 0 {
                    return false;
                }
                match sub {
                    None => true,
                    Some(rule) => rule.some_node_meets(nodes),
                }
            },
            _ => self.evaluate_plain(observed),
        }
    }

    /// A copy of the rule.
    pub fn duplicate(&self) -> (copy: MatcherValue)
        ensures
            copy@ == self@,
        decreases self,
    {
        match self {
            MatcherValue::EqualTo(text) => MatcherValue::EqualTo(text.clone()),
            MatcherValue::Contains(text) => MatcherValue::Contains(text.clone()),
            MatcherValue::Matches(pattern) => MatcherValue::Matches(pattern.clone()),
            MatcherValue::Absent => MatcherValue::Absent,
            MatcherValue::Present => MatcherValue::Present,
            MatcherValue::EqualToJson(text) => MatcherValue::EqualToJson(text.clone()),
            MatcherValue::MatchesJsonPath { expression, sub } => MatcherValue::MatchesJsonPath {
                expression: expression.clone(),
                sub: match sub {
                    Some(rule) => Some(Box::new(rule.duplicate())),
                    None => None,
                },
            },
            MatcherValue::Unsupported => MatcherValue::Unsupported,
        }
    }

    /// Tells whether the rule is exact.
    pub fn is_exact(&self) -> (exact: bool)
        ensures
            exact == self@.is_exact(),
    {
        match self {
            MatcherValue::EqualTo(_) => true,
            MatcherValue::Absent => true,
            MatcherValue::Present => true,
            _ => false,
        }
    }

    /// The text that an equality rule compares with.
    pub fn equal_to_as_str(&self) -> (text: Option<String>)
        ensures
            text.deep_view() == self@.equal_to(),
    {
        match self {
            MatcherValue::EqualTo(text) => Some(text.clone()),
            _ => None,
        }
    }
}

/// A value of a rule's payload as the document holds it.
pub enum Scalar {
    /// A JSON string, by its content.
    Text(String),
    /// Any other JSON value, by its JSON text.
    Other(String),
}

/// A payload value as contracts see it.
pub enum ScalarView {
    Text(Seq<char>),
    Other(Seq<char>),
}

impl DeepView for Scalar {
    type V = ScalarView;

    open spec fn deep_view(&self) -> ScalarView {
        match self {
            Scalar::Text(text) => ScalarView::Text(text@),
            Scalar::Other(json) => ScalarView::Other(json@),
        }
    }
}

/// The payload of a rule on the nodes of a JSONPath.
pub struct JsonPathStub {
    pub expression: String,
    pub sub: Option<Box<MatcherValueStub>>,
}

/// The payload of a rule as the document declares it: one entry per kind,
/// each of which may be missing.
pub struct MatcherValueStub {
    pub equal_to: Option<Scalar>,
    pub contains: Option<Scalar>,
    pub matches: Option<Scalar>,
    pub absent: Option<bool>,
    pub equal_to_json: Option<String>,
    pub matches_json_path: Option<JsonPathStub>,
}

/// The payload of a rule on a JSONPath as contracts see it.
pub struct JsonPathStubView {
    pub expression: Seq<char>,
    pub sub: Option<Box<MatcherStubView>>,
}

/// The payload of a rule as contracts see it.
pub struct MatcherStubView {
    pub equal_to: Option<ScalarView>,
    pub contains: Option<ScalarView>,
    pub matches: Option<ScalarView>,
    pub absent: Option<bool>,
    pub equal_to_json: Option<Seq<char>>,
    pub matches_json_path: Option<JsonPathStubView>,
}

impl MatcherValueStub {
    /// The payload with its texts as sequences of characters.
    pub open spec fn model(&self) -> MatcherStubView
        decreases self,
    {
        MatcherStubView {
            equal_to: self.equal_to.deep_view(),
            contains: self.contains.deep_view(),
            matches: self.matches.deep_view(),
            absent: self.absent,
            equal_to_json: self.equal_to_json.deep_view(),
            matches_json_path: match self.matches_json_path {
                Some(path) => Some(
                    JsonPathStubView {
                        expression: path.expression@,
                        sub: match path.sub {
                            Some(inner) => Some(Box::new(inner.model())),
                            None => None,
                        },
                    },
                ),
                None => None,
            },
        }
    }
}

impl View for MatcherValueStub {
    type V = MatcherStubView;

    open spec fn view(&self) -> MatcherStubView {
        self.model()
    }
}

/// 1 for an entry that is there, 0 for one that is missing.
pub open spec fn counted<T>(entry: Option<T>) -> int {
    if entry is Some {
        1
    } else {
        0
    }
}

impl MatcherStubView {
    /// How many kinds the payload declares.
    pub open spec fn declared_kinds(self) -> int {
        counted(self.equal_to) + counted(self.contains) + counted(self.matches) + counted(
            self.absent,
        ) + counted(self.equal_to_json) + counted(self.matches_json_path)
    }

    /// The rule that the payload stands for. A payload stands for a rule
    /// where it declares exactly one kind and holds what that kind compares
    /// with: a text for an equality, a containment or a pattern. An absence
    /// that is declared `false` demands presence. Any other payload is
    /// unsupported; none is read as another kind.
    pub open spec fn rule(self) -> MatcherView
        decreases self,
    {
        if self.declared_kinds() != 1 {
            MatcherView::Unsupported
        } else if let Some(ScalarView::Text(text)) = self.equal_to {
            MatcherView::EqualTo(text)
        } else if let Some(ScalarView::Text(text)) = self.contains {
            MatcherView::Contains(text)
        } else if let Some(ScalarView::Text(pattern)) = self.matches {
            MatcherView::Matches(pattern)
        } else if let Some(absent) = self.absent {
            if absent {
                MatcherView::Absent
            } else {
                MatcherView::Present
            }
        } else if let Some(text) = self.equal_to_json {
            MatcherView::EqualToJson(text)
        } else if let Some(path) = self.matches_json_path {
            MatcherView::MatchesJsonPath {
                expression: path.expression,
                sub: match path.sub {
                    Some(inner) => Some(Box::new(inner.rule())),
                    None => None,
                },
            }
        } else {
            MatcherView::Unsupported
        }
    }
}

impl MatcherValueStub {
    /// Tells whether the payload declares exactly one kind.
    pub fn declares_one_kind(&self) -> (one: bool)
        ensures
            one == (self@.declared_kinds() == 1),
    {
        let mut kinds: u8 = 0;
        if self.equal_to.is_some() {
            kinds += 1;
        }
        if self.contains.is_some() {
            kinds += 1;
        }
        if self.matches.is_some() {
            kinds += 1;
        }
        if self.absent.is_some() {
            kinds += 1;
        }
        if self.equal_to_json.is_some() {
            kinds += 1;
        }
        if self.matches_json_path.is_some() {
            kinds += 1;
        }
        kinds == 1
    }
}

/// Why a declared rule gave no matcher.
#[derive(Debug, Clone, Copy, PartialEq, Eq, Structural)]
pub enum MatcherConstructionError {
    /// The document declares no rule on fields of this kind.
    NoFields,
    /// The rule is no comparison with a text.
    NoExactMatcher,
    /// The payload is no comparison at all.
    Unsupported,
    /// Two rules are declared on one name.
    RepeatedKey,
}

impl MatcherValue {
    /// Reads the payload of a rule and refuses one that is no comparison.
    pub fn try_from_stub(stub: &MatcherValueStub) -> (made: Result<
        MatcherValue,
        MatcherConstructionError,
    >)
        ensures
            match stub@.rule() {
                MatcherView::Unsupported => made matches Err(reason) && reason
                    == MatcherConstructionError::Unsupported,
                rule => made matches Ok(read) && read@ == rule,
            },
    {
        match MatcherValue::from_stub(stub) {
            MatcherValue::Unsupported => Err(MatcherConstructionError::Unsupported),
            rule => Ok(rule),
        }
    }

    /// Reads the payload of a rule.
    pub fn from_stub(stub: &MatcherValueStub) -> (rule: MatcherValue)
        ensures
            rule@ == stub@.rule(),
        decreases stub,
    {
        if !stub.declares_one_kind() {
            MatcherValue::Unsupported
        } else if let Some(Scalar::Text(text)) = &stub.equal_to {
            MatcherValue::EqualTo(text.clone())
        } else if let Some(Scalar::Text(text)) = &stub.contains {
            MatcherValue::Contains(text.clone())
        } else if let Some(Scalar::Text(pattern)) = &stub.matches {
            MatcherValue::Matches(pattern.clone())
        } else if let Some(absent) = stub.absent {
            if absent {
                MatcherValue::Absent
            } else {
                MatcherValue::Present
            }
        } else if let Some(text) = &stub.equal_to_json {
            MatcherValue::EqualToJson(text.clone())
        } else if let Some(path) = &stub.matches_json_path {
            MatcherValue::MatchesJsonPath {
                expression: path.expression.clone(),
                sub: match &path.sub {
                    Some(inner) => Some(Box::new(MatcherValue::from_stub(inner))),
                    None => None,
                },
            }
        } else {
            MatcherValue::Unsupported
        }
    }
}

/// A rule that tests for absence holds exactly of a field that is not there:
/// a field that is there fails it whatever its value, the empty text
/// included.
pub proof fn lemma_absent_means_missing(
    observed: Option<Seq<char>>,
    selections: Seq<SelectionView>,
)
    ensures
        MatcherView::Absent.accepts(observed, selections) <==> observed is None,
        !MatcherView::Absent.accepts(Some(Seq::empty()), selections),
{
}

/// A rule that tests for presence holds exactly of a field that is there,
/// whatever its value.
pub proof fn lemma_present_means_there(
    observed: Option<Seq<char>>,
    selections: Seq<SelectionView>,
)
    ensures
        MatcherView::Present.accepts(observed, selections) <==> observed is Some,
        MatcherView::Present.accepts(observed, selections) <==> !MatcherView::Absent.accepts(
            observed,
            selections,
        ),
{
}

/// No rule but the test for absence holds of a field that is not there.
pub proof fn lemma_missing_value_meets_only_absent(
    rule: MatcherView,
    selections: Seq<SelectionView>,
)
    ensures
        rule.accepts(None, selections) <==> rule is Absent,
{
}

} // verus!
