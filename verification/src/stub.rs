//! Stub documents: compiling one, and ordering many for registration.

use vstd::prelude::*;
use vstd::set_lib::{lemma_int_range, lemma_len_subset, lemma_subset_equality, set_int_range};

use crate::fields::{has_field, FieldKind};
use crate::request::{all_met, ConstraintView, MockBuilder, ObservedRequest, RequestView};
use crate::request_stub::{
    absence_of, lemma_absent_rule_decides, CompileError, RequestStub, RequestStubView,
};
use crate::response::{Reply, ResponseStub, ResponseStubView};

verus! {

/// The configuration of the server that the stubs are compiled for.
#[derive(Debug, Default, Clone, Copy)]
pub struct Config {
    /// The port to listen on; a free one where none is given.
    pub port: Option<u16>,
    /// Whether to report each stub that is mounted.
    pub verbose: Option<bool>,
}

/// A stub document: which requests it answers, and with what.
pub struct JsonStub {
    pub id: Option<String>,
    pub uuid: Option<String>,
    /// The lower the number, the earlier the stub is asked. A stub without
    /// one is asked after all those that have one.
    pub priority: Option<u32>,
    pub request: RequestStub,
    pub response: ResponseStub,
}

/// A stub document as contracts see it.
pub struct JsonStubView {
    pub id: Option<Seq<char>>,
    pub uuid: Option<Seq<char>>,
    pub priority: Option<u32>,
    pub request: RequestStubView,
    pub response: ResponseStubView,
}

impl View for JsonStub {
    type V = JsonStubView;

    open spec fn view(&self) -> JsonStubView {
        JsonStubView {
            id: self.id.deep_view(),
            uuid: self.uuid.deep_view(),
            priority: self.priority,
            request: self.request@,
            response: self.response@,
        }
    }
}

impl DeepView for JsonStub {
    type V = JsonStubView;

    open spec fn deep_view(&self) -> JsonStubView {
        self@
    }
}

/// The runtime form of a stub: a predicate on requests and the response to
/// render for those that meet it.
pub struct CompiledMock {
    pub predicate: MockBuilder,
    pub response: ResponseStub,
}

/// A compiled stub as contracts see it.
pub struct CompiledMockView {
    pub conditions: Seq<ConstraintView>,
    pub response: ResponseStubView,
}

impl View for CompiledMock {
    type V = CompiledMockView;

    open spec fn view(&self) -> CompiledMockView {
        CompiledMockView { conditions: self.predicate.deep_view(), response: self.response@ }
    }
}

impl CompiledMockView {
    /// The request meets every condition of the stub.
    pub open spec fn matches(self, request: RequestView) -> bool {
        all_met(self.conditions, request)
    }
}

impl JsonStubView {
    /// What the document compiles to.
    pub open spec fn compiled(self) -> Result<CompiledMockView, CompileError> {
        match self.request.compiled() {
            Ok(conditions) => Ok(CompiledMockView { conditions, response: self.response }),
            Err(reason) => Err(reason),
        }
    }
}

impl CompiledMock {
    /// Tells whether the stub answers the request.
    pub fn matches(&self, req: &ObservedRequest) -> (verdict: bool)
        ensures
            verdict == self@.matches(req@),
    {
        self.predicate.matches(req)
    }

    /// The response for a request that the stub answers.
    pub fn respond(&self) -> (reply: Reply)
        ensures
            reply@ == self@.response.rendering().reply(),
    {
        self.response.render().into_reply()
    }
}

impl JsonStub {
    /// Compiles the document. What it compiles to depends on the document
    /// alone; a document that names neither a method nor a URL, or whose
    /// exact URL is no URL, gives an error.
    pub fn try_creating_from(&self, config: &Config) -> (made: Result<CompiledMock, CompileError>)
        ensures
            match self@.compiled() {
                Ok(mock) => made matches Ok(found) && found@ == mock,
                Err(reason) => made matches Err(given) && given == reason,
            },
    {
        match MockBuilder::try_from(&self.request) {
            Ok(predicate) => Ok(CompiledMock { predicate, response: self.response.duplicate() }),
            Err(reason) => Err(reason),
        }
    }
}

/// The place of a priority in the order of registration: an explicit one
/// stands by its number, a missing one behind every number.
pub open spec fn rank(priority: Option<u32>) -> int {
    match priority {
        Some(number) => number as int,
        None => u32::MAX + 1,
    }
}

/// The stub found at `first` is registered before the one found at
/// `second`: it has the lower rank or, at equal rank, was found earlier.
pub open spec fn registers_before(priorities: Seq<Option<u32>>, first: int, second: int) -> bool {
    rank(priorities[first]) < rank(priorities[second]) || (rank(priorities[first]) == rank(
        priorities[second],
    ) && first < second)
}

/// `order` lists places among the first `found` stubs, each before all that
/// it is registered before.
pub open spec fn is_ordered(priorities: Seq<Option<u32>>, order: Seq<usize>, found: int) -> bool {
    &&& forall|k: int| 0 <= k < order.len() ==> 0 <= #[trigger] order[k] < found
    &&& forall|a: int, b: int|
        0 <= a < b < order.len() ==> registers_before(
            priorities,
            #[trigger] order[a] as int,
            #[trigger] order[b] as int,
        )
}

/// `order` is the order of registration of the stubs with these priorities:
/// it lists every place once, ascending by priority, stubs of equal priority
/// in the order in which they were found.
pub open spec fn is_registration_order(priorities: Seq<Option<u32>>, order: Seq<usize>) -> bool {
    order.len() == priorities.len() && is_ordered(priorities, order, priorities.len() as int)
}

/// `order` lists `place`.
pub open spec fn lists(order: Seq<usize>, place: int) -> bool {
    exists|k: int| 0 <= k < order.len() && #[trigger] order[k] == place
}

/// An order of registration lists every place.
pub proof fn lemma_order_lists_every_place(priorities: Seq<Option<u32>>, order: Seq<usize>)
    requires
        is_registration_order(priorities, order),
    ensures
        forall|place: int| 0 <= place < priorities.len() ==> #[trigger] lists(order, place),
{
    let places = order.map_values(|place: usize| place as int);
    let range = set_int_range(0, priorities.len() as int);
    assert forall|i: int, j: int|
        0 <= i < places.len() && 0 <= j < places.len() && i != j implies places[i]
        != places[j] by {
        if i < j {
            assert(registers_before(priorities, order[i] as int, order[j] as int));
        } else {
            assert(registers_before(priorities, order[j] as int, order[i] as int));
        }
    }
    places.unique_seq_to_set();
    lemma_int_range(0, priorities.len() as int);
    assert forall|place: int| places.to_set().contains(place) implies range.contains(place) by {
        let k = choose|k: int| 0 <= k < places.len() && places[k] == place;
        assert(0 <= order[k] < priorities.len());
    }
    lemma_len_subset(places.to_set(), range);
    lemma_subset_equality(places.to_set(), range);
    assert forall|place: int| 0 <= place < priorities.len() implies #[trigger] lists(
        order,
        place,
    ) by {
        assert(range.contains(place));
        assert(places.contains(place));
        let k = choose|k: int| 0 <= k < places.len() && places[k] == place;
        assert(order[k] == place);
    }
}

/// Two orders of registration of the same stubs agree on their first `upto`
/// places.
pub proof fn lemma_orders_agree_upto(
    priorities: Seq<Option<u32>>,
    first: Seq<usize>,
    second: Seq<usize>,
    upto: int,
)
    requires
        is_registration_order(priorities, first),
        is_registration_order(priorities, second),
        0 <= upto <= priorities.len(),
    ensures
        forall|k: int| 0 <= k < upto ==> first[k] == second[k],
    decreases upto,
{
    if upto > 0 {
        lemma_orders_agree_upto(priorities, first, second, upto - 1);
        let at = upto - 1;
        lemma_order_lists_every_place(priorities, first);
        lemma_order_lists_every_place(priorities, second);
        assert(lists(second, first[at] as int));
        assert(lists(first, second[at] as int));
        let there = choose|k: int| 0 <= k < second.len() && #[trigger] second[k] == first[at];
        let here = choose|k: int| 0 <= k < first.len() && #[trigger] first[k] == second[at];
        if there < at {
            assert(registers_before(priorities, first[there] as int, first[at] as int));
        }
        if here < at {
            assert(registers_before(priorities, second[here] as int, second[at] as int));
        }
        if there > at && here > at {
            assert(registers_before(priorities, second[at] as int, second[there] as int));
            assert(registers_before(priorities, first[at] as int, first[here] as int));
        }
    }
}

/// The stubs with given priorities have one order of registration only.
pub proof fn lemma_registration_order_is_unique(
    priorities: Seq<Option<u32>>,
    first: Seq<usize>,
    second: Seq<usize>,
)
    requires
        is_registration_order(priorities, first),
        is_registration_order(priorities, second),
    ensures
        first == second,
{
    lemma_orders_agree_upto(priorities, first, second, priorities.len() as int);
}

/// In the order of registration no stub stands behind one of higher rank,
/// and a stub without priority stands behind every stub that has one.
pub proof fn lemma_order_ascends(priorities: Seq<Option<u32>>, order: Seq<usize>)
    requires
        is_registration_order(priorities, order),
    ensures
        forall|a: int, b: int|
            0 <= a < b < order.len() ==> rank(priorities[#[trigger] order[a] as int]) <= rank(
                priorities[#[trigger] order[b] as int],
            ),
        forall|a: int, b: int|
            0 <= a < order.len() && 0 <= b < order.len() && priorities[#[trigger] order[a] as int]
                is Some && priorities[#[trigger] order[b] as int] is None ==> a < b,
{
    assert forall|a: int, b: int|
        0 <= a < b < order.len() implies rank(priorities[#[trigger] order[a] as int]) <= rank(
        priorities[#[trigger] order[b] as int],
    ) by {
        assert(registers_before(priorities, order[a] as int, order[b] as int));
    }
    assert forall|a: int, b: int|
        0 <= a < order.len() && 0 <= b < order.len() && priorities[#[trigger] order[a] as int]
            is Some && priorities[#[trigger] order[b] as int] is None implies a < b by {
        if b < a {
            assert(registers_before(priorities, order[b] as int, order[a] as int));
        }
    }
}

/// Tells whether a stub of priority `first` goes strictly behind one of
/// priority `second`.
pub fn ranks_behind(first: Option<u32>, second: Option<u32>) -> (behind: bool)
    ensures
        behind == (rank(first) > rank(second)),
{
    match (first, second) {
        (Some(one), Some(other)) => one > other,
        (None, Some(_)) => true,
        (_, None) => false,
    }
}

/// The order in which stubs with these priorities are registered.
pub fn registration_order(priorities: &Vec<Option<u32>>) -> (order: Vec<usize>)
    ensures
        is_registration_order(priorities@, order@),
{
    let mut order: Vec<usize> = Vec::new();
    let mut found: usize = 0;
    while found < priorities.len()
        invariant
            found <= priorities@.len(),
            order@.len() == found,
            is_ordered(priorities@, order@, found as int),
        decreases priorities@.len() - found,
    {
        let mut place: usize = 0;
        while place < order.len() && !ranks_behind(priorities[order[place]], priorities[found])
            invariant
                found < priorities@.len(),
                place <= order@.len() == found,
                is_ordered(priorities@, order@, found as int),
                forall|k: int|
                    0 <= k < place ==> rank(priorities@[#[trigger] order@[k] as int]) <= rank(
                        priorities@[found as int],
                    ),
            decreases order@.len() - place,
        {
            place += 1;
        }
        let ghost before = order@;
        order.insert(place, found);
        proof {
            let after = order@;
            assert forall|a: int, b: int| 0 <= a < b < after.len() implies registers_before(
                priorities@,
                #[trigger] after[a] as int,
                #[trigger] after[b] as int,
            ) by {
                if b < place {
                    assert(after[a] == before[a] && after[b] == before[b]);
                } else if b == place {
                    assert(after[a] == before[a]);
                } else if a < place {
                    assert(after[a] == before[a] && after[b] == before[b - 1]);
                } else if a == place {
                    assert(after[b] == before[b - 1]);
                    if place < b - 1 {
                        assert(registers_before(
                            priorities@,
                            before[place as int] as int,
                            before[b - 1] as int,
                        ));
                    }
                } else {
                    assert(after[a] == before[a - 1] && after[b] == before[b - 1]);
                }
            }
            assert forall|k: int| 0 <= k < after.len() implies 0 <= #[trigger] after[k] < found
                + 1 by {
                if k < place {
                    assert(after[k] == before[k]);
                } else if k > place {
                    assert(after[k] == before[k - 1]);
                }
            }
        }
        found += 1;
    }
    order
}

/// The priorities of the documents, in the order in which they were found.
pub open spec fn priorities(stubs: Seq<JsonStubView>) -> Seq<Option<u32>> {
    stubs.map_values(|stub: JsonStubView| stub.priority)
}

/// Lists the priorities of the documents.
pub fn priorities_of(stubs: &Vec<JsonStub>) -> (listed: Vec<Option<u32>>)
    ensures
        listed@ == priorities(stubs.deep_view()),
{
    let mut listed: Vec<Option<u32>> = Vec::new();
    let mut k: usize = 0;
    while k < stubs.len()
        invariant
            k <= stubs@.len(),
            listed@.len() == k,
            forall|j: int| 0 <= j < k ==> #[trigger] listed@[j] == stubs@[j].priority,
        decreases stubs@.len() - k,
    {
        listed.push(stubs[k].priority);
        k += 1;
    }
    listed
}

/// A compiled stub together with the place at which its document was found.
pub struct Mounted {
    pub place: usize,
    pub mock: CompiledMock,
}

impl DeepView for Mounted {
    type V = (usize, CompiledMockView);

    open spec fn deep_view(&self) -> (usize, CompiledMockView) {
        (self.place, self.mock@)
    }
}

/// What is mounted of the first `upto` documents of `order`: the documents
/// that compile, in that order. A document that does not compile is
/// skipped.
pub open spec fn mounted_upto(stubs: Seq<JsonStubView>, order: Seq<usize>, upto: int) -> Seq<
    (usize, CompiledMockView),
>
    decreases upto,
{
    if upto <= 0 {
        Seq::empty()
    } else {
        let place = order[upto - 1];
        match stubs[place as int].compiled() {
            Ok(mock) => mounted_upto(stubs, order, upto - 1).push((place, mock)),
            Err(_) => mounted_upto(stubs, order, upto - 1),
        }
    }
}

/// `mounted` is what registering the documents gives: those that compile, in
/// the order of registration.
pub open spec fn is_registration(
    stubs: Seq<JsonStubView>,
    mounted: Seq<(usize, CompiledMockView)>,
) -> bool {
    exists|order: Seq<usize>| #[trigger]
        is_registration_order(priorities(stubs), order)
            && mounted == mounted_upto(stubs, order, order.len() as int)
}

/// Of one document that compiles, exactly its compiled form is mounted.
pub proof fn lemma_single_stub_is_mounted(
    stub: JsonStubView,
    mounted: Seq<(usize, CompiledMockView)>,
)
    requires
        is_registration(seq![stub], mounted),
        stub.compiled() is Ok,
    ensures
        mounted == seq![(0usize, stub.compiled()->Ok_0)],
{
    let stubs = seq![stub];
    let order = choose|order: Seq<usize>| #[trigger]
        is_registration_order(priorities(stubs), order) && mounted == mounted_upto(
            stubs,
            order,
            order.len() as int,
        );
    assert(order.len() == 1);
    assert(order[0] == 0);
    assert(mounted_upto(stubs, order, 0) =~= Seq::empty());
    assert(mounted =~= seq![(0usize, stub.compiled()->Ok_0)]);
}

/// A server whose one stub declares a field absent, on headers or on query
/// parameters, mounts that stub, and the stub accepts a request in which
/// the field does not occur, where the request meets the stub's other
/// conditions.
pub proof fn lemma_mounted_stub_accepts_missing_field(
    stub: JsonStubView,
    mounted: Seq<(usize, CompiledMockView)>,
    kind: FieldKind,
    name: Seq<char>,
    at: int,
    request: RequestView,
)
    requires
        is_registration(seq![stub], mounted),
        stub.compiled() is Ok,
        0 <= at < stub.request.rules(kind).len(),
        stub.request.rules(kind)[at] == absence_of(name),
        !has_field(request.fields(kind), name),
        forall|k: int|
            0 <= k < stub.request.compiled()->Ok_0.len() && (
            #[trigger] stub.request.compiled()->Ok_0[k]) != (ConstraintView::Rule {
                kind,
                rule: absence_of(name),
            }) ==> stub.request.compiled()->Ok_0[k].holds(request),
    ensures
        mounted.len() == 1,
        mounted[0].1.matches(request),
{
    lemma_single_stub_is_mounted(stub, mounted);
    lemma_absent_rule_decides(stub.request, kind, name, at, request);
}

/// Compiles the documents in the order `order`, skipping those that do not
/// compile.
pub fn compile_in_order(stubs: &Vec<JsonStub>, order: &Vec<usize>, config: &Config) -> (mounted:
    Vec<Mounted>)
    requires
        forall|k: int| 0 <= k < order@.len() ==> #[trigger] order@[k] < stubs@.len(),
    ensures
        mounted.deep_view() == mounted_upto(stubs.deep_view(), order@, order@.len() as int),
{
    let mut mounted: Vec<Mounted> = Vec::new();
    let mut k: usize = 0;
    while k < order.len()
        invariant
            k <= order@.len(),
            forall|j: int| 0 <= j < order@.len() ==> #[trigger] order@[j] < stubs@.len(),
            mounted.deep_view() == mounted_upto(stubs.deep_view(), order@, k as int),
        decreases order@.len() - k,
    {
        let place = order[k];
        match stubs[place].try_creating_from(config) {
            Ok(mock) => mounted.push(Mounted { place, mock }),
            Err(_) => {},
        }
        k += 1;
    }
    mounted
}

/// Orders the documents for registration and compiles them: ascending by
/// priority, documents without one last, documents of equal priority in the
/// order in which they were found. A document that does not compile is
/// skipped, and the others are still mounted.
pub fn register_stubs(stubs: &Vec<JsonStub>, config: &Config) -> (mounted: Vec<Mounted>)
    ensures
        is_registration(stubs.deep_view(), mounted.deep_view()),
{
    let listed = priorities_of(stubs);
    let order = registration_order(&listed);
    let mounted = compile_in_order(stubs, &order, config);
    mounted
}

} // verus!
