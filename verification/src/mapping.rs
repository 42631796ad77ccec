//! From the request part of a stub to a concrete URL that it answers.

use vstd::prelude::*;

use crate::fields::{declared, exact_pairs, Pairs};
use crate::pattern::{can_generate, example_or_empty, matches_within, or_empty, try_generate};
use crate::request_stub::{RequestStub, RequestStubView};
use crate::url::{resolved, HttpUrlView, ResolvedUrl, UrlError};

verus! {

/// The reference that stands for the chosen rule: the rule's own text where
/// it is exact, the example drawn where it is a pattern, the empty text
/// where no rule is set or no example was drawn.
pub open spec fn reference_for(chosen: Option<(Seq<char>, bool)>, drawn: Option<Seq<char>>) -> Seq<
    char,
> {
    match chosen {
        Some((text, is_pattern)) => if is_pattern {
            example_or_empty(drawn)
        } else {
            text
        },
        None => Seq::empty(),
    }
}

/// `reference` can stand for the URL rules: for an exact rule it is the
/// rule's text, for no rule it is empty, and for a pattern it is a text
/// that was drawn and that the pattern matches, or empty.
pub open spec fn may_stand_for(url: HttpUrlView, reference: Seq<char>) -> bool {
    match url.selected() {
        Some((text, is_pattern)) => if is_pattern {
            (can_generate(text) && matches_within(text, reference)) || reference == Seq::<
                char,
            >::empty()
        } else {
            reference == text
        },
        None => reference == Seq::<char>::empty(),
    }
}

/// `made` is what resolving `reference` with the parameters `extra` gives.
pub open spec fn is_resolution(
    made: Result<ResolvedUrl, UrlError>,
    reference: Seq<char>,
    extra: Pairs,
) -> bool {
    match resolved(reference, extra) {
        Some(url) => made matches Ok(found) && found@ == url,
        None => made == Err::<ResolvedUrl, UrlError>(UrlError::Malformed),
    }
}

/// Some reference that can stand for the rules resolves to `made`.
pub open spec fn resolves_some_reference(
    request: RequestStubView,
    made: Result<ResolvedUrl, UrlError>,
) -> bool {
    exists|reference: Seq<char>| #[trigger]
        may_stand_for(request.url, reference) && is_resolution(
            made,
            reference,
            exact_pairs(declared(request.queries)),
        )
}

/// Chooses the URL rule that stands for a stub.
pub struct UrlStubMapper;

impl UrlStubMapper {
    /// The reference for the chosen rule, given what the generator drew.
    pub fn url_from_generated(chosen: Option<(&str, bool)>, drawn: Option<String>) -> (reference:
        String)
        ensures
            reference@ == reference_for(chosen.deep_view(), drawn.deep_view()),
    {
        match chosen {
            Some((text, is_pattern)) => {
                if is_pattern {
                    or_empty(drawn)
                } else {
                    text.to_owned()
                }
            },
            None => String::new(),
        }
    }

    /// A reference that stands for the stub's URL rules. An exact rule
    /// stands for itself; for a pattern an example is drawn, anew at each
    /// call.
    pub fn url_from_matcher(stub: &RequestStub) -> (reference: String)
        ensures
            may_stand_for(stub@.url, reference@),
    {
        let chosen = UrlStubMapper::url_matcher(stub);
        let drawn = match chosen {
            Some((pattern, true)) => try_generate(pattern),
            _ => None,
        };
        UrlStubMapper::url_from_generated(chosen, drawn)
    }

    /// The rule that stands for the URL, with whether it is a pattern.
    pub fn url_matcher(stub: &RequestStub) -> (chosen: Option<(&str, bool)>)
        ensures
            chosen.deep_view() == stub@.url.selected(),
    {
        if let Some(text) = &stub.url.url {
            Some((text.as_str(), false))
        } else if let Some(text) = &stub.url.url_path {
            Some((text.as_str(), false))
        } else if let Some(pattern) = &stub.url.url_pattern {
            Some((pattern.as_str(), true))
        } else if let Some(pattern) = &stub.url.url_path_pattern {
            Some((pattern.as_str(), true))
        } else {
            None
        }
    }
}

impl ResolvedUrl {
    /// A concrete URL that the stub answers: its reference resolved against
    /// the base URL, with the stub's equalities on query parameters added.
    pub fn try_from(stub: &RequestStub) -> (made: Result<ResolvedUrl, UrlError>)
        ensures
            resolves_some_reference(stub@, made),
    {
        let reference = UrlStubMapper::url_from_matcher(stub);
        let extra = stub.queries.exact_pairs();
        let made = ResolvedUrl::resolve(reference.as_str(), &extra);
        made
    }
}

/// Where a stub's URL rule is exact, or none is set, the URL it resolves to
/// is that of the one reference that stands for it.
pub proof fn lemma_exact_rule_resolves_alone(
    request: RequestStubView,
    made: Result<ResolvedUrl, UrlError>,
)
    requires
        resolves_some_reference(request, made),
        !(request.url.selected() matches Some((_, true))),
    ensures
        is_resolution(
            made,
            reference_for(request.url.selected(), None),
            exact_pairs(declared(request.queries)),
        ),
{
    let reference = choose|reference: Seq<char>| #[trigger]
        may_stand_for(request.url, reference) && is_resolution(
            made,
            reference,
            exact_pairs(declared(request.queries)),
        );
    assert(reference == reference_for(request.url.selected(), None));
}

} // verus!
