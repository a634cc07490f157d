//! The broker's global guarantees, stated over the request state machine
//! and proved once for all inputs.

use vstd::prelude::*;

use crate::broker::{spec_handle_request, BrokerError, BrokerView, ResponseView};
use crate::claims::{spec_component, ComponentClaimsView, Status};
use crate::engine::{lemma_augment_preserves_components, spec_augment, spec_authorized,
    spec_policy_allows, spec_resource_category, spec_rule_passes};
use crate::policy::{PolicyBodyView, PolicyDocumentView, RuleView};
use crate::request::RequestView;

verus! {

/// A component whose status is contraindicated causes deny whenever the
/// active resource-access policy checks that component's status: the
/// engine hands the policy the component's true status, and the failing
/// rule overrides everything else.
pub proof fn lemma_contraindicated_denies(
    policies: Map<Seq<char>, PolicyDocumentView>,
    rv: Map<Seq<char>, Seq<Seq<char>>>,
    claims: Seq<ComponentClaimsView>,
    component: Seq<char>,
)
    requires
        policies.contains_key(spec_resource_category()),
        policies[spec_resource_category()].body matches PolicyBodyView::Resource(rules)
            && exists|i: int| 0 <= i < rules.len() && rules[i]
            == (RuleView::StatusNotContraindicated { component }),
        spec_component(claims, component) matches Some(c) && c.status
            == Status::Contraindicated,
    ensures
        !spec_authorized(policies, rv, claims),
{
    let rules = policies[spec_resource_category()].body->Resource_0;
    let i = choose|i: int| 0 <= i < rules.len() && rules[i]
        == (RuleView::StatusNotContraindicated { component });
    let augmented = spec_augment(claims, policies, rv);
    lemma_augment_preserves_components(claims, policies, rv, component);
    assert(!spec_rule_passes(rules[i], augmented, rv));
    assert(!spec_policy_allows(rules, augmented, rv));
}

/// A request the authorization engine denies never reaches a backend: the
/// broker answers the uniform unauthorized error and every backend's
/// state is left exactly as it was.
pub proof fn lemma_deny_touches_no_backend(
    b: BrokerView,
    req: RequestView,
    claims: Seq<ComponentClaimsView>,
    admin_authenticated: bool,
)
    requires
        !spec_authorized(b.policies, b.reference_values, claims),
    ensures
        spec_handle_request(b, req, claims, admin_authenticated) == (
            Err::<ResponseView, BrokerError>(BrokerError::Unauthorized),
            b.plugins,
        ),
{
}

/// Fail-closed default: in a system where no policy was ever set for the
/// resource-access category, every request is denied, whatever the
/// evidence, the path or the credentials.
pub proof fn lemma_fresh_system_denies(
    b: BrokerView,
    req: RequestView,
    claims: Seq<ComponentClaimsView>,
    admin_authenticated: bool,
)
    requires
        !b.policies.contains_key(spec_resource_category()),
    ensures
        !spec_authorized(b.policies, b.reference_values, claims),
        spec_handle_request(b, req, claims, admin_authenticated) == (
            Err::<ResponseView, BrokerError>(BrokerError::Unauthorized),
            b.plugins,
        ),
{
}

/// Idempotence of registration: registering the same reference-value set
/// twice leaves the broker answering every request exactly as it does
/// after registering it once.
pub proof fn lemma_register_idempotent(
    b: BrokerView,
    name: Seq<char>,
    values: Seq<Seq<char>>,
    req: RequestView,
    claims: Seq<ComponentClaimsView>,
    admin_authenticated: bool,
)
    ensures
        ({
            let once = BrokerView {
                reference_values: b.reference_values.insert(name, values),
                policies: b.policies,
                plugins: b.plugins,
            };
            let twice = BrokerView {
                reference_values: once.reference_values.insert(name, values),
                policies: once.policies,
                plugins: once.plugins,
            };
            spec_handle_request(twice, req, claims, admin_authenticated)
                == spec_handle_request(once, req, claims, admin_authenticated)
        }),
{
    assert(b.reference_values.insert(name, values).insert(name, values)
        =~= b.reference_values.insert(name, values));
    assert(BrokerView {
        reference_values: b.reference_values.insert(name, values).insert(name, values),
        policies: b.policies,
        plugins: b.plugins,
    } =~= BrokerView {
        reference_values: b.reference_values.insert(name, values),
        policies: b.policies,
        plugins: b.plugins,
    });
}

/// Determinism under concurrency: two requests that observe the same
/// broker snapshot with identical evidence, path and credentials always
/// reach the same decision and leave the backends in the same state. The
/// whole pipeline is a pure function of the snapshot and the request.
pub proof fn lemma_decision_deterministic(
    b1: BrokerView,
    b2: BrokerView,
    req1: RequestView,
    req2: RequestView,
    claims1: Seq<ComponentClaimsView>,
    claims2: Seq<ComponentClaimsView>,
    admin1: bool,
    admin2: bool,
)
    requires
        b1 == b2,
        req1 == req2,
        claims1 == claims2,
        admin1 == admin2,
    ensures
        spec_handle_request(b1, req1, claims1, admin1) == spec_handle_request(
            b2,
            req2,
            claims2,
            admin2,
        ),
{
}

} // verus!
