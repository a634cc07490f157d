//! The authorization engine: composes policy evaluations over structured
//! claims into a final allow/deny decision for a resource request.
//!
//! Evaluation is default-deny and deterministic: for a fixed policy store,
//! reference-value store and claims, the decision is a pure function of
//! those three values. Every per-component policy first merges a derived
//! fact into its component's claim map; the resource-access policy then
//! sees the fully augmented claims.

use vstd::prelude::*;

use crate::claims::{claims_seq, Claims, ComponentClaims, ComponentClaimsView, Fact, FactView,
    Status, spec_component, spec_fact_value};
use crate::policy::{rules_seq, DevicePolicyView, PolicyBody, PolicyBodyView, PolicyDocumentView,
    PolicyStore, Rule, RuleView};
use crate::refvalues::{ReferenceValueStore, spec_accepts};

verus! {

/// The category name under which the mandatory resource-access policy is
/// stored.
pub open spec fn spec_resource_category() -> Seq<char> {
    "resource"@
}

/// Whether one rule of a resource-access policy passes against the claims
/// and the registered reference values. A rule that refers to a missing
/// component or fact fails.
pub open spec fn spec_rule_passes(
    rule: RuleView,
    claims: Seq<ComponentClaimsView>,
    rv: Map<Seq<char>, Seq<Seq<char>>>,
) -> bool {
    match rule {
        RuleView::DenyAll => false,
        RuleView::StatusNotContraindicated { component } => match spec_component(
            claims,
            component,
        ) {
            Some(c) => c.status != Status::Contraindicated,
            None => false,
        },
        RuleView::FactEquals { component, fact, value } => match spec_component(
            claims,
            component,
        ) {
            Some(c) => spec_fact_value(c.facts, fact) == Some(value),
            None => false,
        },
        RuleView::FactInReference { component, fact, reference } => match spec_component(
            claims,
            component,
        ) {
            Some(c) => match spec_fact_value(c.facts, fact) {
                Some(v) => spec_accepts(rv, reference, v),
                None => false,
            },
            None => false,
        },
    }
}

/// Whether a resource-access rule list allows the request: every rule must
/// pass. The empty rule list is the allow-all policy.
pub open spec fn spec_policy_allows(
    rules: Seq<RuleView>,
    claims: Seq<ComponentClaimsView>,
    rv: Map<Seq<char>, Seq<Seq<char>>>,
) -> bool {
    forall|i: int| 0 <= i < rules.len() ==> spec_rule_passes(rules[i], claims, rv)
}

/// The value a per-component policy derives for its component: the trusted
/// value iff the checked fact is present and currently accepted for the
/// policy's reference-value name.
pub open spec fn spec_derived_value(
    p: DevicePolicyView,
    c: ComponentClaimsView,
    rv: Map<Seq<char>, Seq<Seq<char>>>,
) -> Seq<char> {
    match spec_fact_value(c.facts, p.fact) {
        Some(v) => if spec_accepts(rv, p.reference, v) {
            p.trusted_value
        } else {
            p.untrusted_value
        },
        None => p.untrusted_value,
    }
}

/// One component's claim map after its per-component policy, if one is
/// installed under the component's name, has merged its derived fact in.
/// The derived fact takes precedence over a reported fact of the same name.
pub open spec fn spec_augment_component(
    c: ComponentClaimsView,
    policies: Map<Seq<char>, PolicyDocumentView>,
    rv: Map<Seq<char>, Seq<Seq<char>>>,
) -> ComponentClaimsView {
    if policies.contains_key(c.component) {
        match policies[c.component].body {
            PolicyBodyView::Component(p) => ComponentClaimsView {
                component: c.component,
                status: c.status,
                facts: seq![
                    FactView { name: p.derived_fact, value: spec_derived_value(p, c, rv) },
                ] + c.facts,
            },
            PolicyBodyView::Resource(_) => c,
        }
    } else {
        c
    }
}

/// The claims after every applicable per-component policy has contributed
/// its derived fact.
pub open spec fn spec_augment(
    claims: Seq<ComponentClaimsView>,
    policies: Map<Seq<char>, PolicyDocumentView>,
    rv: Map<Seq<char>, Seq<Seq<char>>>,
) -> Seq<ComponentClaimsView> {
    claims.map_values(|c: ComponentClaimsView| spec_augment_component(c, policies, rv))
}

/// The final decision: allow only when the resource-access category
/// holds a rule list and every one of its rules passes against the
/// augmented claims. Anything else denies.
pub open spec fn spec_authorized(
    policies: Map<Seq<char>, PolicyDocumentView>,
    rv: Map<Seq<char>, Seq<Seq<char>>>,
    claims: Seq<ComponentClaimsView>,
) -> bool {
    if policies.contains_key(spec_resource_category()) {
        match policies[spec_resource_category()].body {
            PolicyBodyView::Resource(rules) => spec_policy_allows(
                rules,
                spec_augment(claims, policies, rv),
                rv,
            ),
            PolicyBodyView::Component(_) => false,
        }
    } else {
        false
    }
}

/// Augmentation changes only facts: looking a component up in the
/// augmented claims finds the same component, with its status untouched.
/// The resource-access policy therefore always sees each component's true
/// status, never a sanitized one.
pub proof fn lemma_augment_preserves_components(
    claims: Seq<ComponentClaimsView>,
    policies: Map<Seq<char>, PolicyDocumentView>,
    rv: Map<Seq<char>, Seq<Seq<char>>>,
    component: Seq<char>,
)
    ensures
        spec_component(spec_augment(claims, policies, rv), component) == match spec_component(
            claims,
            component,
        ) {
            None => None,
            Some(c) => Some(spec_augment_component(c, policies, rv)),
        },
    decreases claims.len(),
{
    let augmented = spec_augment(claims, policies, rv);
    if claims.len() == 0 {
        assert(augmented.len() == 0);
    } else {
        assert(augmented[0] == spec_augment_component(claims[0], policies, rv));
        assert(augmented[0].component == claims[0].component);
        if claims[0].component == component {
        } else {
            lemma_augment_preserves_components(claims.drop_first(), policies, rv, component);
            assert(augmented.drop_first() =~= spec_augment(
                claims.drop_first(),
                policies,
                rv,
            ));
        }
    }
}

/// Why an evaluation denied, or that it granted access.
#[derive(Clone, Copy, Debug, PartialEq, Eq, Structural)]
pub enum Reason {
    /// Every applicable policy passed.
    Granted,
    /// No policy was ever set for the resource-access category.
    PolicyNotFound,
    /// The document under the resource-access category is not a rule list.
    PolicyEvaluation,
    /// A rule of the resource-access policy failed.
    PolicyRejected,
}

/// An authorization decision: deny is the default, allow requires every
/// applicable policy layer to pass.
pub struct AuthDecision {
    pub allow: bool,
    pub reason: Reason,
}

/// Whether one rule passes against the claims and reference values as they
/// stand.
pub fn rule_passes(rule: &Rule, claims: &Claims, rv: &ReferenceValueStore) -> (r: bool)
    ensures
        r == spec_rule_passes(rule@, claims@, rv@),
{
    match rule {
        Rule::DenyAll => false,
        Rule::StatusNotContraindicated { component } => match claims.component(component) {
            Some(c) => !matches!(c.status, Status::Contraindicated),
            None => false,
        },
        Rule::FactEquals { component, fact, value } => match claims.component(component) {
            Some(c) => match c.fact_value(fact) {
                Some(v) => v.eq(value),
                None => false,
            },
            None => false,
        },
        Rule::FactInReference { component, fact, reference } => match claims.component(
            component,
        ) {
            Some(c) => match c.fact_value(fact) {
                Some(v) => rv.accepts(reference, v),
                None => false,
            },
            None => false,
        },
    }
}

/// Whether every rule of a resource-access rule list passes.
pub fn policy_allows(rules: &Vec<Rule>, claims: &Claims, rv: &ReferenceValueStore) -> (r: bool)
    ensures
        r == spec_policy_allows(rules_seq(rules@), claims@, rv@),
{
    let ghost rules_v = rules_seq(rules@);
    let n = rules.len();
    for i in 0..n
        invariant
            n == rules.len(),
            rules_v == rules_seq(rules@),
            forall|j: int| 0 <= j < i ==> spec_rule_passes(rules_v[j], claims@, rv@),
    {
        proof {
            assert(rules_v[i as int] == rules@[i as int]@);
        }
        if !rule_passes(&rules[i], claims, rv) {
            proof {
                assert(!spec_rule_passes(rules_v[i as int], claims@, rv@));
            }
            return false;
        }
    }
    true
}

/// One component's claim map after its per-component policy, if any, has
/// merged its derived fact in.
fn augment_component(
    c: ComponentClaims,
    policies: &PolicyStore,
    rv: &ReferenceValueStore,
) -> (r: ComponentClaims)
    ensures
        r@ == spec_augment_component(c@, policies@, rv@),
{
    let ghost c0 = c@;
    let mut cc = c;
    let doc = policies.get_current(&cc.component);
    match doc {
        Some(d) => match &d.body {
            PolicyBody::Component(p) => {
                let derived_value: String = match cc.fact_value(&p.fact) {
                    Some(v) => if rv.accepts(&p.reference, v) {
                        p.trusted_value.clone()
                    } else {
                        p.untrusted_value.clone()
                    },
                    None => p.untrusted_value.clone(),
                };
                proof {
                    assert(derived_value@ == spec_derived_value(p@, c0, rv@));
                }
                let fact = Fact { name: p.derived_fact.clone(), value: derived_value };
                cc.facts.insert(0, fact);
                proof {
                    assert(cc@.facts =~= seq![fact@] + c0.facts);
                    assert(cc@ =~= spec_augment_component(c0, policies@, rv@));
                }
                cc
            },
            PolicyBody::Resource(_) => cc,
        },
        None => cc,
    }
}

/// Evaluates the full authorization pipeline for one request: applicable
/// per-component policies first, then the resource-access policy over the
/// augmented claims.
pub fn authorize(
    policies: &PolicyStore,
    rv: &ReferenceValueStore,
    claims: Claims,
) -> (r: AuthDecision)
    ensures
        r.allow == spec_authorized(policies@, rv@, claims@),
        r.allow <==> r.reason is Granted,
        r.reason is PolicyNotFound <==> !policies@.contains_key(spec_resource_category()),
        r.reason is PolicyEvaluation <==> (policies@.contains_key(spec_resource_category())
            && policies@[spec_resource_category()].body is Component),
        r.reason is PolicyRejected <==> (policies@.contains_key(spec_resource_category())
            && policies@[spec_resource_category()].body is Resource && !spec_authorized(
            policies@,
            rv@,
            claims@,
        )),
{
    let ghost orig = claims@;
    let category: String = "resource".to_owned();
    let mut components = claims.components;
    let mut augmented: Vec<ComponentClaims> = Vec::new();
    while components.len() > 0
        invariant
            augmented@.len() + components@.len() == orig.len(),
            claims_seq(components@) == orig.skip(augmented@.len() as int),
            claims_seq(augmented@) == spec_augment(orig, policies@, rv@).take(
                augmented@.len() as int,
            ),
        decreases components.len(),
    {
        let ghost k = augmented@.len() as int;
        let ghost comps0 = components@;
        let ghost aug0 = augmented@;
        let c = components.remove(0);
        proof {
            assert(claims_seq(comps0)[0] == comps0[0]@);
            assert(c@ == orig[k]);
            assert forall|j: int| 0 <= j < components@.len() implies claims_seq(components@)[j]
                == orig.skip(k + 1)[j] by {
                assert(components@[j] == comps0[j + 1]);
                assert(claims_seq(components@)[j] == components@[j]@);
                assert(claims_seq(comps0)[j + 1] == comps0[j + 1]@);
            }
            assert(claims_seq(components@) =~= orig.skip(k + 1));
            assert(spec_augment(orig, policies@, rv@)[k] == spec_augment_component(
                orig[k],
                policies@,
                rv@,
            ));
        }
        let c2 = augment_component(c, policies, rv);
        augmented.push(c2);
        proof {
            assert forall|j: int| 0 <= j <= k implies claims_seq(augmented@)[j] == spec_augment(
                orig,
                policies@,
                rv@,
            ).take(k + 1)[j] by {
                assert(claims_seq(augmented@)[j] == augmented@[j]@);
                if j < k {
                    assert(augmented@[j] == aug0[j]);
                    assert(claims_seq(aug0)[j] == aug0[j]@);
                } else {
                    assert(augmented@[k] == c2);
                }
            }
            assert(claims_seq(augmented@) =~= spec_augment(orig, policies@, rv@).take(k + 1));
        }
    }
    let augmented_claims = Claims { components: augmented };
    proof {
        assert(augmented_claims@ =~= spec_augment(orig, policies@, rv@));
    }
    match policies.get_current(&category) {
        None => AuthDecision { allow: false, reason: Reason::PolicyNotFound },
        Some(d) => match &d.body {
            PolicyBody::Component(_) => AuthDecision {
                allow: false,
                reason: Reason::PolicyEvaluation,
            },
            PolicyBody::Resource(rules) => {
                if policy_allows(rules, &augmented_claims, rv) {
                    AuthDecision { allow: true, reason: Reason::Granted }
                } else {
                    AuthDecision { allow: false, reason: Reason::PolicyRejected }
                }
            },
        },
    }
}

} // verus!
