//! Evidence claims: structured facts about a running environment, organized
//! per hardware/software component.
//!
//! Claims are produced fresh per request by an external attestation
//! evaluator and handed to the broker as plain values. Each component
//! carries a trust status and a list of named facts; policy evaluation may
//! merge derived facts back into a component's claim map.

use vstd::prelude::*;

verus! {

/// Trust status reported for one component of the attested environment.
///
/// `Contraindicated` means the evaluator found the evidence actively
/// untrustworthy, which is stronger than a mere warning.
#[derive(Clone, Copy, Debug, PartialEq, Eq, Structural)]
pub enum Status {
    Affirming,
    Warning,
    Contraindicated,
}

/// One named fact about a component, such as a security version number or a
/// launch digest. Values keep the string representation the evaluator
/// reported.
pub struct Fact {
    pub name: String,
    pub value: String,
}

/// Mathematical image of a [`Fact`].
#[verifier::ext_equal]
pub struct FactView {
    pub name: Seq<char>,
    pub value: Seq<char>,
}

impl View for Fact {
    type V = FactView;

    open spec fn view(&self) -> FactView {
        FactView { name: self.name@, value: self.value@ }
    }
}

/// The claim map of one component: its identifier, its trust status, and
/// its facts.
pub struct ComponentClaims {
    pub component: String,
    pub status: Status,
    pub facts: Vec<Fact>,
}

/// Mathematical image of [`ComponentClaims`].
#[verifier::ext_equal]
pub struct ComponentClaimsView {
    pub component: Seq<char>,
    pub status: Status,
    pub facts: Seq<FactView>,
}

impl View for ComponentClaims {
    type V = ComponentClaimsView;

    open spec fn view(&self) -> ComponentClaimsView {
        ComponentClaimsView {
            component: self.component@,
            status: self.status,
            facts: self.facts@.map_values(|f: Fact| f@),
        }
    }
}

/// The value of the first fact named `name`, if any.
pub open spec fn spec_fact_value(facts: Seq<FactView>, name: Seq<char>) -> Option<Seq<char>>
    decreases facts.len(),
{
    if facts.len() == 0 {
        None
    } else if facts[0].name == name {
        Some(facts[0].value)
    } else {
        spec_fact_value(facts.drop_first(), name)
    }
}

/// The image of a sequence of component claim maps.
pub open spec fn claims_seq(s: Seq<ComponentClaims>) -> Seq<ComponentClaimsView> {
    s.map_values(|c: ComponentClaims| c@)
}

/// The full evidence claims of one request: one claim map per component.
pub struct Claims {
    pub components: Vec<ComponentClaims>,
}

impl View for Claims {
    type V = Seq<ComponentClaimsView>;

    open spec fn view(&self) -> Seq<ComponentClaimsView> {
        claims_seq(self.components@)
    }
}

/// The claim map of the first component named `component`, if any.
pub open spec fn spec_component(
    claims: Seq<ComponentClaimsView>,
    component: Seq<char>,
) -> Option<ComponentClaimsView>
    decreases claims.len(),
{
    if claims.len() == 0 {
        None
    } else if claims[0].component == component {
        Some(claims[0])
    } else {
        spec_component(claims.drop_first(), component)
    }
}

impl ComponentClaims {
    /// Looks the first fact named `name` up in this component's claim map.
    pub fn fact_value(&self, name: &String) -> (r: Option<&String>)
        ensures
            match r {
                Some(v) => spec_fact_value(self@.facts, name@) == Some(v@),
                None => spec_fact_value(self@.facts, name@) is None,
            },
    {
        let n = self.facts.len();
        proof {
            assert(self@.facts.skip(0) =~= self@.facts);
        }
        for i in 0..n
            invariant
                n == self.facts.len(),
                spec_fact_value(self@.facts, name@) == spec_fact_value(
                    self@.facts.skip(i as int),
                    name@,
                ),
        {
            proof {
                assert(self@.facts.skip(i as int).drop_first() =~= self@.facts.skip(i + 1));
            }
            if self.facts[i].name.eq(name) {
                return Some(&self.facts[i].value);
            }
        }
        proof {
            assert(self@.facts.skip(n as int) =~= Seq::<FactView>::empty());
        }
        None
    }
}

impl Claims {
    /// Looks the first claim map of component `component` up.
    pub fn component(&self, component: &String) -> (r: Option<&ComponentClaims>)
        ensures
            match r {
                Some(c) => spec_component(self@, component@) == Some(c@),
                None => spec_component(self@, component@) is None,
            },
    {
        let n = self.components.len();
        proof {
            assert(self@.skip(0) =~= self@);
        }
        for i in 0..n
            invariant
                n == self.components.len(),
                spec_component(self@, component@) == spec_component(self@.skip(i as int), component@),
        {
            proof {
                assert(self@.skip(i as int).drop_first() =~= self@.skip(i + 1));
            }
            if self.components[i].component.eq(component) {
                return Some(&self.components[i]);
            }
        }
        proof {
            assert(self@.skip(n as int) =~= Seq::<ComponentClaimsView>::empty());
        }
        None
    }
}

} // verus!
