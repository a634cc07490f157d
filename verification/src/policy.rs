//! Policy documents and the policy store.
//!
//! A policy document belongs to a category: the distinguished
//! resource-access category gates every request, and a per-component
//! category (named after the component, e.g. a device class) contributes a
//! derived fact to that component's claim map before the resource-access
//! policy runs. Setting a policy replaces the current document of its
//! category atomically and bumps a monotonically increasing version.

use vstd::prelude::*;

verus! {

/// One condition of a resource-access policy. A request is allowed only if
/// every rule of the current resource-access policy passes; a rule that
/// refers to a component or fact the evidence lacks fails (default deny).
pub enum Rule {
    /// Never passes: the deny-all policy is `Resource([DenyAll])`.
    DenyAll,
    /// Passes iff the component is present and its status is not
    /// `Contraindicated`.
    StatusNotContraindicated { component: String },
    /// Passes iff the named fact of the component is present and equals
    /// `value`.
    FactEquals { component: String, fact: String, value: String },
    /// Passes iff the named fact of the component is present and its value
    /// is currently accepted for the reference-value name `reference`.
    FactInReference { component: String, fact: String, reference: String },
}

/// Mathematical image of a [`Rule`].
pub enum RuleView {
    DenyAll,
    StatusNotContraindicated { component: Seq<char> },
    FactEquals { component: Seq<char>, fact: Seq<char>, value: Seq<char> },
    FactInReference { component: Seq<char>, fact: Seq<char>, reference: Seq<char> },
}

impl View for Rule {
    type V = RuleView;

    open spec fn view(&self) -> RuleView {
        match self {
            Rule::DenyAll => RuleView::DenyAll,
            Rule::StatusNotContraindicated { component } => RuleView::StatusNotContraindicated {
                component: component@,
            },
            Rule::FactEquals { component, fact, value } => RuleView::FactEquals {
                component: component@,
                fact: fact@,
                value: value@,
            },
            Rule::FactInReference { component, fact, reference } => RuleView::FactInReference {
                component: component@,
                fact: fact@,
                reference: reference@,
            },
        }
    }
}

/// A per-component policy: derives one trust fact for its component from
/// whether a reported fact is among the registered reference values.
///
/// If the component reports `fact` and the reported value is currently
/// accepted for the reference-value name `reference`, the derived fact
/// `derived_fact` takes `trusted_value`; otherwise (value not accepted,
/// fact missing, or name unregistered) it takes `untrusted_value`.
pub struct DevicePolicy {
    pub fact: String,
    pub reference: String,
    pub derived_fact: String,
    pub trusted_value: String,
    pub untrusted_value: String,
}

/// Mathematical image of a [`DevicePolicy`].
pub struct DevicePolicyView {
    pub fact: Seq<char>,
    pub reference: Seq<char>,
    pub derived_fact: Seq<char>,
    pub trusted_value: Seq<char>,
    pub untrusted_value: Seq<char>,
}

impl View for DevicePolicy {
    type V = DevicePolicyView;

    open spec fn view(&self) -> DevicePolicyView {
        DevicePolicyView {
            fact: self.fact@,
            reference: self.reference@,
            derived_fact: self.derived_fact@,
            trusted_value: self.trusted_value@,
            untrusted_value: self.untrusted_value@,
        }
    }
}

/// The image of a sequence of rules.
pub open spec fn rules_seq(s: Seq<Rule>) -> Seq<RuleView> {
    s.map_values(|r: Rule| r@)
}

/// The body of a policy document: either a resource-access rule list or a
/// per-component derivation.
pub enum PolicyBody {
    Resource(Vec<Rule>),
    Component(DevicePolicy),
}

/// Mathematical image of a [`PolicyBody`].
pub enum PolicyBodyView {
    Resource(Seq<RuleView>),
    Component(DevicePolicyView),
}

impl View for PolicyBody {
    type V = PolicyBodyView;

    open spec fn view(&self) -> PolicyBodyView {
        match self {
            PolicyBody::Resource(rules) => PolicyBodyView::Resource(rules_seq(rules@)),
            PolicyBody::Component(p) => PolicyBodyView::Component(p@),
        }
    }
}

/// A versioned policy document: the current body of one category.
pub struct PolicyDocument {
    pub version: u64,
    pub body: PolicyBody,
}

/// Mathematical image of a [`PolicyDocument`].
pub struct PolicyDocumentView {
    pub version: u64,
    pub body: PolicyBodyView,
}

impl View for PolicyDocument {
    type V = PolicyDocumentView;

    open spec fn view(&self) -> PolicyDocumentView {
        PolicyDocumentView { version: self.version, body: self.body@ }
    }
}

/// One installation of a policy document under a category.
pub struct PolicyEntry {
    pub category: String,
    pub document: PolicyDocument,
}

/// Mathematical image of a [`PolicyEntry`].
pub struct PolicyEntryView {
    pub category: Seq<char>,
    pub document: PolicyDocumentView,
}

impl View for PolicyEntry {
    type V = PolicyEntryView;

    open spec fn view(&self) -> PolicyEntryView {
        PolicyEntryView { category: self.category@, document: self.document@ }
    }
}

impl DeepView for PolicyEntry {
    type V = PolicyEntryView;

    open spec fn deep_view(&self) -> PolicyEntryView {
        self@
    }
}

/// The map that a sequence of installations denotes: later entries
/// overwrite earlier ones, which remain only for audit.
pub open spec fn spec_policy_map(
    entries: Seq<PolicyEntryView>,
) -> Map<Seq<char>, PolicyDocumentView>
    decreases entries.len(),
{
    if entries.len() == 0 {
        Map::empty()
    } else {
        spec_policy_map(entries.drop_last()).insert(
            entries.last().category,
            entries.last().document,
        )
    }
}

/// The version the next installation under `category` receives: one more
/// than the current document's, or 1 for a fresh category.
pub open spec fn spec_next_version(
    m: Map<Seq<char>, PolicyDocumentView>,
    category: Seq<char>,
) -> u64
    recommends
        m.contains_key(category) ==> m[category].version < u64::MAX,
{
    if m.contains_key(category) {
        (m[category].version + 1) as u64
    } else {
        1u64
    }
}

/// Process-wide store of the current policy document per category.
pub struct PolicyStore {
    pub entries: Vec<PolicyEntry>,
}

impl View for PolicyStore {
    type V = Map<Seq<char>, PolicyDocumentView>;

    open spec fn view(&self) -> Map<Seq<char>, PolicyDocumentView> {
        spec_policy_map(self.entries.deep_view())
    }
}

impl PolicyStore {
    /// A fresh store: no category has a policy, so every request is denied
    /// until a resource-access policy is set.
    pub fn new() -> (r: Self)
        ensures
            r@ == Map::<Seq<char>, PolicyDocumentView>::empty(),
    {
        let r = PolicyStore { entries: Vec::new() };
        proof {
            assert(r.entries.deep_view() =~= Seq::<PolicyEntryView>::empty());
        }
        r
    }

    /// The current policy document for `category`, or `None` if none was
    /// ever set.
    pub fn get_current(&self, category: &String) -> (r: Option<&PolicyDocument>)
        ensures
            match r {
                Some(d) => self@.contains_key(category@) && self@[category@] == d@,
                None => !self@.contains_key(category@),
            },
    {
        let ghost full = self.entries.deep_view();
        let mut i = self.entries.len();
        proof {
            assert(full.take(i as int) =~= full);
        }
        while i > 0
            invariant
                i <= self.entries.len(),
                full == self.entries.deep_view(),
                self@.contains_key(category@) <==> spec_policy_map(
                    full.take(i as int),
                ).contains_key(category@),
                self@.contains_key(category@) ==> self@[category@] == spec_policy_map(
                    full.take(i as int),
                )[category@],
            decreases i,
        {
            i = i - 1;
            proof {
                assert(full.take(i + 1).drop_last() =~= full.take(i as int));
                assert(full.take(i + 1).last() == full[i as int]);
            }
            if self.entries[i].category.eq(category) {
                return Some(&self.entries[i].document);
            }
        }
        None
    }

    /// Atomically replaces the current policy of `category` with `body`,
    /// giving it the next version of that category.
    pub fn set_policy(&mut self, category: String, body: PolicyBody)
        requires
            old(self)@.contains_key(category@) ==> old(self)@[category@].version < u64::MAX,
        ensures
            final(self)@ == old(self)@.insert(
                category@,
                PolicyDocumentView {
                    version: spec_next_version(old(self)@, category@),
                    body: body@,
                },
            ),
    {
        let version: u64 = match self.get_current(&category) {
            Some(d) => d.version + 1,
            None => 1,
        };
        let ghost before = self.entries.deep_view();
        let entry = PolicyEntry { category, document: PolicyDocument { version, body } };
        self.entries.push(entry);
        proof {
            assert(self.entries.deep_view().drop_last() =~= before);
        }
    }
}

} // verus!
