//! The reference value store: a mapping from reference-value name to the
//! set of accepted value representations.
//!
//! Registration appends; the latest registration for a name wins for
//! matching, while earlier entries remain in the store for audit. A name
//! that was never registered never matches (fail closed).

use vstd::prelude::*;

verus! {

/// One registration: a reference-value name and the accepted values.
pub struct ReferenceValueEntry {
    pub name: String,
    pub values: Vec<String>,
}

/// Mathematical image of a [`ReferenceValueEntry`].
pub struct ReferenceValueEntryView {
    pub name: Seq<char>,
    pub values: Seq<Seq<char>>,
}

impl View for ReferenceValueEntry {
    type V = ReferenceValueEntryView;

    open spec fn view(&self) -> ReferenceValueEntryView {
        ReferenceValueEntryView { name: self.name@, values: self.values.deep_view() }
    }
}

/// The map that a sequence of registrations denotes: later entries
/// overwrite earlier ones.
pub open spec fn spec_reference_map(
    entries: Seq<ReferenceValueEntryView>,
) -> Map<Seq<char>, Seq<Seq<char>>>
    decreases entries.len(),
{
    if entries.len() == 0 {
        Map::empty()
    } else {
        spec_reference_map(entries.drop_last()).insert(
            entries.last().name,
            entries.last().values,
        )
    }
}

/// Whether `value` is accepted for the reference-value name `name` under
/// the map `m`. An unregistered name accepts nothing.
pub open spec fn spec_accepts(
    m: Map<Seq<char>, Seq<Seq<char>>>,
    name: Seq<char>,
    value: Seq<char>,
) -> bool {
    m.contains_key(name) && m[name].contains(value)
}

/// Process-wide store of registered reference values.
pub struct ReferenceValueStore {
    pub entries: Vec<ReferenceValueEntry>,
}

impl View for ReferenceValueStore {
    type V = Map<Seq<char>, Seq<Seq<char>>>;

    open spec fn view(&self) -> Map<Seq<char>, Seq<Seq<char>>> {
        spec_reference_map(self.entries.deep_view())
    }
}

impl DeepView for ReferenceValueEntry {
    type V = ReferenceValueEntryView;

    open spec fn deep_view(&self) -> ReferenceValueEntryView {
        self@
    }
}

impl ReferenceValueStore {
    /// A fresh store: nothing registered, so nothing accepted.
    pub fn new() -> (r: Self)
        ensures
            r@ == Map::<Seq<char>, Seq<Seq<char>>>::empty(),
    {
        let r = ReferenceValueStore { entries: Vec::new() };
        proof {
            assert(r.entries.deep_view() =~= Seq::<ReferenceValueEntryView>::empty());
        }
        r
    }

    /// Registers the accepted values for `name`, overwriting whatever an
    /// earlier registration accepted for it. Well-formed input always
    /// succeeds.
    pub fn register(&mut self, name: String, values: Vec<String>)
        ensures
            final(self)@ == old(self)@.insert(name@, values.deep_view()),
    {
        let ghost before = self.entries.deep_view();
        let entry = ReferenceValueEntry { name, values };
        self.entries.push(entry);
        proof {
            assert(self.entries.deep_view().drop_last() =~= before);
        }
    }

    /// The currently accepted values for `name`, or `None` if `name` was
    /// never registered.
    pub fn lookup(&self, name: &String) -> (r: Option<&Vec<String>>)
        ensures
            match r {
                Some(v) => self@.contains_key(name@) && self@[name@] == v.deep_view(),
                None => !self@.contains_key(name@),
            },
    {
        let ghost full = self.entries.deep_view();
        let mut i = self.entries.len();
        proof {
            assert(full.take(i as int) =~= full);
        }
        while i > 0
            invariant
                i <= self.entries.len(),
                full == self.entries.deep_view(),
                self@.contains_key(name@) <==> spec_reference_map(full.take(i as int)).contains_key(
                    name@,
                ),
                self@.contains_key(name@) ==> self@[name@] == spec_reference_map(
                    full.take(i as int),
                )[name@],
            decreases i,
        {
            i = i - 1;
            proof {
                assert(full.take(i + 1).drop_last() =~= full.take(i as int));
                assert(full.take(i + 1).last() == full[i as int]);
            }
            if self.entries[i].name.eq(name) {
                return Some(&self.entries[i].values);
            }
        }
        None
    }

    /// Whether `value` is currently accepted for the reference-value name
    /// `name`. An unregistered name accepts nothing.
    pub fn accepts(&self, name: &String, value: &String) -> (r: bool)
        ensures
            r == spec_accepts(self@, name@, value@),
    {
        match self.lookup(name) {
            None => false,
            Some(values) => {
                let n = values.len();
                for j in 0..n
                    invariant
                        n == values.len(),
                        self@.contains_key(name@),
                        self@[name@] == values.deep_view(),
                        forall|k: int| 0 <= k < j ==> values.deep_view()[k] != value@,
                {
                    if values[j].eq(value) {
                        proof {
                            assert(values.deep_view().contains(value@)) by {
                                assert(values.deep_view()[j as int] == value@);
                            }
                        }
                        return true;
                    }
                }
                false
            },
        }
    }
}

} // verus!
