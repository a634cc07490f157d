//! The backend registry: named backend instances built once from an
//! ordered list of tagged configurations.
//!
//! A duplicate name overwrites the earlier registration (last one wins).
//! After construction the registry is only read; the one mutation that
//! flows through it is a backend's own state change under `handle`.

use vstd::prelude::*;
use vstd::slice::slice_to_vec;

use crate::plugin::{Plugin, PluginBuildError, PluginError, PluginView, ResourceStorage, Sample,
    RepositoryConfig, SampleConfig, spec_plugin_handle, spec_result_bytes};
use crate::request::{Method, RequestView};

verus! {

/// A tagged backend configuration entry, discriminated by backend kind.
pub enum PluginsConfig {
    Sample(SampleConfig),
    ResourceStorage(RepositoryConfig),
}

/// Mathematical image of a [`PluginsConfig`].
pub enum PluginsConfigView {
    Sample(Seq<u8>),
    ResourceStorage,
}

impl View for PluginsConfig {
    type V = PluginsConfigView;

    open spec fn view(&self) -> PluginsConfigView {
        match self {
            PluginsConfig::Sample(c) => PluginsConfigView::Sample(c@),
            PluginsConfig::ResourceStorage(_) => PluginsConfigView::ResourceStorage,
        }
    }
}

impl DeepView for PluginsConfig {
    type V = PluginsConfigView;

    open spec fn deep_view(&self) -> PluginsConfigView {
        self@
    }
}

/// The registry name a configuration entry registers its backend under.
pub open spec fn spec_config_name(c: PluginsConfigView) -> Seq<char> {
    match c {
        PluginsConfigView::Sample(_) => "sample"@,
        PluginsConfigView::ResourceStorage => "resource"@,
    }
}

/// The backend instance a configuration entry constructs, or why it
/// cannot be constructed.
pub open spec fn spec_build_plugin(c: PluginsConfigView) -> Result<PluginView, PluginBuildError> {
    match c {
        PluginsConfigView::Sample(payload) => if payload.len() > 0 {
            Ok(PluginView::Sample(payload))
        } else {
            Err(PluginBuildError::EmptySamplePayload)
        },
        PluginsConfigView::ResourceStorage => Ok(
            PluginView::ResourceStorage(Map::empty()),
        ),
    }
}

/// The first construction failure in a configuration list, if any:
/// registry construction stops at it.
pub open spec fn spec_first_build_error(configs: Seq<PluginsConfigView>) -> Option<
    PluginBuildError,
>
    decreases configs.len(),
{
    if configs.len() == 0 {
        None
    } else {
        match spec_build_plugin(configs[0]) {
            Err(e) => Some(e),
            Ok(_) => spec_first_build_error(configs.drop_first()),
        }
    }
}

impl PluginsConfig {
    /// The registry name this entry registers its backend under: the
    /// configuration tag.
    pub fn name(&self) -> (r: String)
        ensures
            r@ == spec_config_name(self@),
    {
        match self {
            PluginsConfig::Sample(_) => "sample".to_owned(),
            PluginsConfig::ResourceStorage(_) => "resource".to_owned(),
        }
    }

    /// Constructs the backend instance this entry describes, failing on
    /// invalid configuration.
    pub fn build(&self) -> (r: Result<Plugin, PluginBuildError>)
        ensures
            match r {
                Ok(p) => spec_build_plugin(self@) == Ok::<PluginView, PluginBuildError>(p@),
                Err(e) => spec_build_plugin(self@) == Err::<PluginView, PluginBuildError>(e),
            },
    {
        match self {
            PluginsConfig::Sample(c) => {
                match Sample::try_from(SampleConfig { payload: slice_to_vec(
                    c.payload.as_slice(),
                ) }) {
                    Ok(s) => Ok(Plugin::Sample(s)),
                    Err(e) => Err(e),
                }
            },
            PluginsConfig::ResourceStorage(_) => {
                match ResourceStorage::try_from(RepositoryConfig {}) {
                    Ok(s) => Ok(Plugin::ResourceStorage(s)),
                    Err(e) => Err(e),
                }
            },
        }
    }
}

/// One registration in the registry.
pub struct PluginEntry {
    pub name: String,
    pub plugin: Plugin,
}

/// Mathematical image of a [`PluginEntry`].
pub struct PluginEntryView {
    pub name: Seq<char>,
    pub plugin: PluginView,
}

impl View for PluginEntry {
    type V = PluginEntryView;

    open spec fn view(&self) -> PluginEntryView {
        PluginEntryView { name: self.name@, plugin: self.plugin@ }
    }
}

impl DeepView for PluginEntry {
    type V = PluginEntryView;

    open spec fn deep_view(&self) -> PluginEntryView {
        self@
    }
}

/// The registry that a sequence of registrations denotes: later entries
/// overwrite earlier ones.
pub open spec fn spec_plugin_map(entries: Seq<PluginEntryView>) -> Map<Seq<char>, PluginView>
    decreases entries.len(),
{
    if entries.len() == 0 {
        Map::empty()
    } else {
        spec_plugin_map(entries.drop_last()).insert(
            entries.last().name,
            entries.last().plugin,
        )
    }
}

/// The registry a configuration list builds when every entry constructs.
pub open spec fn spec_registry(configs: Seq<PluginsConfigView>) -> Map<Seq<char>, PluginView>
    decreases configs.len(),
{
    if configs.len() == 0 {
        Map::empty()
    } else {
        match spec_build_plugin(configs.last()) {
            Ok(p) => spec_registry(configs.drop_last()).insert(
                spec_config_name(configs.last()),
                p,
            ),
            Err(_) => spec_registry(configs.drop_last()),
        }
    }
}

/// Construction walks the configuration list front to back: while every
/// entry up to `i` constructs, the first failure of the whole list is the
/// first failure of the rest.
proof fn lemma_first_build_error_skip(all: Seq<PluginsConfigView>, i: int)
    requires
        0 <= i <= all.len(),
        forall|j: int| 0 <= j < i ==> spec_build_plugin(all[j]) is Ok,
    ensures
        spec_first_build_error(all) == spec_first_build_error(all.skip(i)),
    decreases i,
{
    if i == 0 {
        assert(all.skip(0) =~= all);
    } else {
        assert(spec_build_plugin(all[0]) is Ok);
        assert forall|j: int| 0 <= j < i - 1 implies spec_build_plugin(
            all.drop_first()[j],
        ) is Ok by {
            assert(all.drop_first()[j] == all[j + 1]);
        }
        lemma_first_build_error_skip(all.drop_first(), i - 1);
        assert(all.drop_first().skip(i - 1) =~= all.skip(i));
    }
}

/// Manages the constructed backends, keyed by name.
pub struct PluginManager {
    pub entries: Vec<PluginEntry>,
}

impl View for PluginManager {
    type V = Map<Seq<char>, PluginView>;

    open spec fn view(&self) -> Map<Seq<char>, PluginView> {
        spec_plugin_map(self.entries.deep_view())
    }
}

/// Replacing the plugin of the winning entry for its name rewrites the
/// registry map at that name alone.
proof fn lemma_plugin_map_update_last(entries: Seq<PluginEntryView>, i: int, p: PluginView)
    requires
        0 <= i < entries.len(),
        forall|j: int| i < j < entries.len() ==> entries[j].name != entries[i].name,
    ensures
        spec_plugin_map(
            entries.update(i, PluginEntryView { name: entries[i].name, plugin: p }),
        ) == spec_plugin_map(entries).insert(entries[i].name, p),
    decreases entries.len(),
{
    let updated = entries.update(i, PluginEntryView { name: entries[i].name, plugin: p });
    if i == entries.len() - 1 {
        assert(updated.drop_last() =~= entries.drop_last());
        assert(spec_plugin_map(updated) =~= spec_plugin_map(entries).insert(entries[i].name, p));
    } else {
        assert(updated.drop_last() =~= entries.drop_last().update(
            i,
            PluginEntryView { name: entries[i].name, plugin: p },
        ));
        lemma_plugin_map_update_last(entries.drop_last(), i, p);
        assert(updated.last() == entries.last());
        assert(spec_plugin_map(updated) =~= spec_plugin_map(entries).insert(entries[i].name, p));
    }
}

impl PluginManager {
    /// Builds the registry from an ordered configuration list, failing
    /// with the first construction error.
    pub fn try_from(configs: Vec<PluginsConfig>) -> (r: Result<PluginManager, PluginBuildError>)
        ensures
            match r {
                Ok(m) => spec_first_build_error(configs.deep_view()) is None && m@
                    == spec_registry(configs.deep_view()),
                Err(e) => spec_first_build_error(configs.deep_view()) == Some(e),
            },
    {
        let ghost all = configs.deep_view();
        let mut entries: Vec<PluginEntry> = Vec::new();
        let n = configs.len();
        for i in 0..n
            invariant
                n == configs@.len(),
                all == configs.deep_view(),
                entries@.len() == i,
                forall|j: int| 0 <= j < i ==> spec_build_plugin(all[j]) is Ok,
                spec_plugin_map(entries.deep_view()) == spec_registry(all.take(i as int)),
        {
            let ghost k = i as int;
            proof {
                assert(all[k] == configs@[k]@);
            }
            let cfg = &configs[i];
            let name = cfg.name();
            match cfg.build() {
                Err(e) => {
                    proof {
                        assert(spec_build_plugin(all[k]) == Err::<PluginView, PluginBuildError>(
                            e,
                        ));
                        lemma_first_build_error_skip(all, k);
                        assert(all.skip(k)[0] == all[k]);
                        assert(spec_first_build_error(all) == Some(e));
                    }
                    return Err(e);
                },
                Ok(plugin) => {
                    proof {
                        assert(spec_build_plugin(all[k]) == Ok::<PluginView, PluginBuildError>(
                            plugin@,
                        ));
                        assert(name@ == spec_config_name(all[k]));
                    }
                    let ghost entries0 = entries.deep_view();
                    entries.push(PluginEntry { name, plugin });
                    proof {
                        assert(entries.deep_view().drop_last() =~= entries0);
                        assert(entries.deep_view().last() == PluginEntryView {
                            name: spec_config_name(all[k]),
                            plugin: plugin@,
                        });
                        assert(all.take(k + 1).drop_last() =~= all.take(k));
                        assert(all.take(k + 1).last() == all[k]);
                        assert(spec_plugin_map(entries.deep_view()) == spec_registry(
                            all.take(k + 1),
                        ));
                    }
                },
            }
        }
        proof {
            assert(all.take(all.len() as int) =~= all);
            lemma_first_build_error_skip(all, all.len() as int);
            assert(all.skip(all.len() as int) =~= Seq::<PluginsConfigView>::empty());
        }
        Ok(PluginManager { entries })
    }

    /// Looks the backend registered under `name` up.
    pub fn get(&self, name: &str) -> (r: Option<&Plugin>)
        ensures
            match r {
                Some(p) => self@.contains_key(name@) && self@[name@] == p@,
                None => !self@.contains_key(name@),
            },
    {
        match self.find_last(name) {
            Some(i) => Some(&self.entries[i].plugin),
            None => None,
        }
    }

    /// The index of the winning registration for `name`: the last entry
    /// with that name.
    fn find_last(&self, name: &str) -> (r: Option<usize>)
        ensures
            match r {
                Some(i) => i < self.entries@.len() && self.entries.deep_view()[i as int].name
                    == name@ && self@.contains_key(name@) && self@[name@]
                    == self.entries.deep_view()[i as int].plugin && forall|j: int|
                    i < j < self.entries@.len() ==> self.entries.deep_view()[j].name != name@,
                None => !self@.contains_key(name@),
            },
    {
        let name_owned = name.to_owned();
        let ghost full = self.entries.deep_view();
        let mut i = self.entries.len();
        proof {
            assert(full.take(i as int) =~= full);
        }
        while i > 0
            invariant
                i <= self.entries.len(),
                full == self.entries.deep_view(),
                name_owned@ == name@,
                self@.contains_key(name@) <==> spec_plugin_map(full.take(i as int)).contains_key(
                    name@,
                ),
                self@.contains_key(name@) ==> self@[name@] == spec_plugin_map(
                    full.take(i as int),
                )[name@],
                forall|j: int| i <= j < full.len() ==> full[j].name != name@,
            decreases i,
        {
            i = i - 1;
            proof {
                assert(full.take(i + 1).drop_last() =~= full.take(i as int));
                assert(full.take(i + 1).last() == full[i as int]);
            }
            if self.entries[i].name.eq(&name_owned) {
                return Some(i);
            }
        }
        None
    }

    /// Routes one authorized request to the backend registered under
    /// `name` and lets it mutate its own state.
    pub fn dispatch(
        &mut self,
        name: &str,
        body: &[u8],
        query: &str,
        path: &str,
        method: Method,
    ) -> (r: Option<Result<Vec<u8>, PluginError>>)
        ensures
            match r {
                None => !old(self)@.contains_key(name@) && final(self)@ == old(self)@,
                Some(res) => old(self)@.contains_key(name@) && ({
                    let h = spec_plugin_handle(
                        old(self)@[name@],
                        RequestView { body: body@, query: query@, path: path@, method },
                    );
                    spec_result_bytes(res) == h.0 && final(self)@ == old(self)@.insert(name@, h.1)
                }),
            },
    {
        let i = match self.find_last(name) {
            None => {
                return None;
            },
            Some(i) => i,
        };
        let ghost before = self.entries.deep_view();
        let entry = self.entries.remove(i);
        let (res, plugin) = entry.plugin.handle(body, query, path, method);
        let new_entry = PluginEntry { name: entry.name, plugin };
        self.entries.insert(i, new_entry);
        proof {
            let ghost target = before.update(
                i as int,
                PluginEntryView { name: before[i as int].name, plugin: new_entry.plugin@ },
            );
            assert(self.entries.deep_view() =~= target);
            lemma_plugin_map_update_last(before, i as int, new_entry.plugin@);
        }
        Some(res)
    }
}

} // verus!
