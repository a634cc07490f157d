//! The backends: pluggable handlers behind one capability contract.
//!
//! Every backend answers three capability queries about a request: whether
//! it needs administrative credentials, whether its output must be
//! encrypted for the caller, and the operation itself. The broker invokes
//! a backend only after the authorization engine has allowed the request.

use vstd::prelude::*;
use vstd::slice::slice_to_vec;

use crate::request::{Method, RequestView, ResourcePath, ResourcePathView, parse_resource_path,
    spec_parse_resource_path};

verus! {

/// An operational backend failure, reported after authorization succeeded
/// and therefore surfaced with its cause.
#[derive(Clone, Copy, Debug, PartialEq, Eq, Structural)]
pub enum PluginError {
    /// The backend path is not a three-segment resource identifier.
    MalformedPath,
    /// No secret is stored under the requested resource identifier.
    ResourceNotFound,
}

/// A backend construction failure: the configuration of a variant was
/// invalid at startup.
#[derive(Clone, Copy, Debug, PartialEq, Eq, Structural)]
pub enum PluginBuildError {
    /// A sample backend was configured with an empty payload.
    EmptySamplePayload,
}

/// Configuration of the sample backend: the fixed payload it serves.
pub struct SampleConfig {
    pub payload: Vec<u8>,
}

impl View for SampleConfig {
    type V = Seq<u8>;

    open spec fn view(&self) -> Seq<u8> {
        self.payload@
    }
}

/// The sample backend: serves one fixed payload, needs no admin
/// credentials and no response encryption.
pub struct Sample {
    pub payload: Vec<u8>,
}

impl View for Sample {
    type V = Seq<u8>;

    open spec fn view(&self) -> Seq<u8> {
        self.payload@
    }
}

impl Sample {
    /// Builds the sample backend; an empty payload is invalid
    /// configuration.
    pub fn try_from(config: SampleConfig) -> (r: Result<Sample, PluginBuildError>)
        ensures
            match r {
                Ok(s) => config@.len() > 0 && s@ == config@,
                Err(e) => config@.len() == 0 && e == PluginBuildError::EmptySamplePayload,
            },
    {
        if config.payload.len() == 0 {
            Err(PluginBuildError::EmptySamplePayload)
        } else {
            Ok(Sample { payload: config.payload })
        }
    }
}

/// Configuration of the resource backend. The in-memory repository needs
/// no parameters.
pub struct RepositoryConfig {}

/// One stored secret: a resource identifier and its bytes.
pub struct SecretEntry {
    pub path: ResourcePath,
    pub value: Vec<u8>,
}

/// Mathematical image of a [`SecretEntry`].
pub struct SecretEntryView {
    pub path: ResourcePathView,
    pub value: Seq<u8>,
}

impl View for SecretEntry {
    type V = SecretEntryView;

    open spec fn view(&self) -> SecretEntryView {
        SecretEntryView { path: self.path@, value: self.value@ }
    }
}

impl DeepView for SecretEntry {
    type V = SecretEntryView;

    open spec fn deep_view(&self) -> SecretEntryView {
        self@
    }
}

/// The map that a sequence of stored secrets denotes: last write wins.
pub open spec fn spec_secret_map(entries: Seq<SecretEntryView>) -> Map<ResourcePathView, Seq<u8>>
    decreases entries.len(),
{
    if entries.len() == 0 {
        Map::empty()
    } else {
        spec_secret_map(entries.drop_last()).insert(entries.last().path, entries.last().value)
    }
}

/// The resource backend: an in-memory secret repository addressed by
/// three-segment resource identifiers. Writes need admin credentials;
/// reads are encrypted for the caller.
pub struct ResourceStorage {
    pub entries: Vec<SecretEntry>,
}

impl View for ResourceStorage {
    type V = Map<ResourcePathView, Seq<u8>>;

    open spec fn view(&self) -> Map<ResourcePathView, Seq<u8>> {
        spec_secret_map(self.entries.deep_view())
    }
}

impl ResourceStorage {
    /// Builds the resource backend with an empty repository.
    pub fn try_from(config: RepositoryConfig) -> (r: Result<ResourceStorage, PluginBuildError>)
        ensures
            match r {
                Ok(s) => s@ == Map::<ResourcePathView, Seq<u8>>::empty(),
                Err(_) => false,
            },
    {
        let _ = config;
        let r = ResourceStorage { entries: Vec::new() };
        proof {
            assert(r.entries.deep_view() =~= Seq::<SecretEntryView>::empty());
        }
        Ok(r)
    }

    /// Stores `value` under `path`, replacing an earlier secret there:
    /// last write wins.
    pub fn set_secret(&mut self, path: ResourcePath, value: Vec<u8>)
        ensures
            final(self)@ == old(self)@.insert(path@, value@),
    {
        let ghost before = self.entries.deep_view();
        self.entries.push(SecretEntry { path, value });
        proof {
            assert(self.entries.deep_view().drop_last() =~= before);
        }
    }

    /// The secret currently stored under `path`, if any.
    pub fn get_secret(&self, path: &ResourcePath) -> (r: Option<&Vec<u8>>)
        ensures
            match r {
                Some(v) => self@.contains_key(path@) && self@[path@] == v@,
                None => !self@.contains_key(path@),
            },
    {
        let ghost full = self.entries.deep_view();
        let mut i = self.entries.len();
        proof {
            assert(full.take(i as int) =~= full);
        }
        while i > 0
            invariant
                i <= self.entries.len(),
                full == self.entries.deep_view(),
                self@.contains_key(path@) <==> spec_secret_map(full.take(i as int)).contains_key(
                    path@,
                ),
                self@.contains_key(path@) ==> self@[path@] == spec_secret_map(
                    full.take(i as int),
                )[path@],
            decreases i,
        {
            i = i - 1;
            proof {
                assert(full.take(i + 1).drop_last() =~= full.take(i as int));
                assert(full.take(i + 1).last() == full[i as int]);
            }
            let e = &self.entries[i];
            if e.path.repository.eq(&path.repository) && e.path.kind.eq(&path.kind)
                && e.path.tag.eq(&path.tag) {
                proof {
                    assert(e.path@ =~= path@);
                }
                return Some(&self.entries[i].value);
            }
            proof {
                assert(full[i as int].path != path@);
            }
        }
        None
    }
}

/// A constructed backend instance: the closed set of variants the broker
/// can dispatch to.
pub enum Plugin {
    Sample(Sample),
    ResourceStorage(ResourceStorage),
}

/// Mathematical image of a [`Plugin`]: the sample payload, or the stored
/// secrets.
pub enum PluginView {
    Sample(Seq<u8>),
    ResourceStorage(Map<ResourcePathView, Seq<u8>>),
}

impl View for Plugin {
    type V = PluginView;

    open spec fn view(&self) -> PluginView {
        match self {
            Plugin::Sample(s) => PluginView::Sample(s@),
            Plugin::ResourceStorage(s) => PluginView::ResourceStorage(s@),
        }
    }
}

/// Whether the backend requires administrative credentials for this
/// request: the resource backend does for writes.
pub open spec fn spec_validate_auth(p: PluginView, req: RequestView) -> bool {
    match p {
        PluginView::Sample(_) => false,
        PluginView::ResourceStorage(_) => req.method is Post,
    }
}

/// Whether the backend's output must be encrypted for the caller: secret
/// reads must be.
pub open spec fn spec_encrypted(p: PluginView, req: RequestView) -> bool {
    match p {
        PluginView::Sample(_) => false,
        PluginView::ResourceStorage(_) => req.method is Get,
    }
}

/// What a backend's operation returns and what state it leaves behind.
pub open spec fn spec_plugin_handle(p: PluginView, req: RequestView) -> (Result<
    Seq<u8>,
    PluginError,
>, PluginView) {
    match p {
        PluginView::Sample(payload) => (Ok(payload), p),
        PluginView::ResourceStorage(m) => match spec_parse_resource_path(req.path) {
            None => (Err(PluginError::MalformedPath), p),
            Some(rp) => match req.method {
                Method::Get => if m.contains_key(rp) {
                    (Ok(m[rp]), p)
                } else {
                    (Err(PluginError::ResourceNotFound), p)
                },
                Method::Post => (
                    Ok(Seq::empty()),
                    PluginView::ResourceStorage(m.insert(rp, req.body)),
                ),
            },
        },
    }
}

/// The image of a backend operation result.
pub open spec fn spec_result_bytes(r: Result<Vec<u8>, PluginError>) -> Result<
    Seq<u8>,
    PluginError,
> {
    match r {
        Ok(v) => Ok(v@),
        Err(e) => Err(e),
    }
}

impl Plugin {
    /// Capability query: does this request need admin credentials first?
    pub fn validate_auth(&self, body: &[u8], query: &str, path: &str, method: Method) -> (r:
        bool)
        ensures
            r == spec_validate_auth(
                self@,
                RequestView { body: body@, query: query@, path: path@, method },
            ),
    {
        let _ = body;
        let _ = query;
        let _ = path;
        match self {
            Plugin::Sample(_) => false,
            Plugin::ResourceStorage(_) => matches!(method, Method::Post),
        }
    }

    /// Capability query: must the response be encrypted for the caller?
    pub fn encrypted(&self, body: &[u8], query: &str, path: &str, method: Method) -> (r: bool)
        ensures
            r == spec_encrypted(
                self@,
                RequestView { body: body@, query: query@, path: path@, method },
            ),
    {
        let _ = body;
        let _ = query;
        let _ = path;
        match self {
            Plugin::Sample(_) => false,
            Plugin::ResourceStorage(_) => matches!(method, Method::Get),
        }
    }

    /// Performs the backend operation, returning the output bytes and the
    /// backend's next state.
    pub fn handle(self, body: &[u8], query: &str, path: &str, method: Method) -> (r: (Result<
        Vec<u8>,
        PluginError,
    >, Plugin))
        ensures
            (spec_result_bytes(r.0), r.1@) == spec_plugin_handle(
                self@,
                RequestView { body: body@, query: query@, path: path@, method },
            ),
    {
        let _ = query;
        match self {
            Plugin::Sample(s) => {
                let out = slice_to_vec(s.payload.as_slice());
                (Ok(out), Plugin::Sample(s))
            },
            Plugin::ResourceStorage(mut s) => match parse_resource_path(path) {
                None => (Err(PluginError::MalformedPath), Plugin::ResourceStorage(s)),
                Some(rp) => match method {
                    Method::Get => match s.get_secret(&rp) {
                        Some(v) => {
                            let out = slice_to_vec(v.as_slice());
                            (Ok(out), Plugin::ResourceStorage(s))
                        },
                        None => (Err(PluginError::ResourceNotFound), Plugin::ResourceStorage(s)),
                    },
                    Method::Post => {
                        let value = slice_to_vec(body);
                        s.set_secret(rp, value);
                        (Ok(Vec::new()), Plugin::ResourceStorage(s))
                    },
                },
            },
        }
    }
}

} // verus!
