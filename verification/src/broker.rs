//! The secret release orchestrator: one pass per request.
//!
//! A request is authorized against the policy and reference-value
//! snapshot, then routed to the backend its first path segment names. Any
//! failure before authorization succeeds collapses into the one uniform
//! unauthorized error; failures after it are surfaced with their cause.
//! The response says whether its payload must still be wrapped under the
//! caller's session key before it leaves the process; the wrapping itself
//! is the transport's concern.

use vstd::prelude::*;

use crate::claims::{Claims, ComponentClaimsView};
use crate::engine::{authorize, spec_authorized};
use crate::manager::PluginManager;
use crate::plugin::{spec_encrypted, spec_plugin_handle, spec_validate_auth, PluginError,
    PluginView};
use crate::policy::{PolicyBody, PolicyDocumentView, PolicyStore, spec_next_version};
use crate::refvalues::ReferenceValueStore;
use crate::request::{Request, RequestView, spec_split_first_slash, split_first_slash};

verus! {

/// How a request fails. Everything on the way to an authorization grant
/// is the uniform `Unauthorized`; the rest happens after the caller
/// proved entitlement and is surfaced distinctly.
#[derive(Clone, Copy, Debug, PartialEq, Eq, Structural)]
pub enum BrokerError {
    /// The uniform denial: evidence, policy or admin-credential checks
    /// failed, with no detail about which.
    Unauthorized,
    /// No backend is registered under the request's first path segment.
    BackendNotFound,
    /// The backend's own operation failed after authorization succeeded.
    BackendOperation(PluginError),
}

impl BrokerError {
    /// The user-visible error signal. Every denial path shows the same
    /// message, so a caller learns nothing about which check failed.
    pub fn message(&self) -> (r: &'static str)
        ensures
            *self is Unauthorized ==> r@ == "request unauthorized"@,
            *self is BackendNotFound ==> r@ == "backend not found"@,
            *self is BackendOperation ==> r@ == "backend operation failed"@,
    {
        match self {
            BrokerError::Unauthorized => "request unauthorized",
            BrokerError::BackendNotFound => "backend not found",
            BrokerError::BackendOperation(_) => "backend operation failed",
        }
    }
}

/// The broker's answer: the backend's output, and whether it must be
/// encrypted for the caller before leaving the process.
#[derive(Debug, PartialEq, Eq)]
pub struct Response {
    pub payload: Vec<u8>,
    pub needs_encryption: bool,
}

/// Mathematical image of a [`Response`].
#[verifier::ext_equal]
pub struct ResponseView {
    pub payload: Seq<u8>,
    pub needs_encryption: bool,
}

impl View for Response {
    type V = ResponseView;

    open spec fn view(&self) -> ResponseView {
        ResponseView { payload: self.payload@, needs_encryption: self.needs_encryption }
    }
}

/// The image of a request outcome.
pub open spec fn spec_response_result(r: Result<Response, BrokerError>) -> Result<
    ResponseView,
    BrokerError,
> {
    match r {
        Ok(resp) => Ok(resp@),
        Err(e) => Err(e),
    }
}

/// The whole broker, tying the stores and the registry together.
pub struct Broker {
    pub reference_values: ReferenceValueStore,
    pub policies: PolicyStore,
    pub plugins: PluginManager,
}

/// Mathematical image of a [`Broker`].
#[verifier::ext_equal]
pub struct BrokerView {
    pub reference_values: Map<Seq<char>, Seq<Seq<char>>>,
    pub policies: Map<Seq<char>, PolicyDocumentView>,
    pub plugins: Map<Seq<char>, PluginView>,
}

impl View for Broker {
    type V = BrokerView;

    open spec fn view(&self) -> BrokerView {
        BrokerView {
            reference_values: self.reference_values@,
            policies: self.policies@,
            plugins: self.plugins@,
        }
    }
}

/// The one-pass state machine for a request: what the broker answers and
/// what state the backends are left in.
///
/// A denied authorization or a failed admin-credential check answers the
/// uniform unauthorized error and touches no backend. An authorized
/// request is routed to the backend named by the first path segment; only
/// that backend's state changes, and only through its own `handle`.
pub open spec fn spec_handle_request(
    b: BrokerView,
    req: RequestView,
    claims: Seq<ComponentClaimsView>,
    admin_authenticated: bool,
) -> (Result<ResponseView, BrokerError>, Map<Seq<char>, PluginView>) {
    if !spec_authorized(b.policies, b.reference_values, claims) {
        (Err(BrokerError::Unauthorized), b.plugins)
    } else {
        match spec_split_first_slash(req.path) {
            None => (Err(BrokerError::BackendNotFound), b.plugins),
            Some(split) => {
                let name = split.0;
                let inner = RequestView {
                    body: req.body,
                    query: req.query,
                    path: split.1,
                    method: req.method,
                };
                if !b.plugins.contains_key(name) {
                    (Err(BrokerError::BackendNotFound), b.plugins)
                } else {
                    let p = b.plugins[name];
                    if spec_validate_auth(p, inner) && !admin_authenticated {
                        (Err(BrokerError::Unauthorized), b.plugins)
                    } else {
                        let h = spec_plugin_handle(p, inner);
                        let plugins2 = b.plugins.insert(name, h.1);
                        match h.0 {
                            Ok(payload) => (
                                Ok(
                                    ResponseView {
                                        payload,
                                        needs_encryption: spec_encrypted(p, inner),
                                    },
                                ),
                                plugins2,
                            ),
                            Err(e) => (Err(BrokerError::BackendOperation(e)), plugins2),
                        }
                    }
                }
            },
        }
    }
}

impl Broker {
    /// A broker over a constructed backend registry, with fresh stores:
    /// until a resource-access policy is set, every request is denied.
    pub fn new(plugins: PluginManager) -> (r: Broker)
        ensures
            r@.reference_values == Map::<Seq<char>, Seq<Seq<char>>>::empty(),
            r@.policies == Map::<Seq<char>, PolicyDocumentView>::empty(),
            r@.plugins == plugins@,
    {
        Broker {
            reference_values: ReferenceValueStore::new(),
            policies: PolicyStore::new(),
            plugins,
        }
    }

    /// Registers the accepted values for a reference-value name.
    pub fn register_reference_values(&mut self, name: String, values: Vec<String>)
        ensures
            final(self)@.reference_values == old(self)@.reference_values.insert(
                name@,
                values.deep_view(),
            ),
            final(self)@.policies == old(self)@.policies,
            final(self)@.plugins == old(self)@.plugins,
    {
        self.reference_values.register(name, values);
    }

    /// Installs `body` as the current policy of `category`.
    pub fn set_policy(&mut self, category: String, body: PolicyBody)
        requires
            old(self)@.policies.contains_key(category@) ==> old(
                self,
            )@.policies[category@].version < u64::MAX,
        ensures
            final(self)@.policies == old(self)@.policies.insert(
                category@,
                PolicyDocumentView {
                    version: spec_next_version(old(self)@.policies, category@),
                    body: body@,
                },
            ),
            final(self)@.reference_values == old(self)@.reference_values,
            final(self)@.plugins == old(self)@.plugins,
    {
        self.policies.set_policy(category, body);
    }

    /// Runs one request through the pipeline, exactly as
    /// [`spec_handle_request`] says: authorize, resolve the backend,
    /// check its admin-credential capability, dispatch, and mark the
    /// output for encryption if the backend requires it.
    pub fn handle_request(
        &mut self,
        req: &Request,
        claims: Claims,
        admin_authenticated: bool,
    ) -> (r: Result<Response, BrokerError>)
        ensures
            ({
                let h = spec_handle_request(old(self)@, req@, claims@, admin_authenticated);
                spec_response_result(r) == h.0 && final(self)@.plugins == h.1
            }),
            final(self)@.reference_values == old(self)@.reference_values,
            final(self)@.policies == old(self)@.policies,
    {
        let decision = authorize(&self.policies, &self.reference_values, claims);
        if !decision.allow {
            return Err(BrokerError::Unauthorized);
        }
        let (name, inner_path) = match split_first_slash(req.path.as_str()) {
            None => {
                return Err(BrokerError::BackendNotFound);
            },
            Some(p) => p,
        };
        let (needs_admin, needs_encryption) = match self.plugins.get(name.as_str()) {
            None => {
                return Err(BrokerError::BackendNotFound);
            },
            Some(p) => (
                p.validate_auth(
                    req.body.as_slice(),
                    req.query.as_str(),
                    inner_path.as_str(),
                    req.method,
                ),
                p.encrypted(
                    req.body.as_slice(),
                    req.query.as_str(),
                    inner_path.as_str(),
                    req.method,
                ),
            ),
        };
        if needs_admin && !admin_authenticated {
            return Err(BrokerError::Unauthorized);
        }
        match self.plugins.dispatch(
            name.as_str(),
            req.body.as_slice(),
            req.query.as_str(),
            inner_path.as_str(),
            req.method,
        ) {
            None => {
                proof {
                    assert(false);
                }
                Err(BrokerError::BackendNotFound)
            },
            Some(res) => match res {
                Ok(payload) => Ok(Response { payload, needs_encryption }),
                Err(e) => Err(BrokerError::BackendOperation(e)),
            },
        }
    }
}

} // verus!
