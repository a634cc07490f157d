//! End-to-end scenarios through the broker pipeline.

use kbs::broker::{Broker, BrokerError};
use kbs::claims::{Claims, ComponentClaims, Fact, Status};
use kbs::manager::{PluginManager, PluginsConfig};
use kbs::plugin::{PluginError, RepositoryConfig, SampleConfig};
use kbs::policy::{DevicePolicy, PolicyBody, Rule};
use kbs::request::{Method, Request};

fn component(name: &str, status: Status, facts: &[(&str, &str)]) -> ComponentClaims {
    ComponentClaims {
        component: name.to_string(),
        status,
        facts: facts
            .iter()
            .map(|(n, v)| Fact { name: n.to_string(), value: v.to_string() })
            .collect(),
    }
}

fn cpu_claims(status: Status) -> Claims {
    Claims {
        components: vec![component(
            "cpu0",
            status,
            &[("svn", "1"), ("launch_digest", "abcde")],
        )],
    }
}

fn get_request(path: &str) -> Request {
    Request {
        body: Vec::new(),
        query: String::new(),
        path: path.to_string(),
        method: Method::Get,
    }
}

fn post_request(path: &str, body: &[u8]) -> Request {
    Request {
        body: body.to_vec(),
        query: String::new(),
        path: path.to_string(),
        method: Method::Post,
    }
}

/// A broker with the resource backend, an allow-all resource policy, and
/// the secret `default/test/secret` stored.
fn broker_with_secret() -> Broker {
    let manager =
        PluginManager::try_from(vec![PluginsConfig::ResourceStorage(RepositoryConfig {})])
            .unwrap();
    let mut broker = Broker::new(manager);
    broker.set_policy("resource".to_string(), PolicyBody::Resource(vec![]));
    let stored = broker.handle_request(
        &post_request("resource/default/test/secret", b"shhhhhhh"),
        cpu_claims(Status::Affirming),
        true,
    );
    assert!(stored.is_ok());
    broker
}

#[test]
fn allow_all_releases_secret() {
    let mut broker = broker_with_secret();
    let r = broker
        .handle_request(
            &get_request("resource/default/test/secret"),
            cpu_claims(Status::Warning),
            false,
        )
        .unwrap();
    assert_eq!(r.payload, b"shhhhhhh".to_vec());
    assert!(r.needs_encryption);
}

#[test]
fn deny_all_rejects_any_evidence() {
    let mut broker = broker_with_secret();
    broker.set_policy(
        "resource".to_string(),
        PolicyBody::Resource(vec![Rule::DenyAll]),
    );
    let r = broker.handle_request(
        &get_request("resource/default/test/secret"),
        cpu_claims(Status::Affirming),
        false,
    );
    assert_eq!(r, Err(BrokerError::Unauthorized));
    assert_eq!(
        BrokerError::Unauthorized.message(),
        "request unauthorized"
    );
}

#[test]
fn contraindicated_status_denies() {
    let mut broker = broker_with_secret();
    broker.register_reference_values("svn".to_string(), vec!["1".to_string()]);
    broker.register_reference_values("launch_digest".to_string(), vec!["abcde".to_string()]);
    broker.set_policy(
        "resource".to_string(),
        PolicyBody::Resource(vec![
            Rule::StatusNotContraindicated { component: "cpu0".to_string() },
            Rule::FactInReference {
                component: "cpu0".to_string(),
                fact: "svn".to_string(),
                reference: "svn".to_string(),
            },
            Rule::FactInReference {
                component: "cpu0".to_string(),
                fact: "launch_digest".to_string(),
                reference: "launch_digest".to_string(),
            },
        ]),
    );
    let denied = broker.handle_request(
        &get_request("resource/default/test/secret"),
        cpu_claims(Status::Contraindicated),
        false,
    );
    assert_eq!(denied, Err(BrokerError::Unauthorized));

    let allowed = broker
        .handle_request(
            &get_request("resource/default/test/secret"),
            cpu_claims(Status::Affirming),
            false,
        )
        .unwrap();
    assert_eq!(allowed.payload, b"shhhhhhh".to_vec());
}

fn device_broker() -> Broker {
    let mut broker = broker_with_secret();
    broker.register_reference_values("device_svn".to_string(), vec!["2".to_string()]);
    broker.set_policy(
        "gpu0".to_string(),
        PolicyBody::Component(DevicePolicy {
            fact: "svn".to_string(),
            reference: "device_svn".to_string(),
            derived_fact: "hardware".to_string(),
            trusted_value: "trusted".to_string(),
            untrusted_value: "97".to_string(),
        }),
    );
    broker.set_policy(
        "resource".to_string(),
        PolicyBody::Resource(vec![
            Rule::StatusNotContraindicated { component: "gpu0".to_string() },
            Rule::FactEquals {
                component: "gpu0".to_string(),
                fact: "hardware".to_string(),
                value: "trusted".to_string(),
            },
        ]),
    );
    broker
}

fn device_claims(svn: &str) -> Claims {
    Claims {
        components: vec![
            component("cpu0", Status::Affirming, &[("svn", "1")]),
            component("gpu0", Status::Affirming, &[("svn", svn)]),
        ],
    }
}

#[test]
fn layered_device_policy_trusted_svn_allows() {
    let mut broker = device_broker();
    let r = broker
        .handle_request(
            &get_request("resource/default/test/secret"),
            device_claims("2"),
            false,
        )
        .unwrap();
    assert_eq!(r.payload, b"shhhhhhh".to_vec());
}

#[test]
fn layered_device_policy_untrusted_svn_denies() {
    let mut broker = device_broker();
    let r = broker.handle_request(
        &get_request("resource/default/test/secret"),
        device_claims("3"),
        false,
    );
    assert_eq!(r, Err(BrokerError::Unauthorized));
}

#[test]
fn fresh_system_denies_by_default() {
    let manager =
        PluginManager::try_from(vec![PluginsConfig::ResourceStorage(RepositoryConfig {})])
            .unwrap();
    let mut broker = Broker::new(manager);
    let r = broker.handle_request(
        &get_request("resource/default/test/secret"),
        cpu_claims(Status::Affirming),
        true,
    );
    assert_eq!(r, Err(BrokerError::Unauthorized));
}

#[test]
fn registering_twice_yields_same_decision() {
    let make = |registrations: usize| -> Result<kbs::broker::Response, BrokerError> {
        let mut broker = broker_with_secret();
        broker.set_policy(
            "resource".to_string(),
            PolicyBody::Resource(vec![Rule::FactInReference {
                component: "cpu0".to_string(),
                fact: "svn".to_string(),
                reference: "svn".to_string(),
            }]),
        );
        for _ in 0..registrations {
            broker.register_reference_values("svn".to_string(), vec!["1".to_string()]);
        }
        broker.handle_request(
            &get_request("resource/default/test/secret"),
            cpu_claims(Status::Affirming),
            false,
        )
    };
    let once = make(1);
    let twice = make(2);
    assert_eq!(once.unwrap().payload, twice.unwrap().payload);
}

#[test]
fn write_without_admin_credentials_is_unauthorized() {
    let mut broker = broker_with_secret();
    let r = broker.handle_request(
        &post_request("resource/default/test/secret", b"other"),
        cpu_claims(Status::Affirming),
        false,
    );
    assert_eq!(r, Err(BrokerError::Unauthorized));
}

#[test]
fn unknown_backend_is_reported_distinctly() {
    let mut broker = broker_with_secret();
    let r = broker.handle_request(
        &get_request("missing/default/test/secret"),
        cpu_claims(Status::Affirming),
        false,
    );
    assert_eq!(r, Err(BrokerError::BackendNotFound));
}

#[test]
fn missing_secret_is_an_operational_error() {
    let mut broker = broker_with_secret();
    let r = broker.handle_request(
        &get_request("resource/default/test/other"),
        cpu_claims(Status::Affirming),
        false,
    );
    assert_eq!(
        r,
        Err(BrokerError::BackendOperation(PluginError::ResourceNotFound))
    );
}

#[test]
fn malformed_resource_path_is_an_operational_error() {
    let mut broker = broker_with_secret();
    let r = broker.handle_request(
        &get_request("resource/justone"),
        cpu_claims(Status::Affirming),
        false,
    );
    assert_eq!(
        r,
        Err(BrokerError::BackendOperation(PluginError::MalformedPath))
    );
}

#[test]
fn last_write_wins_for_secrets() {
    let mut broker = broker_with_secret();
    let stored = broker.handle_request(
        &post_request("resource/default/test/secret", b"newer"),
        cpu_claims(Status::Affirming),
        true,
    );
    assert!(stored.is_ok());
    let r = broker
        .handle_request(
            &get_request("resource/default/test/secret"),
            cpu_claims(Status::Affirming),
            false,
        )
        .unwrap();
    assert_eq!(r.payload, b"newer".to_vec());
}

#[test]
fn sample_backend_serves_its_payload_unencrypted() {
    let manager = PluginManager::try_from(vec![PluginsConfig::Sample(SampleConfig {
        payload: b"sample data".to_vec(),
    })])
    .unwrap();
    let mut broker = Broker::new(manager);
    broker.set_policy("resource".to_string(), PolicyBody::Resource(vec![]));
    let r = broker
        .handle_request(&get_request("sample/anything"), cpu_claims(Status::Affirming), false)
        .unwrap();
    assert_eq!(r.payload, b"sample data".to_vec());
    assert!(!r.needs_encryption);
}

#[test]
fn duplicate_backend_names_last_registration_wins() {
    let manager = PluginManager::try_from(vec![
        PluginsConfig::Sample(SampleConfig { payload: b"first".to_vec() }),
        PluginsConfig::Sample(SampleConfig { payload: b"second".to_vec() }),
    ])
    .unwrap();
    let mut broker = Broker::new(manager);
    broker.set_policy("resource".to_string(), PolicyBody::Resource(vec![]));
    let r = broker
        .handle_request(&get_request("sample/x"), cpu_claims(Status::Affirming), false)
        .unwrap();
    assert_eq!(r.payload, b"second".to_vec());
}
