//! Unit tests of the broker's components: stores, claims, path parsing,
//! the engine and the registry.

use kbs::claims::{Claims, ComponentClaims, Fact, Status};
use kbs::engine::{authorize, rule_passes, Reason};
use kbs::manager::{PluginManager, PluginsConfig};
use kbs::plugin::{PluginBuildError, RepositoryConfig, SampleConfig, ResourceStorage};
use kbs::policy::{DevicePolicy, PolicyBody, PolicyStore, Rule};
use kbs::refvalues::ReferenceValueStore;
use kbs::request::{parse_resource_path, split_first_slash, ResourcePath};

fn claims_with(component: &str, status: Status, facts: &[(&str, &str)]) -> Claims {
    Claims {
        components: vec![ComponentClaims {
            component: component.to_string(),
            status,
            facts: facts
                .iter()
                .map(|(n, v)| Fact { name: n.to_string(), value: v.to_string() })
                .collect(),
        }],
    }
}

#[test]
fn reference_store_lookup_and_overwrite() {
    let mut store = ReferenceValueStore::new();
    assert!(store.lookup(&"svn".to_string()).is_none());
    store.register("svn".to_string(), vec!["1".to_string(), "2".to_string()]);
    let values = store.lookup(&"svn".to_string()).unwrap();
    assert_eq!(values.len(), 2);
    assert_eq!(values[0], "1");
    store.register("svn".to_string(), vec!["3".to_string()]);
    let values = store.lookup(&"svn".to_string()).unwrap();
    assert_eq!(values.len(), 1);
    assert_eq!(values[0], "3");
}

#[test]
fn unregistered_reference_name_accepts_nothing() {
    let store = ReferenceValueStore::new();
    assert!(!store.accepts(&"svn".to_string(), &"1".to_string()));
}

#[test]
fn accepted_value_matches_only_registered_set() {
    let mut store = ReferenceValueStore::new();
    store.register("svn".to_string(), vec!["1".to_string(), "2".to_string()]);
    assert!(store.accepts(&"svn".to_string(), &"2".to_string()));
    assert!(!store.accepts(&"svn".to_string(), &"3".to_string()));
}

#[test]
fn policy_versions_increase_monotonically() {
    let mut store = PolicyStore::new();
    assert!(store.get_current(&"resource".to_string()).is_none());
    store.set_policy("resource".to_string(), PolicyBody::Resource(vec![]));
    assert_eq!(store.get_current(&"resource".to_string()).unwrap().version, 1);
    store.set_policy(
        "resource".to_string(),
        PolicyBody::Resource(vec![Rule::DenyAll]),
    );
    assert_eq!(store.get_current(&"resource".to_string()).unwrap().version, 2);
    assert!(store.get_current(&"gpu0".to_string()).is_none());
}

#[test]
fn claims_lookups_find_components_and_facts() {
    let claims = claims_with("cpu0", Status::Affirming, &[("svn", "1")]);
    let c = claims.component(&"cpu0".to_string()).unwrap();
    assert_eq!(c.fact_value(&"svn".to_string()).unwrap(), "1");
    assert!(c.fact_value(&"other".to_string()).is_none());
    assert!(claims.component(&"gpu0".to_string()).is_none());
}

#[test]
fn split_first_slash_splits_at_first_slash_only() {
    let (head, tail) = split_first_slash("resource/default/test/secret").unwrap();
    assert_eq!(head, "resource");
    assert_eq!(tail, "default/test/secret");
    assert!(split_first_slash("noslash").is_none());
}

#[test]
fn resource_paths_have_three_nonempty_segments() {
    let p = parse_resource_path("default/test/secret").unwrap();
    assert_eq!(p.repository, "default");
    assert_eq!(p.kind, "test");
    assert_eq!(p.tag, "secret");
    assert!(parse_resource_path("only/two").is_none());
    assert!(parse_resource_path("a//c").is_none());
    assert!(parse_resource_path("a/b/").is_none());
    assert!(parse_resource_path("a/b/c/d").is_none());
}

#[test]
fn split_with_leading_slash_gives_empty_head() {
    let (head, tail) = split_first_slash("/abc").unwrap();
    assert_eq!(head, "");
    assert_eq!(tail, "abc");
}

#[test]
fn policy_versions_are_independent_per_category() {
    let mut store = PolicyStore::new();
    store.set_policy("resource".to_string(), PolicyBody::Resource(vec![]));
    store.set_policy("resource".to_string(), PolicyBody::Resource(vec![]));
    store.set_policy(
        "gpu0".to_string(),
        PolicyBody::Component(DevicePolicy {
            fact: "svn".to_string(),
            reference: "device_svn".to_string(),
            derived_fact: "hardware".to_string(),
            trusted_value: "trusted".to_string(),
            untrusted_value: "97".to_string(),
        }),
    );
    assert_eq!(store.get_current(&"resource".to_string()).unwrap().version, 2);
    assert_eq!(store.get_current(&"gpu0".to_string()).unwrap().version, 1);
}

#[test]
fn derived_fact_takes_precedence_over_reported_fact() {
    let mut policies = PolicyStore::new();
    policies.set_policy(
        "gpu0".to_string(),
        PolicyBody::Component(DevicePolicy {
            fact: "svn".to_string(),
            reference: "device_svn".to_string(),
            derived_fact: "hardware".to_string(),
            trusted_value: "trusted".to_string(),
            untrusted_value: "97".to_string(),
        }),
    );
    policies.set_policy(
        "resource".to_string(),
        PolicyBody::Resource(vec![Rule::FactEquals {
            component: "gpu0".to_string(),
            fact: "hardware".to_string(),
            value: "trusted".to_string(),
        }]),
    );
    let rv = ReferenceValueStore::new();
    // The evidence claims a trusted device, but the registered reference
    // values accept nothing, so the derived fact says untrusted and must
    // shadow the reported one.
    let claims = claims_with(
        "gpu0",
        Status::Affirming,
        &[("svn", "2"), ("hardware", "trusted")],
    );
    let d = authorize(&policies, &rv, claims);
    assert!(!d.allow);
    assert_eq!(d.reason, Reason::PolicyRejected);
}

#[test]
fn secret_storage_last_write_wins() {
    let mut storage = ResourceStorage::try_from(RepositoryConfig {}).unwrap();
    let path = ResourcePath {
        repository: "default".to_string(),
        kind: "test".to_string(),
        tag: "secret".to_string(),
    };
    assert!(storage.get_secret(&path).is_none());
    storage.set_secret(
        ResourcePath {
            repository: "default".to_string(),
            kind: "test".to_string(),
            tag: "secret".to_string(),
        },
        b"one".to_vec(),
    );
    storage.set_secret(
        ResourcePath {
            repository: "default".to_string(),
            kind: "test".to_string(),
            tag: "secret".to_string(),
        },
        b"two".to_vec(),
    );
    assert_eq!(storage.get_secret(&path).unwrap(), &b"two".to_vec());
}

#[test]
fn empty_sample_payload_fails_construction() {
    let r = PluginManager::try_from(vec![PluginsConfig::Sample(SampleConfig {
        payload: Vec::new(),
    })]);
    assert_eq!(r.err().unwrap(), PluginBuildError::EmptySamplePayload);
}

#[test]
fn registry_knows_its_backends_by_name() {
    let manager = PluginManager::try_from(vec![
        PluginsConfig::Sample(SampleConfig { payload: b"x".to_vec() }),
        PluginsConfig::ResourceStorage(RepositoryConfig {}),
    ])
    .unwrap();
    assert!(manager.get("sample").is_some());
    assert!(manager.get("resource").is_some());
    assert!(manager.get("nebula-ca").is_none());
}

#[test]
fn authorize_reports_missing_policy() {
    let policies = PolicyStore::new();
    let rv = ReferenceValueStore::new();
    let d = authorize(&policies, &rv, claims_with("cpu0", Status::Affirming, &[]));
    assert!(!d.allow);
    assert_eq!(d.reason, Reason::PolicyNotFound);
}

#[test]
fn authorize_rejects_component_policy_in_resource_category() {
    let mut policies = PolicyStore::new();
    policies.set_policy(
        "resource".to_string(),
        PolicyBody::Component(DevicePolicy {
            fact: "svn".to_string(),
            reference: "device_svn".to_string(),
            derived_fact: "hardware".to_string(),
            trusted_value: "trusted".to_string(),
            untrusted_value: "97".to_string(),
        }),
    );
    let rv = ReferenceValueStore::new();
    let d = authorize(&policies, &rv, claims_with("cpu0", Status::Affirming, &[]));
    assert!(!d.allow);
    assert_eq!(d.reason, Reason::PolicyEvaluation);
}

#[test]
fn authorize_grants_and_rejects_by_rules() {
    let mut policies = PolicyStore::new();
    policies.set_policy(
        "resource".to_string(),
        PolicyBody::Resource(vec![Rule::StatusNotContraindicated {
            component: "cpu0".to_string(),
        }]),
    );
    let rv = ReferenceValueStore::new();
    let granted = authorize(&policies, &rv, claims_with("cpu0", Status::Warning, &[]));
    assert!(granted.allow);
    assert_eq!(granted.reason, Reason::Granted);
    let denied = authorize(
        &policies,
        &rv,
        claims_with("cpu0", Status::Contraindicated, &[]),
    );
    assert!(!denied.allow);
    assert_eq!(denied.reason, Reason::PolicyRejected);
}

#[test]
fn rule_referring_to_missing_component_fails_closed() {
    let rv = ReferenceValueStore::new();
    let claims = claims_with("cpu0", Status::Affirming, &[]);
    let rule = Rule::StatusNotContraindicated { component: "gpu0".to_string() };
    assert!(!rule_passes(&rule, &claims, &rv));
}

#[test]
fn fact_equals_rule_checks_the_value() {
    let rv = ReferenceValueStore::new();
    let claims = claims_with("cpu0", Status::Affirming, &[("svn", "1")]);
    let matching = Rule::FactEquals {
        component: "cpu0".to_string(),
        fact: "svn".to_string(),
        value: "1".to_string(),
    };
    let differing = Rule::FactEquals {
        component: "cpu0".to_string(),
        fact: "svn".to_string(),
        value: "2".to_string(),
    };
    assert!(rule_passes(&matching, &claims, &rv));
    assert!(!rule_passes(&differing, &claims, &rv));
}
