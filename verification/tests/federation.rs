use gitp2p::discovery::{
    cache_record, discover_domains, discover_gateways, discover_replicas, discover_vaults,
    entry_from_cache, DiscoveryEntry,
};
use gitp2p::kv::KvFields;
use gitp2p::layout::write_exchange_manifest;
use gitp2p::models::{FederationDomain, Gateway, Peering, Vault};
use gitp2p::reconciliation::{reconcile_import, record_reconciliation};
use gitp2p::models::Repo;
use gitp2p::peering::connect_domains;
use gitp2p::error::AppError;

fn kv(items: &[(&str, &str)]) -> KvFields {
    items.iter().map(|(k, v)| (k.to_string(), v.to_string())).collect()
}

fn domain(id: &str) -> FederationDomain {
    FederationDomain {
        id: id.into(),
        name: id.into(),
        owner_peer_id: "peer-a".into(),
        trust_policy: "local".into(),
        routing_policy: "direct".into(),
        peering_policy: "open".into(),
        created_at: "1".into(),
        signature: String::new(),
        signed_by: String::new(),
        signed_at: String::new(),
    }
}

fn peering(remote: &str, state: &str) -> Peering {
    Peering {
        id: format!("peer-{remote}"),
        local_domain_id: "domain-a".into(),
        remote_domain_id: remote.into(),
        local_gateway_id: "gw-a".into(),
        remote_gateway_id: "gw-b".into(),
        state: state.into(),
        created_at: "2".into(),
        signature: "sig".into(),
        signed_by: "peer-a".into(),
        signed_at: "3".into(),
    }
}

fn gateway(id: &str) -> Gateway {
    Gateway {
        id: id.into(),
        domain_id: "domain-a".into(),
        listen_addr: "127.0.0.1".into(),
        listen_port: 8443,
        state: "active".into(),
        created_at: "1".into(),
        signature: String::new(),
        signed_by: String::new(),
        signed_at: String::new(),
    }
}

fn vault(id: &str) -> Vault {
    Vault { id: id.into(), name: id.into(), path: format!("/v/{id}"), created_at: "1".into() }
}

#[test]
fn peered_domains_are_discovered_once_in_id_order() {
    let local = vec![domain("domain-b"), domain("domain-a")];
    let peerings = vec![peering("domain-c", "active"), peering("domain-a", "active"), peering("domain-z", "revoked")];
    let found = discover_domains(local, &peerings);
    let ids: Vec<&str> = found.found.iter().map(|d| d.id.as_str()).collect();
    assert_eq!(ids, vec!["domain-a", "domain-b", "domain-c"]);
    assert_eq!(found.found[0].trust_policy, "local");
    assert_eq!(found.found[2].trust_policy, "remote");
    assert_eq!(found.found[2].peering_policy, "peered");
    assert_eq!(found.cache.len(), 2);
    assert_eq!(found.cache[0].id, "domain-c");
    assert_eq!(found.cache[0].kind, "domains");
    assert_eq!(found.cache[0].source, "peering");
}

#[test]
fn exchanged_gateways_join_local_ones() {
    let local = vec![gateway("gw-b"), gateway("gw-a")];
    let exchanged = vec![vec!["gw-c".to_string(), String::new(), "gw-a".to_string()]];
    let found = discover_gateways(local, &exchanged, "50");
    let ids: Vec<&str> = found.found.iter().map(|g| g.id.as_str()).collect();
    assert_eq!(ids, vec!["gw-a", "gw-b", "gw-c"]);
    assert_eq!(found.found[0].state, "active");
    assert_eq!(found.found[2].state, "discovered");
    assert_eq!(found.found[2].created_at, "50");
    let cache: Vec<(&str, &str)> = found.cache.iter().map(|e| (e.id.as_str(), e.source.as_str())).collect();
    assert_eq!(cache, vec![("gw-b", "local"), ("gw-c", "exchange"), ("gw-a", "exchange"), ("gw-a", "local")]);
}

#[test]
fn local_vaults_win_over_cached_ones() {
    let cached = vec![
        DiscoveryEntry { id: "vault-2".into(), kind: "vaults".into(), source: "local".into() },
        DiscoveryEntry { id: "vault-0".into(), kind: "vaults".into(), source: "local".into() },
    ];
    let found = discover_vaults(&vec![vault("vault-2"), vault("vault-1")], cached);
    let rows: Vec<(&str, &str)> = found.found.iter().map(|e| (e.id.as_str(), e.kind.as_str())).collect();
    assert_eq!(rows, vec![("vault-0", "vaults"), ("vault-1", "vault"), ("vault-2", "vault")]);
    assert_eq!(found.cache.len(), 2);
}

#[test]
fn replicas_come_from_records_and_peerings() {
    let records = vec![
        kv(&[("peer_id", "peer-b"), ("repo_id", "repo-1"), ("checkpoint_id", "cp-2")]),
        kv(&[("peer_id", "peer-c"), ("repo_id", "repo-9"), ("checkpoint_id", "cp-3")]),
    ];
    let peerings = vec![peering("domain-d", "active")];
    let found = discover_replicas(&records, &peerings, Some("repo-1"));
    let rows: Vec<(&str, &str)> = found.found.iter().map(|e| (e.id.as_str(), e.source.as_str())).collect();
    assert_eq!(rows, vec![("domain-d-repo-1", "domain-d"), ("peer-b-repo-1-cp-2", "peer-b")]);
    let any = discover_replicas(&records, &peerings, None);
    assert_eq!(any.found.len(), 3);
    assert_eq!(any.found[0].id, "domain-d-any");
    assert_eq!(any.cache[2].source, "remote-domain");
}

#[test]
fn discovery_cache_round_trips() {
    let entry = DiscoveryEntry { id: "vault-1".into(), kind: "vaults".into(), source: "local".into() };
    let record = cache_record("/h", &entry, "77");
    assert_eq!(record.path, "/h/discovery/vaults/vault-1");
    let back = entry_from_cache(&record.fields);
    assert_eq!((back.id.as_str(), back.kind.as_str(), back.source.as_str()), ("vault-1", "vaults", "local"));
}

#[test]
fn exchange_manifest_is_stamped() {
    let (dir, record) = write_exchange_manifest("/h", "gw-a", "routes", "route-a-b", &kv(&[("to", "gw-b")]), "9");
    assert_eq!(dir, "/h/federation/gateways/gw-a/exchange/routes");
    assert_eq!(record.path, "/h/federation/gateways/gw-a/exchange/routes/route-a-b");
    assert_eq!(record.fields, kv(&[("to", "gw-b"), ("updated_at", "9")]));
}

#[test]
fn diverging_import_is_a_delayed_merge() {
    let repo = Repo {
        id: "r".into(),
        name: "n".into(),
        path: "/p".into(),
        vault_id: "v".into(),
        trust_zone: "trusted".into(),
        sync_state: "registered".into(),
        latest_checkpoint: "cp-local".into(),
        created_at: "0".into(),
    };
    let report = reconcile_import(Some(&repo), "cp-remote").unwrap();
    assert_eq!(report.action, "delayed-merge");
    assert_eq!(report.conflicts, vec!["checkpoint divergence: local=cp-local incoming=cp-remote"]);
    assert_eq!(report.merged_checkpoint, "cp-remote");
    let same = reconcile_import(Some(&repo), "cp-local").unwrap();
    assert_eq!(same.action, "fast-forward");
    assert!(reconcile_import(None, "cp-x").unwrap().conflicts.is_empty());
    let record = record_reconciliation(&vault("vault-1"), "r", &report, "5");
    assert_eq!(record.path, "/v/vault-1/replication/recon-r");
    assert_eq!(record.fields[3], ("conflicts".to_string(), "checkpoint divergence: local=cp-local incoming=cp-remote".to_string()));
}

#[test]
fn connecting_domains_picks_the_local_gateway() {
    let mut other = gateway("gw-x");
    other.domain_id = "domain-z".into();
    let gateways = vec![other, gateway("gw-a"), gateway("gw-b")];
    let p = connect_domains("domain-a", "domain-remote", None, &gateways, None, "77").unwrap();
    assert_eq!(p.id, "peer-domain-a-domain-r");
    assert_eq!(p.local_domain_id, "domain-a");
    assert_eq!(p.remote_domain_id, "domain-remote");
    assert_eq!(p.local_gateway_id, "gw-a");
    assert_eq!(p.remote_gateway_id, "remote-gateway");
    assert_eq!(p.state, "active");
    assert_eq!(p.created_at, "77");
    assert!(p.signature.is_empty() && p.signed_by.is_empty() && p.signed_at.is_empty());

    let named = connect_domains("dom", "far", Some(Ok(gateway("gw-n"))), &Vec::new(), Some("gw-far"), "1").unwrap();
    assert_eq!(named.id, "peer-dom-far");
    assert_eq!(named.local_gateway_id, "gw-n");
    assert_eq!(named.remote_gateway_id, "gw-far");
}

#[test]
fn connecting_domains_needs_a_local_gateway() {
    let err = connect_domains("domain-q", "domain-b", None, &vec![gateway("gw-a")], None, "1").unwrap_err();
    assert_eq!(err.message(), "no local gateway found");
    let err = connect_domains("domain-a", "domain-b", Some(Err(AppError::new("gateway 'gw-9' not found"))), &Vec::new(), None, "1")
        .unwrap_err();
    assert_eq!(err.message(), "gateway 'gw-9' not found");
}
