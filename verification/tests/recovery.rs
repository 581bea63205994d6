use gitp2p::discovery::DiscoveryEntry;
use gitp2p::kv::KvFields;
use gitp2p::models::{Checkpoint, Peer, Repo, Vault};
use gitp2p::error::AppError;
use gitp2p::signing::checkpoint_payload;
use gitp2p::recovery::{
    assess_recovery_candidate,
    best_checkpoint_peers, best_recovery_choice, discover_recovery_sources, doctor_repo,
    format_recovery_sources, global_recovery_peer, recover_sources, recovery_comparison,
    recovery_peer_ids, recovery_score, replication_state_path, select_recovery_source,
    working_tree_needs_recovery, GlobalRecoverySource, RecoveryCandidate,
};

fn kvs(items: &[(&str, &str)]) -> KvFields {
    items.iter().map(|(k, v)| (k.to_string(), v.to_string())).collect()
}

fn cp(id: &str) -> Checkpoint {
    Checkpoint {
        id: id.into(),
        repo_id: "repo-1".into(),
        vault_id: "vault-1".into(),
        commit: "abc".into(),
        parent: String::new(),
        created_at: "10".into(),
        status: "created".into(),
        signature: String::new(),
        signed_by: String::new(),
        signed_at: String::new(),
    }
}

fn candidate(peer: &str, checkpoint: &str, score: u64) -> RecoveryCandidate {
    RecoveryCandidate { peer_id: peer.into(), checkpoint: cp(checkpoint), score }
}

fn peer(id: &str, trust: &str) -> Peer {
    Peer {
        id: id.into(),
        public_key: "pk".into(),
        home: "/h".into(),
        trust_state: trust.into(),
        capabilities: String::new(),
        vaults: String::new(),
        discovered_at: "0".into(),
        listen_port: 9134,
    }
}

fn demo_repo() -> Repo {
    Repo {
        id: "repo-1".into(),
        name: "demo".into(),
        path: "/work/demo".into(),
        vault_id: "vault-1".into(),
        trust_zone: "trusted".into(),
        sync_state: "registered".into(),
        latest_checkpoint: String::new(),
        created_at: "0".into(),
    }
}

#[test]
fn doctor_reports_each_state() {
    let missing = doctor_repo(&demo_repo(), false, false).unwrap();
    assert!(!missing.healthy);
    assert_eq!(missing.message, "working tree '/work/demo' does not exist; run `gitp2p recover demo`");
    let ok = doctor_repo(&demo_repo(), true, true).unwrap();
    assert!(ok.healthy);
    assert_eq!(ok.message, "repository integrity verified");
    let bad = doctor_repo(&demo_repo(), true, false).unwrap();
    assert_eq!(bad.message, "repository integrity check failed; run `gitp2p recover demo [--checkpoint <id>]`");
    assert!(working_tree_needs_recovery(false, true).unwrap());
    assert!(!working_tree_needs_recovery(true, true).unwrap());
}

#[test]
fn auto_recovery_asks_trusted_and_protected_peers() {
    let peers = vec![peer("p1", "trusted"), peer("p2", "untrusted"), peer("p3", "protected")];
    assert_eq!(recovery_peer_ids(&peers, "auto"), vec!["p1", "p3"]);
    assert_eq!(recovery_peer_ids(&peers, " p2 , p9"), vec!["p2", "p9"]);
}

#[test]
fn score_rewards_complete_propagation() {
    let state = kvs(&[("propagation_state", "complete")]);
    assert_eq!(recovery_score("1700", Some(&state)), 2700);
    assert_eq!(recovery_score("1700", None), 1700);
    assert_eq!(recovery_score("soon", Some(&kvs(&[("propagation_state", "partial")]))), 0);
}

#[test]
fn candidates_rank_by_descending_score() {
    let ranked = select_recovery_source(vec![candidate("a", "c1", 5), candidate("b", "c2", 9), candidate("c", "c3", 5)]);
    let order: Vec<&str> = ranked.iter().map(|c| c.peer_id.as_str()).collect();
    assert_eq!(order, vec!["b", "a", "c"]);
    let choice = best_recovery_choice(&ranked, None).unwrap();
    assert_eq!(choice, ("b".to_string(), "c2".to_string()));
    assert_eq!(best_recovery_choice(&ranked, Some("c0")).unwrap().1, "c0");
    assert_eq!(best_recovery_choice(&Vec::new(), None).unwrap_err().message(), "no valid peer recovery sources found");
}

#[test]
fn comparison_is_shown_for_several_named_peers() {
    let ranked = vec![candidate("b", "c2", 9), candidate("a", "c1", 5)];
    assert_eq!(
        recovery_comparison(&ranked, "a,b").unwrap(),
        "recovery source comparison:\n  peer=b checkpoint=c2 score=9\n  peer=a checkpoint=c1 score=5\n"
    );
    assert!(recovery_comparison(&ranked, "auto").is_none());
}

#[test]
fn global_sources_merge_local_and_remote() {
    let candidates = vec![candidate("peer-a", "cp-1", 1700)];
    let replicas = vec![
        DiscoveryEntry { id: "domain-b-repo-1".into(), kind: "replica".into(), source: "domain-b".into() },
        DiscoveryEntry { id: "domain-b-repo-1".into(), kind: "replica".into(), source: "domain-b".into() },
    ];
    let sources = discover_recovery_sources(&candidates, &replicas);
    assert_eq!(sources.len(), 2);
    assert_eq!((sources[0].domain.as_str(), sources[0].score), ("local", 1700));
    assert_eq!((sources[1].domain.as_str(), sources[1].score), ("domain-b", 500));
    assert_eq!(recover_sources(&candidates, &replicas).len(), 2);
    assert_eq!(
        format_recovery_sources(&sources),
        "domain\tpeer\tcheckpoint\tscore\nlocal\tpeer-a\tcp-1\t1700\ndomain-b\tdomain-b\tdomain-b-repo-1\t500\n"
    );
    assert_eq!(global_recovery_peer(&sources).unwrap(), "auto");
    let remote_only = vec![GlobalRecoverySource {
        domain: "domain-b".into(),
        peer_id: "gw".into(),
        checkpoint_id: "x".into(),
        score: 500,
    }];
    assert_eq!(global_recovery_peer(&remote_only).unwrap(), "gw");
    assert_eq!(global_recovery_peer(&Vec::new()).unwrap_err().message(), "no global recovery sources found");
}

#[test]
fn replication_records_name_their_checkpoints() {
    let rows = best_checkpoint_peers(&vec![kvs(&[("peer_id", "p"), ("repo_id", "r"), ("checkpoint_id", "c")]), kvs(&[])]);
    assert_eq!(rows[0], ("p".to_string(), "r".to_string(), "c".to_string()));
    assert_eq!(rows[1], (String::new(), String::new(), String::new()));
    let vault = Vault { id: "v".into(), name: "v".into(), path: "/v".into(), created_at: "0".into() };
    assert_eq!(replication_state_path(&vault, "p", "r"), "/v/replication/p-r");
}

fn a_vault() -> Vault {
    Vault { id: "vault-1".into(), name: "team".into(), path: "/h/vaults/vault-1".into(), created_at: "0".into() }
}

fn err(m: &str) -> AppError {
    AppError::new(m)
}

#[test]
fn recovery_candidates_are_assessed_probe_by_probe() {
    let key = new_key();
    let mut p = peer("peer-a", "trusted");
    p.public_key = public_hex(&key);
    let mut good = cp("cp-7");
    good.created_at = "70".into();
    good.signature = sign_with(&key, &checkpoint_payload(&good));
    let state = kvs(&[("propagation_state", "complete")]);

    let accepted = assess_recovery_candidate(
        Ok(p.clone()), Ok(demo_repo()), Ok(a_vault()), true, Ok(good.clone()), Ok(true), Some(&state),
    )
    .unwrap()
    .unwrap();
    assert_eq!(accepted.peer_id, "peer-a");
    assert_eq!(accepted.checkpoint.id, "cp-7");
    assert_eq!(accepted.score, 1070);
    let plain = assess_recovery_candidate(
        Ok(p.clone()), Ok(demo_repo()), Ok(a_vault()), true, Ok(good.clone()), Ok(true), None,
    )
    .unwrap()
    .unwrap();
    assert_eq!(plain.score, 70);

    assert_eq!(
        assess_recovery_candidate(Err(err("peer 'x' is not known")), Ok(demo_repo()), Ok(a_vault()), true, Ok(good.clone()), Ok(true), None)
            .unwrap_err()
            .message(),
        "peer 'x' is not known"
    );
    assert!(assess_recovery_candidate(Ok(p.clone()), Err(err("no repo")), Ok(a_vault()), true, Ok(good.clone()), Ok(true), None)
        .unwrap()
        .is_none());
    assert_eq!(
        assess_recovery_candidate(Ok(p.clone()), Ok(demo_repo()), Err(err("no vault")), true, Ok(good.clone()), Ok(true), None)
            .unwrap_err()
            .message(),
        "no vault"
    );
    assert!(assess_recovery_candidate(Ok(p.clone()), Ok(demo_repo()), Ok(a_vault()), false, Ok(good.clone()), Ok(true), None)
        .unwrap()
        .is_none());
    assert_eq!(
        assess_recovery_candidate(Ok(p.clone()), Ok(demo_repo()), Ok(a_vault()), true, Err(err("repository has no checkpoints")), Ok(true), None)
            .unwrap_err()
            .message(),
        "repository has no checkpoints"
    );
    let mut forged = good.clone();
    forged.signature = sign_with(&new_key(), &checkpoint_payload(&good));
    assert!(assess_recovery_candidate(Ok(p.clone()), Ok(demo_repo()), Ok(a_vault()), true, Ok(forged), Ok(true), None)
        .unwrap()
        .is_none());
    assert!(assess_recovery_candidate(Ok(p.clone()), Ok(demo_repo()), Ok(a_vault()), true, Ok(good.clone()), Ok(false), None)
        .unwrap()
        .is_none());
    assert_eq!(
        assess_recovery_candidate(Ok(p), Ok(demo_repo()), Ok(a_vault()), true, Ok(good), Err(err("git failed")), None)
            .unwrap_err()
            .message(),
        "git failed"
    );
}

fn new_key() -> rcgen::KeyPair {
    rcgen::KeyPair::generate().unwrap()
}

fn public_hex(key: &rcgen::KeyPair) -> String {
    gitp2p::digest::hex_encode(key.public_key_raw())
}

fn sign_with(key: &rcgen::KeyPair, payload: &str) -> String {
    let der = rustls::pki_types::PrivateKeyDer::Pkcs8(rustls::pki_types::PrivatePkcs8KeyDer::from(key.serialize_der()));
    let signing = rustls::crypto::ring::sign::any_ecdsa_type(&der).unwrap();
    let signer = signing.choose_scheme(&[rustls::SignatureScheme::ECDSA_NISTP256_SHA256]).unwrap();
    gitp2p::digest::hex_encode(&signer.sign(payload.as_bytes()).unwrap())
}
