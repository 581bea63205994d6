use gitp2p::checkpoint::{
    checkpoint_lineage, copy_checkpoint_if_missing, create_checkpoint, seal_checkpoint, validate_checkpoint_for_sync,
};
use gitp2p::kv::{parse_kv, render_kv};
use gitp2p::layout::paths_equal;
use gitp2p::signing::{generate_identity, sign_bytes, verify_bytes, verify_checkpoint};
use gitp2p::identity::{delegation_id, domain_id, gateway_id, peer_id_from_key, peering_id, vault_id, verify_peer_id};
use gitp2p::lineage::{inspect_lineage, lineage_hash, verify_lineage_hash};
use gitp2p::models::{Checkpoint, Peer, Policy, Repo, Session, Vault};
use gitp2p::error::AppError;
use gitp2p::retention::{enforce_retention, prune_checkpoints, prune_plan};
use gitp2p::vault::{checkpoints_for_repo, create_vault, ensure_remote_vault, latest_checkpoint, read_vault, App};

fn checkpoint(id: &str, parent: &str, created_at: &str) -> Checkpoint {
    Checkpoint {
        id: id.into(),
        repo_id: "repo-1".into(),
        vault_id: "vault-1".into(),
        commit: "abc".into(),
        parent: parent.into(),
        created_at: created_at.into(),
        status: "created".into(),
        signature: String::new(),
        signed_by: String::new(),
        signed_at: String::new(),
    }
}

fn repo_in(zone: &str, name: &str, path: &str) -> Repo {
    Repo {
        id: format!("id-{name}"),
        name: name.into(),
        path: path.into(),
        vault_id: "vault-1".into(),
        trust_zone: zone.into(),
        sync_state: "registered".into(),
        latest_checkpoint: "cp-0".into(),
        created_at: "0".into(),
    }
}

fn vault_named(name: &str) -> Vault {
    Vault { id: format!("vault-{name}"), name: name.into(), path: format!("/v/{name}"), created_at: "0".into() }
}

#[test]
fn listings_are_sorted() {
    let app = App::with_home("/h".to_string());
    let vaults = app.all_vaults(vec![vault_named("zeta"), vault_named("alpha")]);
    assert_eq!(vaults[0].name, "alpha");
    let repos = app.all_repos(vec![repo_in("trusted", "b", "/2"), repo_in("trusted", "a", "/9"), repo_in("trusted", "b", "/1")]);
    let order: Vec<(&str, &str)> = repos.iter().map(|r| (r.name.as_str(), r.path.as_str())).collect();
    assert_eq!(order, vec![("a", "/9"), ("b", "/1"), ("b", "/2")]);
    let peer = |id: &str| Peer {
        id: id.into(),
        public_key: String::new(),
        home: String::new(),
        trust_state: String::new(),
        capabilities: String::new(),
        vaults: String::new(),
        discovered_at: String::new(),
        listen_port: 0,
    };
    let peers = app.all_peers(vec![peer("p2"), peer("p1")]);
    assert_eq!(peers[0].id, "p1");
    let session = |id: &str, at: &str| Session {
        id: id.into(),
        peer_id: String::new(),
        repo_id: String::new(),
        checkpoint_id: String::new(),
        direction: String::new(),
        state: String::new(),
        encrypted: String::new(),
        created_at: at.into(),
        phase: String::new(),
        transfer_artifact: String::new(),
        bytes_transferred: String::new(),
        transfer_offset: String::new(),
        signature: String::new(),
        signed_by: String::new(),
        signed_at: String::new(),
    };
    let sessions = app.all_sessions(vec![session("s2", "20"), session("s1", "10")]);
    assert_eq!(sessions[0].id, "s1");
}

#[test]
fn repositories_are_found_by_id_name_path_or_directory() {
    let app = App::with_home("/h".to_string());
    let repos = vec![repo_in("trusted", "a", "/work/a"), repo_in("trusted", "b", "/work/b")];
    assert_eq!(app.find_repo(&repos, Some("b"), "").unwrap().id, "id-b");
    assert_eq!(app.find_repo(&repos, Some("/work/a"), "").unwrap().id, "id-a");
    assert_eq!(app.find_repo(&repos, Some("id-b"), "").unwrap().name, "b");
    assert_eq!(app.find_repo(&repos, Some("c"), "").unwrap_err().message(), "repository 'c' was not registered");
    assert_eq!(app.find_repo(&repos, None, "/work/b").unwrap().id, "id-b");
    assert_eq!(app.find_repo(&repos, Some("/work/a/"), "").unwrap().id, "id-a");
    assert_eq!(app.find_repo(&repos, Some("/work//a/."), "").unwrap().id, "id-a");
    assert_eq!(app.find_repo(&repos, None, "/work/b/").unwrap().id, "id-b");
    assert!(app.find_repo(&repos, Some("work/a"), "").is_err());
    assert_eq!(
        app.find_repo(&repos, None, "/elsewhere").unwrap_err().message(),
        "current directory is not a registered repository; pass a repository name or id"
    );
    let mut located = checkpoint("cp-1", "", "5");
    located.repo_id = "id-1".into();
    let found = vec![(vault_named("team"), located)];
    let repos1 = vec![repo_in("trusted", "1", "/r")];
    let (vault, repo, cp) = app.find_checkpoint(&found, &repos1, "cp-1").unwrap();
    assert_eq!((vault.name.as_str(), repo.id.as_str(), cp.id.as_str()), ("team", "id-1", "cp-1"));
    assert_eq!(app.find_checkpoint(&found, &repos1, "cp-7").unwrap_err().message(), "checkpoint 'cp-7' was not found");
}

#[test]
fn latest_checkpoint_is_the_newest_of_the_repository() {
    let mut other = checkpoint("cp-x", "", "99");
    other.repo_id = "repo-2".into();
    let all = vec![checkpoint("cp-2", "cp-1", "20"), other, checkpoint("cp-1", "", "10")];
    let history = checkpoints_for_repo(all.clone(), "repo-1");
    let ids: Vec<&str> = history.iter().map(|c| c.id.as_str()).collect();
    assert_eq!(ids, vec!["cp-1", "cp-2"]);
    assert_eq!(latest_checkpoint(all, "repo-1").unwrap().id, "cp-2");
    assert_eq!(latest_checkpoint(Vec::new(), "repo-1").unwrap_err().message(), "repository has no checkpoints");
}

#[test]
fn checkpoints_chain_to_their_parents() {
    let known = vec![checkpoint("cp-2", "cp-1", "20"), checkpoint("cp-1", "", "10")];
    assert_eq!(checkpoint_lineage(&known, &known[0]).unwrap(), "cp-2->cp-1");
    let orphan = checkpoint("cp-3", "cp-9", "30");
    assert_eq!(checkpoint_lineage(&known, &orphan).unwrap_err().message(), "checkpoint 'cp-9' was not found");
    let looped = vec![checkpoint("a", "b", "1"), checkpoint("b", "a", "2")];
    assert_eq!(checkpoint_lineage(&looped, &looped[0]).unwrap_err().message(), "checkpoint lineage does not end");
    let (chain, hash) = inspect_lineage(&known, "cp-2").unwrap();
    assert_eq!(chain, "cp-2->cp-1");
    assert_eq!(hash, "lh-b3c3d1e1ed5c301d28741160bb8e45b95cbc2d201e67501ec59435f428ff3b04");
    assert_eq!(lineage_hash("cp-2->cp-1"), hash);
    assert!(verify_lineage_hash("cp-2->cp-1", &hash).is_ok());
    assert!(verify_lineage_hash("cp-2->cp-1", "lh-0").is_err());
}

#[test]
fn new_checkpoints_follow_the_previous_one() {
    let repo = repo_in("trusted", "demo", "/w");
    let vault = vault_named("team");
    let (cp, updated) = create_checkpoint(&repo, &vault, "0123456789abcdef\n", "77", "77");
    assert_eq!(cp.id, "cp-77-0123456789ab");
    assert_eq!(cp.parent, "cp-0");
    assert_eq!(updated.latest_checkpoint, cp.id);
    let copy = copy_checkpoint_if_missing(&vault, &cp, false).unwrap();
    assert_eq!(copy.status, "replicated-verified");
    assert!(copy_checkpoint_if_missing(&vault, &cp, true).is_none());
    assert!(validate_checkpoint_for_sync(&repo_in("readonly", "r", "/r"), true, true).is_err());
}

#[test]
fn retention_keeps_protected_and_newest() {
    let cps = vec![checkpoint("cp-1", "", "100"), checkpoint("cp-2", "cp-1", "200"), checkpoint("cp-3", "cp-2", "300")];
    let mut policy = Policy::empty();
    policy.protected_checkpoint_ids = "cp-1".into();
    let report = prune_checkpoints(&cps, &policy, Some(1), None, 400);
    assert_eq!(report.kept, vec!["cp-1", "cp-3"]);
    assert_eq!(report.removed, vec!["cp-2"]);
    policy.retention_max_age_days = "1".into();
    let aged = enforce_retention(&cps, &policy, 86_700);
    assert_eq!(aged.removed, vec!["cp-2"]);
    assert_eq!(aged.kept, vec!["cp-1", "cp-3"]);
    let none = enforce_retention(&Vec::new(), &policy, 5);
    assert!(none.kept.is_empty() && none.removed.is_empty());
}

#[test]
fn vault_creation_refuses_an_existing_vault() {
    let app = App::with_home("/h".to_string());
    assert_eq!(create_vault(&app, "team", "5", true).unwrap_err().message(), "vault 'team' already exists");
    let plan = create_vault(&app, "team", "5", false).unwrap();
    assert_eq!(plan.vault.id, "vault-fa23d9ef19afc32c");
    assert_eq!(plan.vault.path, "/h/vaults/vault-fa23d9ef19afc32c");
    assert_eq!(plan.metadata.fields[3], ("trust_status".to_string(), "local-trusted".to_string()));
}

#[test]
fn identifiers_are_derived_from_their_inputs() {
    assert_eq!(peer_id_from_key("key-a"), "peer-f10f781241e22466");
    assert_eq!(vault_id("team"), "vault-fa23d9ef19afc32c");
    assert_eq!(domain_id("domain-a"), "domain-7994a5c44ae14b2f");
    assert_eq!(gateway_id("domain-a", "127.0.0.1"), "gw-0ab4aab946370245");
    assert_eq!(delegation_id("src", "dst"), "del-42199b92dd55e175");
    assert_eq!(peering_id("domain-alpha", "dom"), "peer-domain-a-dom");
    assert!(verify_peer_id("key-a", "").is_err());
    assert!(verify_peer_id("key-a", "peer-anything").is_ok());
}

#[test]
fn a_real_prune_removes_records_and_refs() {
    let cps = vec![checkpoint("cp-1", "", "100"), checkpoint("cp-2", "cp-1", "200"), checkpoint("cp-3", "cp-2", "300")];
    let policy = Policy::empty();
    let repo = repo_in("trusted", "demo", "/work/demo");
    let vault = vault_named("team");
    let report = prune_checkpoints(&cps, &policy, Some(1), None, 400);
    let dry = prune_plan(&vault, &repo, &report, true);
    assert!(dry.remove.is_empty() && dry.drop_refs.is_empty() && dry.repo_update.is_none());
    let plan = prune_plan(&vault, &repo, &report, false);
    let vp = vault.path.clone();
    assert_eq!(plan.remove, vec![format!("{vp}/metadata/checkpoints/cp-1"), format!("{vp}/metadata/checkpoints/cp-2")]);
    assert_eq!(plan.drop_refs.len(), 2);
    assert_eq!(plan.drop_refs[1].args, vec!["update-ref", "-d", "refs/gitp2p/checkpoints/cp-2"]);
    assert_eq!(plan.drop_refs[1].cwd.as_deref(), Some(format!("{vp}/repositories/{}.git", repo.id).as_str()));
    let update = plan.repo_update.unwrap();
    assert_eq!(update.path, format!("{vp}/metadata/repos/{}", repo.id));
    assert!(update.fields.contains(&("latest_checkpoint".to_string(), "cp-3".to_string())));
}

#[test]
fn a_remote_vault_is_made_once_then_reused() {
    let remote = App::with_home("/remote".to_string());
    let source = vault_named("team");
    let fresh = ensure_remote_vault(&remote, &source, None, "77").unwrap();
    assert_eq!(fresh.vault.created_at, "77");
    assert_eq!(fresh.vault.name, source.name);
    assert!(fresh.policy.is_some());
    let mut stored = fresh.vault.clone();
    stored.created_at = "12".into();
    let again = ensure_remote_vault(&remote, &source, Some(Ok(stored.clone())), "99").unwrap();
    assert_eq!(again.vault.created_at, "12");
    assert_eq!(again.vault.id, stored.id);
    assert!(again.policy.is_none() && again.metadata.fields.is_empty());
    assert_eq!(again.dirs.len(), 2);
    assert_eq!(
        ensure_remote_vault(&remote, &source, Some(Err(AppError::new("missing field 'name'"))), "99").unwrap_err().message(),
        "missing field 'name'"
    );
}

#[test]
fn paths_compare_by_component() {
    assert!(paths_equal("/h", "/h/"));
    assert!(paths_equal("/h//x/./y", "/h/x/y/"));
    assert!(paths_equal("./a", "./a/"));
    assert!(!paths_equal("./a", "a"));
    assert!(!paths_equal("/h", "h"));
    assert!(!paths_equal("/h/x", "/h/x/.."));
    assert!(!paths_equal(".", ""));
    assert!(paths_equal("", ""));
}

#[test]
fn a_checkpoint_run_stores_a_signed_checkpoint() {
    let identity = generate_identity("1").unwrap();
    let vault = vault_named("team");
    let repo = repo_in("trusted", "demo", "/work/demo");
    let (made, _) = create_checkpoint(&repo, &vault, "0123456789abcdef\n", "20240101", "55");
    let sealed = seal_checkpoint(&repo, &vault, made.clone(), &identity, "56", false).unwrap();
    assert_eq!(sealed.checkpoint.id, made.id);
    assert_eq!(sealed.checkpoint.signed_by, identity.peer_id);
    assert_eq!(sealed.checkpoint.signed_at, "56");
    assert!(!sealed.checkpoint.signature.is_empty());
    assert!(verify_checkpoint(&sealed.checkpoint, &identity.public_key).is_ok());
    let mut restamped = sealed.checkpoint.clone();
    restamped.status = "replicated-verified".into();
    restamped.created_at = "99".into();
    assert!(verify_checkpoint(&restamped, &identity.public_key).is_ok());
    let mut moved = sealed.checkpoint.clone();
    moved.commit = "fedcba".into();
    assert!(verify_checkpoint(&moved, &identity.public_key).is_err());
    assert!(sealed.checkpoint_record.path.ends_with(&format!("metadata/checkpoints/{}", made.id)));
    assert!(sealed.repo_record.fields.contains(&("latest_checkpoint".to_string(), made.id.clone())));
    assert!(sealed.repo_record.fields.contains(&("sync_state".to_string(), "checkpointed".to_string())));
    assert_eq!(
        seal_checkpoint(&repo, &vault, made.clone(), &identity, "56", true).unwrap_err().message(),
        "checkpoint id collision; refusing to overwrite immutable metadata"
    );
    let mut broken = identity.clone();
    broken.private_key = "xyz".into();
    assert_eq!(
        seal_checkpoint(&repo, &vault, made, &broken, "56", false).unwrap_err().message(),
        "malformed hexadecimal key material"
    );
}

#[test]
fn generated_identities_sign_what_verifies() {
    let identity = generate_identity("7").unwrap();
    assert_eq!(identity.created_at, "7");
    assert_eq!(identity.peer_id, peer_id_from_key(&identity.public_key));
    let signature = sign_bytes(&identity, "payload").unwrap();
    assert!(verify_bytes(&identity.public_key, "payload", &signature).is_ok());
    assert!(verify_bytes(&identity.public_key, "payloads", &signature).is_err());
    let other = generate_identity("8").unwrap();
    assert_ne!(other.public_key, identity.public_key);
    assert!(verify_bytes(&other.public_key, "payload", &signature).is_err());
}

#[test]
fn latest_checkpoint_fails_only_without_history() {
    let mut mine = checkpoint("cp-2", "", "20");
    mine.repo_id = "r1".into();
    let mut theirs = checkpoint("cp-3", "", "30");
    theirs.repo_id = "r2".into();
    assert_eq!(latest_checkpoint(vec![mine.clone(), theirs.clone()], "r1").unwrap().id, "cp-2");
    assert_eq!(latest_checkpoint(vec![mine, theirs], "r3").unwrap_err().message(), "repository has no checkpoints");
}

#[test]
fn a_written_replica_reads_back_the_same() {
    let remote = App::with_home("/remote".to_string());
    let source = vault_named("team");
    let fresh = ensure_remote_vault(&remote, &source, None, "77").unwrap();
    let text = render_kv(&fresh.metadata.fields);
    let stored = read_vault(&fresh.vault.path, &parse_kv(&text));
    let again = ensure_remote_vault(&remote, &source, Some(stored), "99").unwrap();
    assert_eq!(again.vault.id, fresh.vault.id);
    assert_eq!(again.vault.name, fresh.vault.name);
    assert_eq!(again.vault.created_at, fresh.vault.created_at);
    assert_eq!(again.vault.path, fresh.vault.path);
}
