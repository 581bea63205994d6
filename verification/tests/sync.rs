use gitp2p::error::AppError;
use gitp2p::kv::KvFields;
use gitp2p::models::{Checkpoint, Identity, Peer, Repo, Session, SessionPhase, Vault};
use gitp2p::settings::{default_home, hostname, listen_port, max_concurrent_syncs, transport_mode};
use gitp2p::sync::{
    discover_filesystem, find_resumable_session, homes_to_probe, peer_from_service, finish_transfer, list_inflight_sessions,
    mark_session_phase, mirror_sync_commands, new_session, replica_repo, replication_history,
    replication_log_line, should_probe_home, start_transfer, write_replication_state, HomeProbe,
    SyncSlot,
};
use gitp2p::util::stable_id;
use gitp2p::vault::App;

fn session(id: &str, peer: &str, repo: &str, phase: &str) -> Session {
    Session {
        id: id.into(),
        peer_id: peer.into(),
        repo_id: repo.into(),
        checkpoint_id: "cp".into(),
        direction: "push".into(),
        state: "replicated".into(),
        encrypted: String::new(),
        created_at: "1".into(),
        phase: phase.into(),
        transfer_artifact: String::new(),
        bytes_transferred: "0".into(),
        transfer_offset: "0".into(),
        signature: String::new(),
        signed_by: String::new(),
        signed_at: String::new(),
    }
}

fn a_peer(id: &str, trust: &str) -> Peer {
    Peer {
        id: id.into(),
        public_key: "pk".into(),
        home: "/b".into(),
        trust_state: trust.into(),
        capabilities: String::new(),
        vaults: String::new(),
        discovered_at: "0".into(),
        listen_port: 9134,
    }
}

fn a_repo() -> Repo {
    Repo {
        id: "repo-1".into(),
        name: "demo".into(),
        path: "/work/demo".into(),
        vault_id: "vault-1".into(),
        trust_zone: "trusted".into(),
        sync_state: "registered".into(),
        latest_checkpoint: "cp-1".into(),
        created_at: "0".into(),
    }
}

fn a_checkpoint() -> Checkpoint {
    Checkpoint {
        id: "cp-1".into(),
        repo_id: "repo-1".into(),
        vault_id: "vault-1".into(),
        commit: "abc".into(),
        parent: String::new(),
        created_at: "10".into(),
        status: "created".into(),
        signature: String::new(),
        signed_by: String::new(),
        signed_at: String::new(),
    }
}

#[test]
fn new_sessions_start_discovered() {
    let s = new_session(&a_peer("peer-b", "trusted"), &a_repo(), &a_checkpoint(), true, "99");
    assert_eq!(s.id, format!("session-{}", stable_id("peer-b:repo-1:99")));
    assert_eq!(s.state, "approved-replicated");
    assert_eq!(s.phase, "discovered");
    assert_eq!((s.bytes_transferred.as_str(), s.transfer_offset.as_str()), ("0", "0"));
    let plain = new_session(&a_peer("peer-b", "trusted"), &a_repo(), &a_checkpoint(), false, "99");
    assert_eq!(plain.state, "replicated");
}

#[test]
fn unfinished_sessions_are_resumed() {
    let sessions = vec![
        session("s1", "peer-b", "repo-1", "complete"),
        session("s2", "peer-b", "repo-1", "transferring"),
        session("s3", "peer-b", "repo-1", "negotiating"),
    ];
    assert_eq!(find_resumable_session(&sessions, "peer-b", "repo-1").unwrap().id, "s2");
    assert!(find_resumable_session(&sessions, "peer-c", "repo-1").is_none());
    let inflight = list_inflight_sessions(&sessions, None);
    assert_eq!(inflight.len(), 2);
    assert!(list_inflight_sessions(&sessions, Some("repo-2")).is_empty());
}

#[test]
fn marking_a_phase_writes_the_session() {
    let app = App::with_home("/a".to_string());
    let mut s = session("s1", "peer-b", "repo-1", "discovered");
    let record = mark_session_phase(&app, &mut s, SessionPhase::Authenticated);
    assert_eq!(s.phase, "authenticated");
    assert_eq!(record.path, "/a/sessions/s1");
    assert!(record.fields.contains(&("phase".to_string(), "authenticated".to_string())));
}

#[test]
fn sync_slots_are_limited() {
    let err = SyncSlot::acquire("/a", 2, 2, "5").unwrap_err();
    assert_eq!(err.message(), "concurrent sync limit reached (2/2); retry later");
    let slot = SyncSlot::acquire("/a", 1, 2, "5").unwrap();
    assert_eq!(slot.lock_path(), "/a/sessions/locks/sync-5");
    assert_eq!(SyncSlot::locks_dir("/a"), "/a/sessions/locks");
}

#[test]
fn mirrors_are_cloned_or_updated() {
    let fresh = mirror_sync_commands("/l.git", "/r.git", false);
    assert_eq!(fresh.len(), 1);
    assert_eq!(fresh[0].args, vec!["clone", "--mirror", "/l.git", "/r.git"]);
    assert!(fresh[0].cwd.is_none());
    let existing = mirror_sync_commands("/l.git", "/r.git", true);
    assert_eq!(existing[0].args, vec!["remote", "set-url", "origin", "/l.git"]);
    assert_eq!(existing[1].args, vec!["remote", "update", "--prune"]);
    assert_eq!(existing[1].cwd.as_deref(), Some("/r.git"));
}

#[test]
fn transfers_are_settled() {
    let mut s = session("s1", "p", "r", "validating");
    start_transfer(&mut s, "/r.git");
    assert_eq!(s.transfer_artifact, "/r.git");
    s.bytes_transferred = "+0042".into();
    s.transfer_offset = String::new();
    finish_transfer(&mut s);
    assert_eq!(s.bytes_transferred, "42");
    assert_eq!(s.transfer_offset, "42");
    s.bytes_transferred = "lots".into();
    finish_transfer(&mut s);
    assert_eq!(s.bytes_transferred, "complete");
    assert_eq!(s.transfer_offset, "42");
}

#[test]
fn replicas_point_back_to_their_origin() {
    let r = replica_repo(&a_repo(), "peer-a");
    assert_eq!(r.path, "peer-replica://peer-a/demo");
    assert_eq!(r.sync_state, "replicated");
    assert_eq!(r.id, "repo-1");
    assert_eq!(replication_log_line("cp-1", "s1"), "replicated checkpoint=cp-1 session=s1");
}

#[test]
fn replication_state_records_the_session() {
    let vault = Vault { id: "v".into(), name: "v".into(), path: "/v".into(), created_at: "0".into() };
    let s = session("s1", "peer-b", "repo-1", "propagating");
    let record = write_replication_state(
        &vault,
        &a_peer("peer-b", "trusted"),
        &a_repo(),
        &a_checkpoint(),
        &s,
        "cp-1",
        "complete",
        "sig",
        "peer-a",
        "8",
        "9",
    );
    assert_eq!(record.path, "/v/replication/peer-b-repo-1");
    assert_eq!(record.fields.len(), 12);
    assert_eq!(record.fields[8], ("sync_history".to_string(), "s1".to_string()));
    let history = replication_history(&vec![record.fields.clone(), KvFields::new()], Some("peer-b"));
    assert_eq!(history, vec![("peer-b".to_string(), "repo-1".to_string(), "s1".to_string())]);
}

#[test]
fn filesystem_peers_keep_known_trust() {
    let app = App::with_home("/a".to_string());
    assert!(!should_probe_home(&app, "/a", true));
    assert!(!should_probe_home(&app, "/b", false));
    assert!(should_probe_home(&app, "/b", true));
    assert!(!should_probe_home(&app, "/a/", true));
    assert!(!should_probe_home(&app, "//a/./", true));
    assert!(should_probe_home(&app, "a", true));
    assert!(should_probe_home(&app, "/a/b", true));
    let identity = Identity {
        peer_id: "peer-b".into(),
        public_key: "pk-b".into(),
        private_key: String::new(),
        fingerprint: String::new(),
        created_at: "0".into(),
    };
    let mut probes = vec![HomeProbe {
        home: "/b".into(),
        identity: identity.clone(),
        identity_check: Ok(()),
        vault_names: vec!["team".into(), "work".into()],
    }];
    let found = discover_filesystem(&probes, &vec![a_peer("peer-b", "trusted")], "77", 9200).unwrap();
    assert_eq!(found[0].trust_state, "trusted");
    assert_eq!(found[0].vaults, "team,work");
    assert_eq!(found[0].capabilities, "filesystem,encrypted-session,checkpoint-replication,quic");
    let unknown = discover_filesystem(&probes, &Vec::new(), "77", 9200).unwrap();
    assert_eq!(unknown[0].trust_state, "untrusted");
    assert_eq!(unknown[0].listen_port, 9200);
    probes.push(HomeProbe {
        home: "/c".into(),
        identity,
        identity_check: Err(AppError::new("invalid peer key")),
        vault_names: Vec::new(),
    });
    assert_eq!(discover_filesystem(&probes, &Vec::new(), "77", 9200).unwrap_err().message(), "invalid peer key");
}

#[test]
fn settings_fall_back_to_defaults() {
    assert_eq!(default_home(Some("/g"), Some("/u"), None, "/c"), "/g");
    assert_eq!(default_home(None, Some("/u"), None, "/c"), "/u/.gitp2p");
    assert_eq!(default_home(None, None, None, "/c"), "/c/.gitp2p");
    assert_eq!(listen_port(Some("7000")), 7000);
    assert_eq!(listen_port(Some("70000")), 9134);
    assert_eq!(listen_port(None), 9134);
    assert_eq!(transport_mode(None), "auto");
    assert_eq!(max_concurrent_syncs(Some("x")), 2);
    assert_eq!(max_concurrent_syncs(Some("4")), 4);
    assert_eq!(hostname(None, Some("box"), "local"), "box");
    assert_eq!(hostname(None, None, "gitp2p.local"), "gitp2p.local");
}

#[test]
fn announced_peers_need_an_id() {
    let known = vec![a_peer("peer-b", "trusted")];
    let missing = peer_from_service(None, Some("pk"), None, 9134, "peer-a", Ok(()), &known, "5");
    assert_eq!(missing.unwrap_err().message(), "mdns peer missing peer_id");
    assert!(peer_from_service(Some("peer-a"), None, None, 9134, "peer-a", Ok(()), &known, "5").unwrap().is_none());
    let peer = peer_from_service(Some("peer-b"), Some("pk-b"), Some("3"), 9200, "peer-a", Ok(()), &known, "5")
        .unwrap()
        .unwrap();
    assert_eq!(peer.trust_state, "trusted");
    assert_eq!(peer.vaults, "3");
    assert_eq!(peer.capabilities, "mdns,quic,filesystem");
    assert_eq!(peer.listen_port, 9200);
}

#[test]
fn only_other_homes_with_an_identity_are_probed() {
    let app = App::with_home("/me".to_string());
    let homes = vec!["/a".to_string(), "/me".to_string(), "/b".to_string(), "/c".to_string(), "/me/".to_string(), "/a".to_string()];
    let flags = vec![true, true, false, true, true, true];
    assert_eq!(homes_to_probe(&app, &homes, &flags), vec!["/a", "/c", "/a"]);
    assert!(homes_to_probe(&app, &Vec::new(), &Vec::new()).is_empty());
}

#[test]
fn inflight_lists_keep_their_order() {
    let sessions = vec![
        session("s1", "p", "r1", "transferring"),
        session("s2", "p", "r2", "complete"),
        session("s3", "p", "r2", "negotiating"),
        session("s4", "p", "r1", "failed"),
        session("s5", "p", "r1", "discovered"),
    ];
    let all: Vec<String> = list_inflight_sessions(&sessions, None).into_iter().map(|s| s.id).collect();
    assert_eq!(all, vec!["s1", "s3", "s5"]);
    let r1: Vec<String> = list_inflight_sessions(&sessions, Some("r1")).into_iter().map(|s| s.id).collect();
    assert_eq!(r1, vec!["s1", "s5"]);
}
