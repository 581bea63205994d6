use gitp2p::models::{Checkpoint, Peer, Policy, Repo, Session};
use gitp2p::signing::{checkpoint_payload, session_payload};
use gitp2p::sync_run::{sync_step, SyncAction, SyncEvent, SyncRun, SyncStage};
use gitp2p::util::stable_id;
use gitp2p::vault::App;

fn remote_peer() -> Peer {
    Peer {
        id: "peer-b".into(),
        public_key: "pk-b".into(),
        home: "/b".into(),
        trust_state: "trusted".into(),
        capabilities: String::new(),
        vaults: String::new(),
        discovered_at: "0".into(),
        listen_port: 9134,
    }
}

fn repo_in_zone(zone: &str) -> Repo {
    Repo {
        id: "repo-1".into(),
        name: "demo".into(),
        path: "/work/demo".into(),
        vault_id: "vault-1".into(),
        trust_zone: zone.into(),
        sync_state: "registered".into(),
        latest_checkpoint: String::new(),
        created_at: "0".into(),
    }
}

fn stored_session(id: &str, phase: &str) -> Session {
    Session {
        id: id.into(),
        peer_id: "peer-b".into(),
        repo_id: "repo-1".into(),
        checkpoint_id: "cp-1".into(),
        direction: "push".into(),
        state: "replicated".into(),
        encrypted: String::new(),
        created_at: "1".into(),
        phase: phase.into(),
        transfer_artifact: String::new(),
        bytes_transferred: "0".into(),
        transfer_offset: "0".into(),
        signature: "sig".into(),
        signed_by: "peer-a".into(),
        signed_at: "1".into(),
    }
}

fn made_checkpoint() -> Checkpoint {
    Checkpoint {
        id: "cp-9".into(),
        repo_id: "repo-1".into(),
        vault_id: "vault-1".into(),
        commit: "abc".into(),
        parent: String::new(),
        created_at: "9".into(),
        status: "verified".into(),
        signature: "csig".into(),
        signed_by: "peer-a".into(),
        signed_at: "9".into(),
    }
}

#[test]
fn fresh_sync_opens_a_negotiating_session() {
    let mut run = SyncRun::new(App::with_home("/a".to_string()), false);
    let action = sync_step(
        &mut run,
        SyncEvent::Checked {
            peer: remote_peer(),
            peer_checks: Ok(()),
            repo: repo_in_zone("trusted"),
            policy: Policy::empty(),
            peer_trusted: true,
            sessions: vec![stored_session("s0", "complete")],
        },
    );
    assert!(matches!(action, SyncAction::MakeCheckpoint { peer_trusted: true }));
    assert_eq!(run.stage, SyncStage::Checkpointing);
    let key = new_key();
    let mut signed_cp = made_checkpoint();
    signed_cp.signature = sign_with(&key, &checkpoint_payload(&signed_cp));
    let action = sync_step(
        &mut run,
        SyncEvent::CheckpointMade { checkpoint: Ok(signed_cp), public_key: public_hex(&key), now: "50".into() },
    );
    match action {
        SyncAction::Replicate { writes, session, checkpoint } => {
            assert_eq!(writes.len(), 2);
            assert!(writes[0].fields.contains(&("phase".to_string(), "authenticated".to_string())));
            assert_eq!(session.phase, "negotiating");
            assert_eq!(session.id, format!("session-{}", stable_id("peer-b:repo-1:50")));
            assert_eq!(checkpoint.id, "cp-9");
            let done = sync_step(&mut run, SyncEvent::Replicated { outcome: Ok(()), session });
            match done {
                SyncAction::Finish { writes, outcome } => {
                    assert_eq!(writes.len(), 1);
                    assert_eq!(outcome.unwrap().phase, "complete");
                }
                other => panic!("unexpected {:?}", other),
            }
        }
        other => panic!("unexpected {:?}", other),
    }
    assert_eq!(run.stage, SyncStage::Done);
}

#[test]
fn unfinished_session_is_resumed() {
    let key = new_key();
    let mut peer = remote_peer();
    peer.public_key = public_hex(&key);
    let mut s1 = stored_session("s1", "propagating");
    s1.signature = sign_with(&key, &session_payload(&s1));
    let mut run = SyncRun::new(App::with_home("/a".to_string()), false);
    let action = sync_step(
        &mut run,
        SyncEvent::Checked {
            peer,
            peer_checks: Ok(()),
            repo: repo_in_zone("trusted"),
            policy: Policy::empty(),
            peer_trusted: false,
            sessions: vec![stored_session("s0", "complete"), s1],
        },
    );
    match action {
        SyncAction::LoadCheckpoint { id } => assert_eq!(id, "cp-1"),
        other => panic!("unexpected {:?}", other),
    }
    let mut cp = made_checkpoint();
    cp.id = "cp-1".into();
    match sync_step(&mut run, SyncEvent::CheckpointLoaded { checkpoint: Ok(cp) }) {
        SyncAction::Replicate { writes, session, .. } => {
            assert_eq!(session.id, "s1");
            assert_eq!(session.phase, "transferring");
            assert_eq!(writes[0].path, "/a/sessions/s1");
        }
        other => panic!("unexpected {:?}", other),
    }
}

#[test]
fn refused_peers_and_zones_end_the_sync() {
    let mut policy = Policy::empty();
    policy.blocked_peer_ids = "peer-b".into();
    let mut run = SyncRun::new(App::with_home("/a".to_string()), false);
    match sync_step(
        &mut run,
        SyncEvent::Checked { peer: remote_peer(), peer_checks: Ok(()), repo: repo_in_zone("trusted"), policy, peer_trusted: true, sessions: Vec::new() },
    ) {
        SyncAction::Finish { outcome: Err(e), .. } => assert_eq!(e.message(), "peer 'peer-b' is blocked by vault policy"),
        other => panic!("unexpected {:?}", other),
    }
    assert_eq!(run.stage, SyncStage::Failed);
    let mut run = SyncRun::new(App::with_home("/a".to_string()), false);
    match sync_step(
        &mut run,
        SyncEvent::Checked {
            peer: remote_peer(),
            peer_checks: Ok(()),
            repo: repo_in_zone("readonly"),
            policy: Policy::empty(),
            peer_trusted: true,
            sessions: Vec::new(),
        },
    ) {
        SyncAction::Finish { outcome: Err(e), .. } => {
            assert_eq!(e.message(), "action blocked for repository 'demo' in trust zone 'readonly'")
        }
        other => panic!("unexpected {:?}", other),
    }
    let mut run = SyncRun::new(App::with_home("/a".to_string()), false);
    let _ = sync_step(
        &mut run,
        SyncEvent::Checked { peer: remote_peer(), peer_checks: Ok(()), repo: repo_in_zone("trusted"), policy: Policy::empty(), peer_trusted: true, sessions: Vec::new() },
    );
    let mut foreign_cp = made_checkpoint();
    foreign_cp.signature = sign_with(&new_key(), &checkpoint_payload(&foreign_cp));
    match sync_step(
        &mut run,
        SyncEvent::CheckpointMade { checkpoint: Ok(foreign_cp), public_key: public_hex(&new_key()), now: "1".into() },
    ) {
        SyncAction::Finish { outcome: Err(e), writes } => {
            assert!(writes.is_empty());
            assert_eq!(e.message(), "signature verification failed");
        }
        other => panic!("unexpected {:?}", other),
    }
}

fn new_key() -> rcgen::KeyPair {
    rcgen::KeyPair::generate().unwrap()
}

fn public_hex(key: &rcgen::KeyPair) -> String {
    gitp2p::digest::hex_encode(key.public_key_raw())
}

fn sign_with(key: &rcgen::KeyPair, payload: &str) -> String {
    let der = rustls::pki_types::PrivateKeyDer::Pkcs8(rustls::pki_types::PrivatePkcs8KeyDer::from(key.serialize_der()));
    let signing = rustls::crypto::ring::sign::any_ecdsa_type(&der).unwrap();
    let signer = signing.choose_scheme(&[rustls::SignatureScheme::ECDSA_NISTP256_SHA256]).unwrap();
    gitp2p::digest::hex_encode(&signer.sign(payload.as_bytes()).unwrap())
}

#[test]
fn resumed_session_with_a_bad_signature_fails() {
    let mut peer = remote_peer();
    peer.public_key = public_hex(&new_key());
    let mut s1 = stored_session("s1", "propagating");
    s1.signature = sign_with(&new_key(), &session_payload(&s1));
    let mut run = SyncRun::new(App::with_home("/a".to_string()), false);
    let _ = sync_step(
        &mut run,
        SyncEvent::Checked { peer, peer_checks: Ok(()), repo: repo_in_zone("trusted"), policy: Policy::empty(), peer_trusted: false, sessions: vec![s1] },
    );
    let mut cp = made_checkpoint();
    cp.id = "cp-1".into();
    match sync_step(&mut run, SyncEvent::CheckpointLoaded { checkpoint: Ok(cp) }) {
        SyncAction::Finish { outcome: Err(e), writes } => {
            assert!(writes.is_empty());
            assert_eq!(e.message(), "signature verification failed");
        }
        other => panic!("unexpected {:?}", other),
    }
    assert_eq!(run.stage, SyncStage::Failed);
}

#[test]
fn failed_peer_checks_end_the_sync_first() {
    let mut policy = Policy::empty();
    policy.blocked_peer_ids = "peer-b".into();
    let mut run = SyncRun::new(App::with_home("/a".to_string()), false);
    match sync_step(
        &mut run,
        SyncEvent::Checked {
            peer: remote_peer(),
            peer_checks: Err(gitp2p::error::AppError::new("peer 'peer-b' is not approved")),
            repo: repo_in_zone("trusted"),
            policy,
            peer_trusted: true,
            sessions: Vec::new(),
        },
    ) {
        SyncAction::Finish { outcome: Err(e), writes } => {
            assert!(writes.is_empty());
            assert_eq!(e.message(), "peer 'peer-b' is not approved");
        }
        other => panic!("unexpected {:?}", other),
    }
    assert_eq!(run.stage, SyncStage::Failed);
}
