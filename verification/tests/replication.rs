use gitp2p::error::AppError;
use gitp2p::models::{Checkpoint, Identity, Peer, Repo, Session, Vault};
use gitp2p::replication::{replication_step, Effect, Replication, ReplicationAction, ReplicationEvent, ReplicationStage};
use gitp2p::signing::replication_payload;
use gitp2p::vault::App;

fn demo_run() -> Replication {
    let session = Session {
        id: "s1".into(),
        peer_id: "peer-b".into(),
        repo_id: "repo-1".into(),
        checkpoint_id: "cp-2".into(),
        direction: "push".into(),
        state: "replicated".into(),
        encrypted: String::new(),
        created_at: "5".into(),
        phase: "negotiating".into(),
        transfer_artifact: String::new(),
        bytes_transferred: "0".into(),
        transfer_offset: String::new(),
        signature: String::new(),
        signed_by: String::new(),
        signed_at: String::new(),
    };
    let identity = Identity {
        peer_id: "peer-a".into(),
        public_key: "pk-a".into(),
        private_key: "sk-a".into(),
        fingerprint: "fp".into(),
        created_at: "0".into(),
    };
    let peer = Peer {
        id: "peer-b".into(),
        public_key: "pk-b".into(),
        home: "/b".into(),
        trust_state: "trusted".into(),
        capabilities: String::new(),
        vaults: String::new(),
        discovered_at: "0".into(),
        listen_port: 9134,
    };
    let repo = Repo {
        id: "repo-1".into(),
        name: "demo".into(),
        path: "/work/demo".into(),
        vault_id: "vault-1".into(),
        trust_zone: "trusted".into(),
        sync_state: "checkpointed".into(),
        latest_checkpoint: "cp-2".into(),
        created_at: "0".into(),
    };
    let checkpoint = Checkpoint {
        id: "cp-2".into(),
        repo_id: "repo-1".into(),
        vault_id: "vault-1".into(),
        commit: "abc".into(),
        parent: "cp-1".into(),
        created_at: "20".into(),
        status: "verified".into(),
        signature: "sig".into(),
        signed_by: "peer-a".into(),
        signed_at: "20".into(),
    };
    let local = Vault { id: "vault-1".into(), name: "team".into(), path: "/a/vaults/vault-1".into(), created_at: "0".into() };
    let remote = Vault { id: "vault-1".into(), name: "team".into(), path: "/b/vaults/vault-1".into(), created_at: "0".into() };
    Replication::new(
        session,
        App::with_home("/a".to_string()),
        App::with_home("/b".to_string()),
        identity,
        peer,
        repo,
        checkpoint,
        local,
        remote,
    )
}

fn effects(action: ReplicationAction) -> Vec<Effect> {
    match action {
        ReplicationAction::Run(effects) => effects,
        ReplicationAction::Finish(outcome) => panic!("run ended early: {:?}", outcome),
    }
}

fn cp(id: &str, parent: &str) -> Checkpoint {
    let mut c = demo_run().checkpoint;
    c.id = id.into();
    c.parent = parent.into();
    c
}

#[test]
fn replication_runs_through_its_stages() {
    let mut run = demo_run();
    let key = new_key();
    run.identity.public_key = public_hex(&key);
    let first = effects(replication_step(&mut run, ReplicationEvent::Begin { remote_mirror_exists: false }));
    assert_eq!(run.stage, ReplicationStage::Mirroring);
    assert_eq!(run.session.phase, "transferring");
    assert_eq!(run.session.transfer_artifact, "/b/vaults/vault-1/repositories/repo-1.git");
    match &first[0] {
        Effect::Write(r) => assert_eq!(r.path, "/a/sessions/s1"),
        other => panic!("unexpected {:?}", other),
    }
    match &first[1] {
        Effect::Git(c) => assert_eq!(
            c.args,
            vec!["clone", "--mirror", "/a/vaults/vault-1/repositories/repo-1.git", "/b/vaults/vault-1/repositories/repo-1.git"]
        ),
        other => panic!("unexpected {:?}", other),
    }

    let second = effects(replication_step(&mut run, ReplicationEvent::Mirrored { outcome: Ok(()), checkpoint_stored: false }));
    assert_eq!(run.stage, ReplicationStage::Recording);
    assert_eq!(second.len(), 3);
    match &second[0] {
        Effect::Write(r) => {
            assert_eq!(r.path, "/b/vaults/vault-1/metadata/repos/repo-1");
            assert!(r.fields.contains(&("path".to_string(), "peer-replica://peer-a/demo".to_string())));
        }
        other => panic!("unexpected {:?}", other),
    }
    match &second[1] {
        Effect::Write(r) => assert!(r.fields.contains(&("status".to_string(), "replicated-verified".to_string()))),
        other => panic!("unexpected {:?}", other),
    }

    let third = effects(replication_step(
        &mut run,
        ReplicationEvent::Recorded { outcome: Ok(()), signature: "ssig".into(), signed_at: "30".into() },
    ));
    assert_eq!(run.stage, ReplicationStage::Propagating);
    assert_eq!(run.session.signed_by, "peer-a");
    assert_eq!(third.len(), 2);

    let rsig = sign_with(&key, &replication_payload("peer-b", "repo-1", "cp-2", "complete"));
    let fourth = effects(replication_step(
        &mut run,
        ReplicationEvent::Propagated {
            outcome: Ok(()),
            known: vec![cp("cp-1", "")],
            signature: rsig,
            signed_at: "31".into(),
            updated_at: "32".into(),
        },
    ));
    assert_eq!(run.stage, ReplicationStage::Validating);
    assert_eq!(run.session.phase, "validating");
    match &fourth[0] {
        Effect::Write(r) => {
            assert_eq!(r.path, "/a/vaults/vault-1/replication/peer-b-repo-1");
            assert!(r.fields.contains(&("checkpoint_lineage".to_string(), "cp-2->cp-1".to_string())));
        }
        other => panic!("unexpected {:?}", other),
    }
    match &fourth[2] {
        Effect::Log { path, line } => {
            assert_eq!(path, "/a/vaults/vault-1/logs/replication-peer-b-repo-1.log");
            assert_eq!(line, "replicated checkpoint=cp-2 session=s1");
        }
        other => panic!("unexpected {:?}", other),
    }

    let fifth = effects(replication_step(&mut run, ReplicationEvent::Validated { outcome: Ok(()) }));
    assert_eq!(run.stage, ReplicationStage::Settled);
    assert_eq!(run.session.transfer_offset, "0");
    assert_eq!(fifth.len(), 2);

    match replication_step(&mut run, ReplicationEvent::Stored { outcome: Ok(()) }) {
        ReplicationAction::Finish(outcome) => assert!(outcome.is_ok()),
        other => panic!("unexpected {:?}", other),
    }
    assert_eq!(run.stage, ReplicationStage::Done);
}

#[test]
fn replication_stops_on_the_first_failure() {
    let mut run = demo_run();
    let _ = replication_step(&mut run, ReplicationEvent::Begin { remote_mirror_exists: true });
    match replication_step(
        &mut run,
        ReplicationEvent::Mirrored { outcome: Err(AppError::new("git failed: no route")), checkpoint_stored: true },
    ) {
        ReplicationAction::Finish(Err(e)) => assert_eq!(e.message(), "git failed: no route"),
        other => panic!("unexpected {:?}", other),
    }
    assert_eq!(run.stage, ReplicationStage::Failed);
}

#[test]
fn replication_refuses_a_bad_replication_signature() {
    let mut run = demo_run();
    let key = new_key();
    run.identity.public_key = public_hex(&key);
    let _ = replication_step(&mut run, ReplicationEvent::Begin { remote_mirror_exists: true });
    let _ = replication_step(&mut run, ReplicationEvent::Mirrored { outcome: Ok(()), checkpoint_stored: true });
    let _ = replication_step(
        &mut run,
        ReplicationEvent::Recorded { outcome: Ok(()), signature: "s".into(), signed_at: "1".into() },
    );
    let action = replication_step(
        &mut run,
        ReplicationEvent::Propagated {
            outcome: Ok(()),
            known: vec![cp("cp-1", "")],
            signature: sign_with(&key, "replication:peer-b:repo-1:cp-2:partial"),
            signed_at: "2".into(),
            updated_at: "3".into(),
        },
    );
    match action {
        ReplicationAction::Finish(Err(e)) => assert_eq!(e.message(), "signature verification failed"),
        other => panic!("unexpected {:?}", other),
    }
    assert_eq!(run.stage, ReplicationStage::Failed);
}

fn new_key() -> rcgen::KeyPair {
    rcgen::KeyPair::generate().unwrap()
}

fn public_hex(key: &rcgen::KeyPair) -> String {
    gitp2p::digest::hex_encode(key.public_key_raw())
}

fn sign_with(key: &rcgen::KeyPair, payload: &str) -> String {
    let der = rustls::pki_types::PrivateKeyDer::Pkcs8(rustls::pki_types::PrivatePkcs8KeyDer::from(key.serialize_der()));
    let signing = rustls::crypto::ring::sign::any_ecdsa_type(&der).unwrap();
    let signer = signing.choose_scheme(&[rustls::SignatureScheme::ECDSA_NISTP256_SHA256]).unwrap();
    gitp2p::digest::hex_encode(&signer.sign(payload.as_bytes()).unwrap())
}
