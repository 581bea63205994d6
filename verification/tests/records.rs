use gitp2p::digest::{hex_decode_text, hex_encode};
use gitp2p::kv::KvFields;
use gitp2p::models::{Checkpoint, Identity, Policy, Repo, Session, SessionPhase, Vault};
use gitp2p::policies::{
    default_policy, enforce_peer_policy, load_policy, merged_policy, set_policy_field, write_policy,
    zone_requires_policy_approval,
};
use gitp2p::signing::{
    checkpoint_payload, replication_payload, session_payload, sign_checkpoint, verify_bytes, verify_checkpoint,
    verify_replication, verify_session,
};
use gitp2p::error::AppError;
use gitp2p::vault::{
    read_checkpoint, read_repo, read_session, write_checkpoint, write_repo, write_session, App,
};

fn fields_of(items: &[(&str, &str)]) -> KvFields {
    items.iter().map(|(k, v)| (k.to_string(), v.to_string())).collect()
}

fn sample_repo() -> Repo {
    Repo {
        id: "repo-1".into(),
        name: "demo".into(),
        path: "/work/demo".into(),
        vault_id: "vault-1".into(),
        trust_zone: "trusted".into(),
        sync_state: "registered".into(),
        latest_checkpoint: "cp-1".into(),
        created_at: "100".into(),
    }
}

fn sample_vault() -> Vault {
    Vault { id: "vault-1".into(), name: "team".into(), path: "/home/v".into(), created_at: "1".into() }
}

fn sample_checkpoint(id: &str, created_at: &str) -> Checkpoint {
    Checkpoint {
        id: id.into(),
        repo_id: "repo-1".into(),
        vault_id: "vault-1".into(),
        commit: "abc".into(),
        parent: String::new(),
        created_at: created_at.into(),
        status: "created".into(),
        signature: String::new(),
        signed_by: String::new(),
        signed_at: String::new(),
    }
}

#[test]
fn repo_record_reads_back() {
    let record = write_repo(&sample_vault(), &sample_repo());
    assert_eq!(record.path, "/home/v/metadata/repos/repo-1");
    let back = read_repo(&record.fields).unwrap();
    assert_eq!(back.id, "repo-1");
    assert_eq!(back.path, "/work/demo");
    assert_eq!(back.latest_checkpoint, "cp-1");
}

#[test]
fn repo_record_needs_its_fields() {
    let err = read_repo(&fields_of(&[("id", "r"), ("name", "n")])).unwrap_err();
    assert_eq!(err.message(), "missing field 'path'");
}

#[test]
fn checkpoints_are_never_overwritten() {
    let cp = sample_checkpoint("cp-9", "5");
    let err = write_checkpoint(&sample_vault(), &cp, true).unwrap_err();
    assert_eq!(err.message(), "checkpoint id collision; refusing to overwrite immutable metadata");
    let record = write_checkpoint(&sample_vault(), &cp, false).unwrap();
    assert_eq!(record.path, "/home/v/metadata/checkpoints/cp-9");
    let back = read_checkpoint(&record.fields).unwrap();
    assert_eq!(back.created_at, "5");
}

#[test]
fn session_record_reads_back() {
    let app = App::with_home("/h".to_string());
    let session = Session {
        id: "s1".into(),
        peer_id: "p".into(),
        repo_id: "r".into(),
        checkpoint_id: "c".into(),
        direction: "push".into(),
        state: "replicated".into(),
        encrypted: String::new(),
        created_at: "7".into(),
        phase: SessionPhase::Transferring.as_str().into(),
        transfer_artifact: String::new(),
        bytes_transferred: "0".into(),
        transfer_offset: "0".into(),
        signature: String::new(),
        signed_by: String::new(),
        signed_at: String::new(),
    };
    let record = write_session(&app, &session);
    assert_eq!(record.path, "/h/sessions/s1");
    let back = read_session(&record.fields).unwrap();
    assert_eq!(back.phase, "transferring");
    assert_eq!(SessionPhase::parse("transferring"), Some(SessionPhase::Transferring));
    assert_eq!(SessionPhase::parse("resting"), None);
}

#[test]
fn default_policy_holds_approval_zones() {
    let p = default_policy();
    assert_eq!(p.require_approval_for_zones, "protected,experimental,ai-generated");
    assert!(zone_requires_policy_approval(&p, "experimental"));
    assert!(!zone_requires_policy_approval(&p, "trusted"));
    let loaded = load_policy(None);
    assert_eq!(loaded.require_approval_for_zones, p.require_approval_for_zones);
}

#[test]
fn repository_policy_overrides_vault_policy() {
    let mut vault_policy = Policy::empty();
    vault_policy.blocked_peer_ids = "peer-x".into();
    let mut repo_policy = Policy::empty();
    repo_policy.allowed_peer_ids = "peer-a".into();
    let merged = merged_policy(&vault_policy, Some(&repo_policy));
    assert_eq!(merged.allowed_peer_ids, "peer-a");
    assert_eq!(merged.blocked_peer_ids, "peer-x");
    assert_eq!(merged.require_approval_for_zones, "protected,experimental,ai-generated");
}

#[test]
fn blocked_and_unlisted_peers_are_refused() {
    let mut p = Policy::empty();
    p.blocked_peer_ids = "peer-b".into();
    p.allowed_peer_ids = "peer-a, peer-b".into();
    assert_eq!(enforce_peer_policy(&p, "peer-b").unwrap_err().message(), "peer 'peer-b' is blocked by vault policy");
    assert_eq!(
        enforce_peer_policy(&p, "peer-c").unwrap_err().message(),
        "peer 'peer-c' is not in allowed_peer_ids policy"
    );
    assert!(enforce_peer_policy(&p, "peer-a").is_ok());
}

#[test]
fn policy_fields_are_set_by_name() {
    let mut p = Policy::empty();
    set_policy_field(&mut p, "retention_max_checkpoints", "3").unwrap();
    assert_eq!(p.retention_max_checkpoints, "3");
    let err = set_policy_field(&mut p, "colour", "blue").unwrap_err();
    assert_eq!(err.message(), "unknown policy field 'colour'");
    let record = write_policy("/v/policies/default.policy", &p);
    assert_eq!(record.path, "/v/policies/default.policy");
    let stored = load_policy(Some(&record.fields));
    assert_eq!(stored.retention_max_checkpoints, "3");
}

#[test]
fn signed_payloads_name_their_parts() {
    let mut cp = sample_checkpoint("cp-1", "5");
    assert_eq!(checkpoint_payload(&cp), "checkpoint:cp-1:repo-1:vault-1:abc:");
    assert_eq!(replication_payload("p", "r", "c", "complete"), "replication:p:r:c:complete");
    let identity = Identity {
        peer_id: "peer-me".into(),
        public_key: "pk".into(),
        private_key: "sk".into(),
        fingerprint: "fp".into(),
        created_at: "0".into(),
    };
    assert!(verify_checkpoint(&cp, "not hex").is_ok());
    sign_checkpoint(&identity, &mut cp, "sig", "9");
    assert_eq!(cp.signed_by, "peer-me");
    assert_eq!(verify_checkpoint(&cp, "pk").unwrap_err().message(), "malformed hexadecimal key material");
}

#[test]
fn signatures_hold_only_over_their_payload_and_key() {
    let key = new_key();
    let other = new_key();
    let payload = "checkpoint:cp-1:repo-1:vault-1:abc:";
    let signature = sign_with(&key, payload);
    assert!(verify_bytes(&public_hex(&key), payload, &signature).is_ok());
    assert_eq!(
        verify_bytes(&public_hex(&other), payload, &signature).unwrap_err().message(),
        "signature verification failed"
    );
    assert_eq!(
        verify_bytes(&public_hex(&key), "checkpoint:cp-2", &signature).unwrap_err().message(),
        "signature verification failed"
    );
    assert_eq!(
        verify_bytes(&public_hex(&key), payload, "abc").unwrap_err().message(),
        "malformed hexadecimal key material"
    );
    assert_eq!(
        verify_bytes(&public_hex(&key), payload, "zz").unwrap_err().message(),
        "malformed hexadecimal key material"
    );
    let mut upper = signature.clone();
    upper.make_ascii_uppercase();
    assert!(verify_bytes(&public_hex(&key).to_uppercase(), payload, &upper).is_ok());
}

#[test]
fn signed_records_verify_under_the_signer_key() {
    let key = new_key();
    let identity = Identity {
        peer_id: "peer-me".into(),
        public_key: public_hex(&key),
        private_key: String::new(),
        fingerprint: "fp".into(),
        created_at: "0".into(),
    };
    let mut cp = sample_checkpoint("cp-1", "5");
    let signature = sign_with(&key, &checkpoint_payload(&cp));
    sign_checkpoint(&identity, &mut cp, &signature, "9");
    assert!(verify_checkpoint(&cp, &identity.public_key).is_ok());
    assert_eq!(
        verify_checkpoint(&cp, &public_hex(&new_key())).unwrap_err().message(),
        "signature verification failed"
    );
    let mut tampered = cp.clone();
    tampered.commit = "def".into();
    assert!(verify_checkpoint(&tampered, &identity.public_key).is_err());

    let rsig = sign_with(&key, &replication_payload("p", "r", "c", "complete"));
    assert!(verify_replication(&identity.public_key, "p", "r", "c", "complete", &rsig).is_ok());
    assert!(verify_replication(&identity.public_key, "p", "r", "c", "partial", &rsig).is_err());
    assert!(verify_replication(&identity.public_key, "p", "r", "c", "partial", "").is_ok());

    let mut session = sample_session_for_signing();
    assert!(verify_session(&session, "zz").is_ok());
    session.signature = sign_with(&key, &session_payload(&session));
    assert!(verify_session(&session, &identity.public_key).is_ok());
    session.signature = sign_with(&key, "something else");
    assert_eq!(
        verify_session(&session, &identity.public_key).unwrap_err().message(),
        "signature verification failed"
    );
}

fn sample_session_for_signing() -> Session {
    Session {
        id: "s1".into(),
        peer_id: "peer-b".into(),
        repo_id: "repo-1".into(),
        checkpoint_id: "cp-1".into(),
        direction: "push".into(),
        state: "replicated".into(),
        encrypted: String::new(),
        created_at: "5".into(),
        phase: "negotiating".into(),
        transfer_artifact: String::new(),
        bytes_transferred: "0".into(),
        transfer_offset: "0".into(),
        signature: String::new(),
        signed_by: String::new(),
        signed_at: String::new(),
    }
}

fn new_key() -> rcgen::KeyPair {
    rcgen::KeyPair::generate().unwrap()
}

fn public_hex(key: &rcgen::KeyPair) -> String {
    gitp2p::digest::hex_encode(key.public_key_raw())
}

fn sign_with(key: &rcgen::KeyPair, payload: &str) -> String {
    let der = rustls::pki_types::PrivateKeyDer::Pkcs8(rustls::pki_types::PrivatePkcs8KeyDer::from(key.serialize_der()));
    let signing = rustls::crypto::ring::sign::any_ecdsa_type(&der).unwrap();
    let signer = signing.choose_scheme(&[rustls::SignatureScheme::ECDSA_NISTP256_SHA256]).unwrap();
    gitp2p::digest::hex_encode(&signer.sign(payload.as_bytes()).unwrap())
}


#[test]
fn hexadecimal_text_decodes_to_bytes() {
    assert_eq!(hex_decode_text("00ff10Ab"), Some(vec![0u8, 255, 16, 171]));
    assert_eq!(hex_decode_text(""), Some(Vec::new()));
    assert_eq!(hex_decode_text("abc"), None);
    assert_eq!(hex_decode_text("+f"), None);
    assert_eq!(hex_decode_text("é1"), None);
    let bytes = vec![1u8, 2, 254, 0x7f];
    assert_eq!(hex_decode_text(&hex_encode(&bytes)), Some(bytes));
}

#[test]
fn a_set_policy_field_loads_back() {
    let mut policy = default_policy();
    set_policy_field(&mut policy, "blocked_peer_ids", "peer-x,peer-y").unwrap();
    let record = write_policy("/v/policies/default.policy", &policy);
    let loaded = load_policy(Some(&gitp2p::kv::parse_kv(&gitp2p::kv::render_kv(&record.fields))));
    assert_eq!(loaded.blocked_peer_ids, "peer-x,peer-y");
    assert_eq!(loaded.require_approval_for_zones, default_policy().require_approval_for_zones);
    assert_eq!(loaded.allowed_peer_ids, "");
    assert!(set_policy_field(&mut policy, "colour", "blue").is_err());
    assert_eq!(policy.blocked_peer_ids, "peer-x,peer-y");
}
