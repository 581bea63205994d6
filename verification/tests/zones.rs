use gitp2p::models::{AuthDecision, Repo, RepoAction};
use gitp2p::checkpoint::{default_peer_trusted, peer_trusted_for_repo, validate_checkpoint_for_sync};
use gitp2p::vault::App;
use gitp2p::zones::{authorize_repo_action, enforce_repo_action, is_valid_zone};

fn repo(zone: &str) -> Repo {
    Repo {
        id: "repo-1".into(),
        name: "repo".into(),
        path: "/tmp/repo".into(),
        vault_id: "vault-1".into(),
        trust_zone: zone.into(),
        sync_state: "registered".into(),
        latest_checkpoint: String::new(),
        created_at: "0".into(),
    }
}

#[test]
fn quarantined_blocks_checkpoint() {
    assert_eq!(
        authorize_repo_action(&repo("quarantined"), RepoAction::Checkpoint, false, false).unwrap(),
        AuthDecision::Deny
    );
}

#[test]
fn readonly_blocks_push() {
    assert_eq!(
        authorize_repo_action(&repo("readonly"), RepoAction::SyncPush, false, false).unwrap(),
        AuthDecision::Deny
    );
}

#[test]
fn trusted_zone_allows_every_action() {
    for action in [
        RepoAction::Checkpoint,
        RepoAction::SyncPush,
        RepoAction::SyncPull,
        RepoAction::Export,
        RepoAction::Recover,
    ] {
        assert_eq!(authorize_repo_action(&repo("trusted"), action, false, false).unwrap(), AuthDecision::Allow);
    }
}

#[test]
fn protected_push_needs_approval() {
    assert_eq!(
        authorize_repo_action(&repo("protected"), RepoAction::SyncPush, false, false).unwrap(),
        AuthDecision::RequiresApproval
    );
    assert_eq!(
        authorize_repo_action(&repo("protected"), RepoAction::SyncPush, true, false).unwrap(),
        AuthDecision::Allow
    );
    let err = enforce_repo_action(&repo("protected"), RepoAction::SyncPush, false, false).unwrap_err();
    assert_eq!(
        err.message(),
        "repository 'repo' in zone 'protected' requires approval; pass --requires-approval"
    );
}

#[test]
fn experimental_zone_refuses_export() {
    let err = enforce_repo_action(&repo("experimental"), RepoAction::Export, true, true).unwrap_err();
    assert_eq!(err.message(), "action blocked for repository 'repo' in trust zone 'experimental'");
    assert!(enforce_repo_action(&repo("experimental"), RepoAction::Checkpoint, false, false).is_ok());
}

#[test]
fn shared_zone_pushes_only_to_trusted_peers() {
    assert_eq!(
        authorize_repo_action(&repo("shared"), RepoAction::SyncPush, false, false).unwrap(),
        AuthDecision::Deny
    );
    assert_eq!(
        authorize_repo_action(&repo("shared"), RepoAction::SyncPush, false, true).unwrap(),
        AuthDecision::Allow
    );
}

#[test]
fn unknown_zone_is_an_error() {
    let err = authorize_repo_action(&repo("nowhere"), RepoAction::Checkpoint, false, false).unwrap_err();
    assert_eq!(err.message(), "unknown trust zone 'nowhere'");
    assert!(!is_valid_zone("nowhere"));
    assert!(is_valid_zone("ai-generated"));
}

#[test]
fn quarantined_export_is_refused() {
    let err = enforce_repo_action(&repo("quarantined"), RepoAction::Export, false, false).unwrap_err();
    assert_eq!(err.message(), "action blocked for repository 'repo' in trust zone 'quarantined'");
}

#[test]
fn peers_are_untrusted_by_default() {
    let app = App::with_home("/tmp/home".to_string());
    let trusted = default_peer_trusted(&app);
    assert!(!trusted);
    assert!(!peer_trusted_for_repo(&repo("shared"), trusted));
    assert!(peer_trusted_for_repo(&repo("shared"), true));
    assert!(validate_checkpoint_for_sync(&repo("shared"), false, trusted).is_err());
    assert!(validate_checkpoint_for_sync(&repo("shared"), false, true).is_ok());
}
