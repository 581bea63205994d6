use gitp2p::models::Peer;
use gitp2p::tooling::{command_error, command_result, ensure_git_repo, media_import, validate_media_path};
use gitp2p::error::AppError;
use gitp2p::trust_graph::{format_trust_graph, propagate_trust, read_peer, request_trust, trust_graph, write_peer};

fn peer_with(id: &str, trust: &str) -> Peer {
    Peer {
        id: id.into(),
        public_key: format!("key-{id}"),
        home: format!("/homes/{id}"),
        trust_state: trust.into(),
        capabilities: "filesystem".into(),
        vaults: "team".into(),
        discovered_at: "4".into(),
        listen_port: 9134,
    }
}

#[test]
fn trust_graph_lists_trusted_and_readonly_peers_once() {
    let peers = vec![
        peer_with("p1", "trusted"),
        peer_with("p2", "untrusted"),
        peer_with("p3", "readonly"),
        peer_with("p1", "trusted"),
    ];
    assert_eq!(trust_graph(&peers), vec!["p1", "p3"]);
    assert_eq!(format_trust_graph("me", &peers), "trust-graph:\n  me -> p1\n  me -> p3\n");
    assert_eq!(format_trust_graph("me", &Vec::new()), "trust-graph:\n");
}

#[test]
fn propagation_makes_untrusted_peers_pending() {
    let (peer, record) = propagate_trust("/h", "me", "p2", peer_with("p2", "untrusted"), "6");
    assert_eq!(peer.trust_state, "pending");
    assert_eq!(record.path, "/h/trust-graph/me-p2");
    assert_eq!(record.fields[2], ("state".to_string(), "pending".to_string()));
    let (kept, _) = propagate_trust("/h", "me", "p1", peer_with("p1", "trusted"), "6");
    assert_eq!(kept.trust_state, "trusted");
}

#[test]
fn trust_requests_are_pending() {
    let record = request_trust("/h", &peer_with("p4", "untrusted"), "8");
    assert_eq!(record.path, "/h/trust-requests/p4");
    assert_eq!(record.fields[1], ("public_key".to_string(), "key-p4".to_string()));
    assert_eq!(record.fields[2], ("state".to_string(), "pending".to_string()));
}

#[test]
fn peer_records_read_back() {
    let record = write_peer("/h", &peer_with("p5", "trusted"));
    assert_eq!(record.path, "/h/peers/p5");
    let back = read_peer(&record.fields).unwrap();
    assert_eq!(back.listen_port, 9134);
    assert_eq!(back.home, "/homes/p5");
    let err = read_peer(&vec![("id".to_string(), "x".to_string())]).unwrap_err();
    assert_eq!(err.message(), "missing field 'public_key'");
}

#[test]
fn failed_commands_explain_themselves() {
    assert_eq!(command_error("git", "  fatal: no repo \n", "out"), "git failed: fatal: no repo");
    assert_eq!(command_error("git", " \n", " only stdout "), "git failed: only stdout");
    assert_eq!(command_result("git", true, "abc\n".to_string(), "").unwrap(), "abc\n");
    assert_eq!(command_result("git", false, String::new(), "boom").unwrap_err().message(), "git failed: boom");
    assert_eq!(ensure_git_repo("/x", false, Ok(())).unwrap_err().message(), "path '/x' does not exist");
    assert!(ensure_git_repo("/x", true, Ok(())).is_ok());
}

#[test]
fn media_paths_must_exist() {
    assert_eq!(validate_media_path("/m", false, Ok("/m".into())).unwrap_err().message(), "media path '/m' does not exist");
    assert_eq!(validate_media_path("/m", true, Ok("/real/m".into())).unwrap(), "/real/m");
    assert!(validate_media_path("/m", true, Err(AppError::new("io"))).is_err());
    assert_eq!(media_import("/m", "a.bundle", true).unwrap(), "/m/a.bundle");
    assert_eq!(
        media_import("/m", "a.bundle", false).unwrap_err().message(),
        "media artifact '/m/a.bundle' not found on removable media"
    );
}
