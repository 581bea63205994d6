//! The records that gitp2p keeps: identities, vaults, repositories,
//! checkpoints, peers, sessions, policies and federation records. Paths are
//! held as strings; their mathematical model is the sequence of characters.
use vstd::prelude::*;

verus! {

/// The version of gitp2p.
pub const VERSION: &'static str = "0.1.0";

/// An action on a repository that a trust zone may allow or refuse.
#[derive(Clone, Copy, Debug, PartialEq, Eq, Structural)]
pub enum RepoAction {
    Checkpoint,
    SyncPush,
    SyncPull,
    Export,
    Recover,
}

/// The outcome of asking a trust zone about an action.
#[derive(Clone, Copy, Debug, PartialEq, Eq, Structural)]
pub enum AuthDecision {
    Allow,
    Deny,
    RequiresApproval,
}

/// The local peer's keys.
#[derive(Clone, Debug)]
pub struct Identity {
    pub peer_id: String,
    pub public_key: String,
    pub private_key: String,
    pub fingerprint: String,
    pub created_at: String,
}

/// A vault: a directory holding repositories, checkpoints and policies.
#[derive(Clone, Debug)]
pub struct Vault {
    pub id: String,
    pub name: String,
    pub path: String,
    pub created_at: String,
}

pub struct VaultView {
    pub id: Seq<char>,
    pub name: Seq<char>,
    pub path: Seq<char>,
    pub created_at: Seq<char>,
}

impl View for Vault {
    type V = VaultView;

    open spec fn view(&self) -> VaultView {
        VaultView {
            id: self.id@,
            name: self.name@,
            path: self.path@,
            created_at: self.created_at@,
        }
    }
}

impl Vault {
    /// A field-by-field copy.
    pub fn copied(&self) -> (res: Vault)
        ensures
            res@ == self@,
    {
        Vault {
            id: self.id.clone(),
            name: self.name.clone(),
            path: self.path.clone(),
            created_at: self.created_at.clone(),
        }
    }
}

/// A repository registered in a vault.
#[derive(Clone, Debug)]
pub struct Repo {
    pub id: String,
    pub name: String,
    pub path: String,
    pub vault_id: String,
    pub trust_zone: String,
    pub sync_state: String,
    pub latest_checkpoint: String,
    pub created_at: String,
}

pub struct RepoView {
    pub id: Seq<char>,
    pub name: Seq<char>,
    pub path: Seq<char>,
    pub vault_id: Seq<char>,
    pub trust_zone: Seq<char>,
    pub sync_state: Seq<char>,
    pub latest_checkpoint: Seq<char>,
    pub created_at: Seq<char>,
}

impl View for Repo {
    type V = RepoView;

    open spec fn view(&self) -> RepoView {
        RepoView {
            id: self.id@,
            name: self.name@,
            path: self.path@,
            vault_id: self.vault_id@,
            trust_zone: self.trust_zone@,
            sync_state: self.sync_state@,
            latest_checkpoint: self.latest_checkpoint@,
            created_at: self.created_at@,
        }
    }
}

impl Repo {
    /// A field-by-field copy.
    pub fn copied(&self) -> (res: Repo)
        ensures
            res@ == self@,
    {
        Repo {
            id: self.id.clone(),
            name: self.name.clone(),
            path: self.path.clone(),
            vault_id: self.vault_id.clone(),
            trust_zone: self.trust_zone.clone(),
            sync_state: self.sync_state.clone(),
            latest_checkpoint: self.latest_checkpoint.clone(),
            created_at: self.created_at.clone(),
        }
    }
}

/// An immutable recovery point of a repository.
#[derive(Clone, Debug)]
pub struct Checkpoint {
    pub id: String,
    pub repo_id: String,
    pub vault_id: String,
    pub commit: String,
    pub parent: String,
    pub created_at: String,
    pub status: String,
    pub signature: String,
    pub signed_by: String,
    pub signed_at: String,
}

pub struct CheckpointView {
    pub id: Seq<char>,
    pub repo_id: Seq<char>,
    pub vault_id: Seq<char>,
    pub commit: Seq<char>,
    pub parent: Seq<char>,
    pub created_at: Seq<char>,
    pub status: Seq<char>,
    pub signature: Seq<char>,
    pub signed_by: Seq<char>,
    pub signed_at: Seq<char>,
}

impl View for Checkpoint {
    type V = CheckpointView;

    open spec fn view(&self) -> CheckpointView {
        CheckpointView {
            id: self.id@,
            repo_id: self.repo_id@,
            vault_id: self.vault_id@,
            commit: self.commit@,
            parent: self.parent@,
            created_at: self.created_at@,
            status: self.status@,
            signature: self.signature@,
            signed_by: self.signed_by@,
            signed_at: self.signed_at@,
        }
    }
}

impl Checkpoint {
    /// A field-by-field copy.
    pub fn copied(&self) -> (res: Checkpoint)
        ensures
            res@ == self@,
    {
        Checkpoint {
            id: self.id.clone(),
            repo_id: self.repo_id.clone(),
            vault_id: self.vault_id.clone(),
            commit: self.commit.clone(),
            parent: self.parent.clone(),
            created_at: self.created_at.clone(),
            status: self.status.clone(),
            signature: self.signature.clone(),
            signed_by: self.signed_by.clone(),
            signed_at: self.signed_at.clone(),
        }
    }
}

/// A known peer and the trust given to it.
#[derive(Clone, Debug)]
pub struct Peer {
    pub id: String,
    pub public_key: String,
    pub home: String,
    pub trust_state: String,
    pub capabilities: String,
    pub vaults: String,
    pub discovered_at: String,
    pub listen_port: u16,
}

pub struct PeerView {
    pub id: Seq<char>,
    pub public_key: Seq<char>,
    pub home: Seq<char>,
    pub trust_state: Seq<char>,
    pub capabilities: Seq<char>,
    pub vaults: Seq<char>,
    pub discovered_at: Seq<char>,
    pub listen_port: u16,
}

impl View for Peer {
    type V = PeerView;

    open spec fn view(&self) -> PeerView {
        PeerView {
            id: self.id@,
            public_key: self.public_key@,
            home: self.home@,
            trust_state: self.trust_state@,
            capabilities: self.capabilities@,
            vaults: self.vaults@,
            discovered_at: self.discovered_at@,
            listen_port: self.listen_port,
        }
    }
}

impl Peer {
    /// A field-by-field copy.
    pub fn copied(&self) -> (res: Peer)
        ensures
            res@ == self@,
    {
        Peer {
            id: self.id.clone(),
            public_key: self.public_key.clone(),
            home: self.home.clone(),
            trust_state: self.trust_state.clone(),
            capabilities: self.capabilities.clone(),
            vaults: self.vaults.clone(),
            discovered_at: self.discovered_at.clone(),
            listen_port: self.listen_port,
        }
    }
}

/// The phases that a synchronisation session goes through.
#[derive(Clone, Copy, Debug, PartialEq, Eq, Structural)]
pub enum SessionPhase {
    Discovered,
    Authenticated,
    Negotiating,
    Transferring,
    Validating,
    Propagating,
    Complete,
    Failed,
}

/// The name under which each phase is stored.
pub open spec fn phase_name(p: SessionPhase) -> Seq<char> {
    match p {
        SessionPhase::Discovered => "discovered"@,
        SessionPhase::Authenticated => "authenticated"@,
        SessionPhase::Negotiating => "negotiating"@,
        SessionPhase::Transferring => "transferring"@,
        SessionPhase::Validating => "validating"@,
        SessionPhase::Propagating => "propagating"@,
        SessionPhase::Complete => "complete"@,
        SessionPhase::Failed => "failed"@,
    }
}

/// The phase stored under `name`, if any.
pub open spec fn phase_named(name: Seq<char>) -> Option<SessionPhase> {
    if name == "discovered"@ {
        Some(SessionPhase::Discovered)
    } else if name == "authenticated"@ {
        Some(SessionPhase::Authenticated)
    } else if name == "negotiating"@ {
        Some(SessionPhase::Negotiating)
    } else if name == "transferring"@ {
        Some(SessionPhase::Transferring)
    } else if name == "validating"@ {
        Some(SessionPhase::Validating)
    } else if name == "propagating"@ {
        Some(SessionPhase::Propagating)
    } else if name == "complete"@ {
        Some(SessionPhase::Complete)
    } else if name == "failed"@ {
        Some(SessionPhase::Failed)
    } else {
        None
    }
}

impl SessionPhase {
    /// The name under which the phase is stored.
    pub fn as_str(&self) -> (res: &'static str)
        ensures
            res@ == phase_name(*self),
    {
        match self {
            SessionPhase::Discovered => "discovered",
            SessionPhase::Authenticated => "authenticated",
            SessionPhase::Negotiating => "negotiating",
            SessionPhase::Transferring => "transferring",
            SessionPhase::Validating => "validating",
            SessionPhase::Propagating => "propagating",
            SessionPhase::Complete => "complete",
            SessionPhase::Failed => "failed",
        }
    }

    /// The phase stored under `value`, or `None` for any other string.
    pub fn parse(value: &str) -> (res: Option<SessionPhase>)
        ensures
            res == phase_named(value@),
    {
        if crate::text::same_text(value, "discovered") {
            Some(SessionPhase::Discovered)
        } else if crate::text::same_text(value, "authenticated") {
            Some(SessionPhase::Authenticated)
        } else if crate::text::same_text(value, "negotiating") {
            Some(SessionPhase::Negotiating)
        } else if crate::text::same_text(value, "transferring") {
            Some(SessionPhase::Transferring)
        } else if crate::text::same_text(value, "validating") {
            Some(SessionPhase::Validating)
        } else if crate::text::same_text(value, "propagating") {
            Some(SessionPhase::Propagating)
        } else if crate::text::same_text(value, "complete") {
            Some(SessionPhase::Complete)
        } else if crate::text::same_text(value, "failed") {
            Some(SessionPhase::Failed)
        } else {
            None
        }
    }
}

/// Every phase is parsed back from its name, and a name that parses is the
/// name of the phase it gives.
pub proof fn lemma_phase_names_roundtrip(p: SessionPhase, name: Seq<char>)
    ensures
        phase_named(phase_name(p)) == Some(p),
        phase_named(name) matches Some(q) ==> phase_name(q) == name,
{
    reveal_strlit("discovered");
    reveal_strlit("authenticated");
    reveal_strlit("negotiating");
    reveal_strlit("transferring");
    reveal_strlit("validating");
    reveal_strlit("propagating");
    reveal_strlit("complete");
    reveal_strlit("failed");
    assert("discovered"@.len() == 10 && "discovered"@[0] == 'd');
    assert("authenticated"@.len() == 13 && "authenticated"@[0] == 'a');
    assert("negotiating"@.len() == 11 && "negotiating"@[0] == 'n');
    assert("transferring"@.len() == 12 && "transferring"@[0] == 't');
    assert("validating"@.len() == 10 && "validating"@[0] == 'v');
    assert("propagating"@.len() == 11 && "propagating"@[0] == 'p');
    assert("complete"@.len() == 8 && "complete"@[0] == 'c');
    assert("failed"@.len() == 6 && "failed"@[0] == 'f');
}

/// A synchronisation session with a peer.
#[derive(Clone, Debug)]
pub struct Session {
    pub id: String,
    pub peer_id: String,
    pub repo_id: String,
    pub checkpoint_id: String,
    pub direction: String,
    pub state: String,
    pub encrypted: String,
    pub created_at: String,
    pub phase: String,
    pub transfer_artifact: String,
    pub bytes_transferred: String,
    pub transfer_offset: String,
    pub signature: String,
    pub signed_by: String,
    pub signed_at: String,
}

pub struct SessionView {
    pub id: Seq<char>,
    pub peer_id: Seq<char>,
    pub repo_id: Seq<char>,
    pub checkpoint_id: Seq<char>,
    pub direction: Seq<char>,
    pub state: Seq<char>,
    pub encrypted: Seq<char>,
    pub created_at: Seq<char>,
    pub phase: Seq<char>,
    pub transfer_artifact: Seq<char>,
    pub bytes_transferred: Seq<char>,
    pub transfer_offset: Seq<char>,
    pub signature: Seq<char>,
    pub signed_by: Seq<char>,
    pub signed_at: Seq<char>,
}

impl View for Session {
    type V = SessionView;

    open spec fn view(&self) -> SessionView {
        SessionView {
            id: self.id@,
            peer_id: self.peer_id@,
            repo_id: self.repo_id@,
            checkpoint_id: self.checkpoint_id@,
            direction: self.direction@,
            state: self.state@,
            encrypted: self.encrypted@,
            created_at: self.created_at@,
            phase: self.phase@,
            transfer_artifact: self.transfer_artifact@,
            bytes_transferred: self.bytes_transferred@,
            transfer_offset: self.transfer_offset@,
            signature: self.signature@,
            signed_by: self.signed_by@,
            signed_at: self.signed_at@,
        }
    }
}

impl Session {
    /// A field-by-field copy.
    pub fn copied(&self) -> (res: Session)
        ensures
            res@ == self@,
    {
        Session {
            id: self.id.clone(),
            peer_id: self.peer_id.clone(),
            repo_id: self.repo_id.clone(),
            checkpoint_id: self.checkpoint_id.clone(),
            direction: self.direction.clone(),
            state: self.state.clone(),
            encrypted: self.encrypted.clone(),
            created_at: self.created_at.clone(),
            phase: self.phase.clone(),
            transfer_artifact: self.transfer_artifact.clone(),
            bytes_transferred: self.bytes_transferred.clone(),
            transfer_offset: self.transfer_offset.clone(),
            signature: self.signature.clone(),
            signed_by: self.signed_by.clone(),
            signed_at: self.signed_at.clone(),
        }
    }
}

/// A vault or repository policy; every field is a string, empty when unset.
#[derive(Clone, Debug)]
pub struct Policy {
    pub require_approval_for_zones: String,
    pub allowed_peer_ids: String,
    pub blocked_peer_ids: String,
    pub retention_max_checkpoints: String,
    pub retention_max_age_days: String,
    pub protected_checkpoint_ids: String,
}

pub struct PolicyView {
    pub require_approval_for_zones: Seq<char>,
    pub allowed_peer_ids: Seq<char>,
    pub blocked_peer_ids: Seq<char>,
    pub retention_max_checkpoints: Seq<char>,
    pub retention_max_age_days: Seq<char>,
    pub protected_checkpoint_ids: Seq<char>,
}

impl View for Policy {
    type V = PolicyView;

    open spec fn view(&self) -> PolicyView {
        PolicyView {
            require_approval_for_zones: self.require_approval_for_zones@,
            allowed_peer_ids: self.allowed_peer_ids@,
            blocked_peer_ids: self.blocked_peer_ids@,
            retention_max_checkpoints: self.retention_max_checkpoints@,
            retention_max_age_days: self.retention_max_age_days@,
            protected_checkpoint_ids: self.protected_checkpoint_ids@,
        }
    }
}

/// The policy fields in their stored order, each with its name.
pub open spec fn policy_fields(p: PolicyView) -> Seq<(Seq<char>, Seq<char>)> {
    seq![
        ("require_approval_for_zones"@, p.require_approval_for_zones),
        ("allowed_peer_ids"@, p.allowed_peer_ids),
        ("blocked_peer_ids"@, p.blocked_peer_ids),
        ("retention_max_checkpoints"@, p.retention_max_checkpoints),
        ("retention_max_age_days"@, p.retention_max_age_days),
        ("protected_checkpoint_ids"@, p.protected_checkpoint_ids),
    ]
}

impl Policy {
    /// The policy with every field empty.
    pub fn empty() -> (res: Policy)
        ensures
            res@.require_approval_for_zones == Seq::<char>::empty(),
            res@.allowed_peer_ids == Seq::<char>::empty(),
            res@.blocked_peer_ids == Seq::<char>::empty(),
            res@.retention_max_checkpoints == Seq::<char>::empty(),
            res@.retention_max_age_days == Seq::<char>::empty(),
            res@.protected_checkpoint_ids == Seq::<char>::empty(),
    {
        Policy {
            require_approval_for_zones: String::new(),
            allowed_peer_ids: String::new(),
            blocked_peer_ids: String::new(),
            retention_max_checkpoints: String::new(),
            retention_max_age_days: String::new(),
            protected_checkpoint_ids: String::new(),
        }
    }

    /// A field-by-field copy.
    pub fn copied(&self) -> (res: Policy)
        ensures
            res@ == self@,
    {
        Policy {
            require_approval_for_zones: self.require_approval_for_zones.clone(),
            allowed_peer_ids: self.allowed_peer_ids.clone(),
            blocked_peer_ids: self.blocked_peer_ids.clone(),
            retention_max_checkpoints: self.retention_max_checkpoints.clone(),
            retention_max_age_days: self.retention_max_age_days.clone(),
            protected_checkpoint_ids: self.protected_checkpoint_ids.clone(),
        }
    }

    /// The fields in their stored order, each with its name.
    pub fn fields(&self) -> (res: Vec<(&'static str, &str)>)
        ensures
            res.deep_view() == policy_fields(self@),
    {
        let res = vec![
            ("require_approval_for_zones", self.require_approval_for_zones.as_str()),
            ("allowed_peer_ids", self.allowed_peer_ids.as_str()),
            ("blocked_peer_ids", self.blocked_peer_ids.as_str()),
            ("retention_max_checkpoints", self.retention_max_checkpoints.as_str()),
            ("retention_max_age_days", self.retention_max_age_days.as_str()),
            ("protected_checkpoint_ids", self.protected_checkpoint_ids.as_str()),
        ];
        assert(res.deep_view() =~= policy_fields(self@));
        res
    }
}

/// The policy fields of a federation domain.
#[derive(Clone, Debug)]
pub struct DomainPolicy {
    pub trust_policy: String,
    pub routing_policy: String,
    pub peering_policy: String,
}

impl DomainPolicy {
    /// The fields in their stored order, each with its name.
    pub fn fields(&self) -> (res: Vec<(&'static str, &str)>)
        ensures
            res.deep_view() == seq![
                ("trust_policy"@, self.trust_policy@),
                ("routing_policy"@, self.routing_policy@),
                ("peering_policy"@, self.peering_policy@),
            ],
    {
        let res = vec![
            ("trust_policy", self.trust_policy.as_str()),
            ("routing_policy", self.routing_policy.as_str()),
            ("peering_policy", self.peering_policy.as_str()),
        ];
        assert(res.deep_view() =~= seq![
            ("trust_policy"@, self.trust_policy@),
            ("routing_policy"@, self.routing_policy@),
            ("peering_policy"@, self.peering_policy@),
        ]);
        res
    }
}

/// A federation domain.
#[derive(Clone, Debug)]
pub struct FederationDomain {
    pub id: String,
    pub name: String,
    pub owner_peer_id: String,
    pub trust_policy: String,
    pub routing_policy: String,
    pub peering_policy: String,
    pub created_at: String,
    pub signature: String,
    pub signed_by: String,
    pub signed_at: String,
}

pub struct FederationDomainView {
    pub id: Seq<char>,
    pub name: Seq<char>,
    pub owner_peer_id: Seq<char>,
    pub trust_policy: Seq<char>,
    pub routing_policy: Seq<char>,
    pub peering_policy: Seq<char>,
    pub created_at: Seq<char>,
    pub signature: Seq<char>,
    pub signed_by: Seq<char>,
    pub signed_at: Seq<char>,
}

impl View for FederationDomain {
    type V = FederationDomainView;

    open spec fn view(&self) -> FederationDomainView {
        FederationDomainView {
            id: self.id@,
            name: self.name@,
            owner_peer_id: self.owner_peer_id@,
            trust_policy: self.trust_policy@,
            routing_policy: self.routing_policy@,
            peering_policy: self.peering_policy@,
            created_at: self.created_at@,
            signature: self.signature@,
            signed_by: self.signed_by@,
            signed_at: self.signed_at@,
        }
    }
}

/// A gateway of a federation domain.
#[derive(Clone, Debug)]
pub struct Gateway {
    pub id: String,
    pub domain_id: String,
    pub listen_addr: String,
    pub listen_port: u16,
    pub state: String,
    pub created_at: String,
    pub signature: String,
    pub signed_by: String,
    pub signed_at: String,
}

pub struct GatewayView {
    pub id: Seq<char>,
    pub domain_id: Seq<char>,
    pub listen_addr: Seq<char>,
    pub listen_port: u16,
    pub state: Seq<char>,
    pub created_at: Seq<char>,
    pub signature: Seq<char>,
    pub signed_by: Seq<char>,
    pub signed_at: Seq<char>,
}

impl View for Gateway {
    type V = GatewayView;

    open spec fn view(&self) -> GatewayView {
        GatewayView {
            id: self.id@,
            domain_id: self.domain_id@,
            listen_addr: self.listen_addr@,
            listen_port: self.listen_port,
            state: self.state@,
            created_at: self.created_at@,
            signature: self.signature@,
            signed_by: self.signed_by@,
            signed_at: self.signed_at@,
        }
    }
}

/// A peering between a local and a remote domain.
#[derive(Clone, Debug)]
pub struct Peering {
    pub id: String,
    pub local_domain_id: String,
    pub remote_domain_id: String,
    pub local_gateway_id: String,
    pub remote_gateway_id: String,
    pub state: String,
    pub created_at: String,
    pub signature: String,
    pub signed_by: String,
    pub signed_at: String,
}

pub struct PeeringView {
    pub id: Seq<char>,
    pub local_domain_id: Seq<char>,
    pub remote_domain_id: Seq<char>,
    pub local_gateway_id: Seq<char>,
    pub remote_gateway_id: Seq<char>,
    pub state: Seq<char>,
    pub created_at: Seq<char>,
    pub signature: Seq<char>,
    pub signed_by: Seq<char>,
    pub signed_at: Seq<char>,
}

impl View for Peering {
    type V = PeeringView;

    open spec fn view(&self) -> PeeringView {
        PeeringView {
            id: self.id@,
            local_domain_id: self.local_domain_id@,
            remote_domain_id: self.remote_domain_id@,
            local_gateway_id: self.local_gateway_id@,
            remote_gateway_id: self.remote_gateway_id@,
            state: self.state@,
            created_at: self.created_at@,
            signature: self.signature@,
            signed_by: self.signed_by@,
            signed_at: self.signed_at@,
        }
    }
}

impl Peering {
    /// A field-by-field copy.
    pub fn copied(&self) -> (res: Peering)
        ensures
            res@ == self@,
    {
        Peering {
            id: self.id.clone(),
            local_domain_id: self.local_domain_id.clone(),
            remote_domain_id: self.remote_domain_id.clone(),
            local_gateway_id: self.local_gateway_id.clone(),
            remote_gateway_id: self.remote_gateway_id.clone(),
            state: self.state.clone(),
            created_at: self.created_at.clone(),
            signature: self.signature.clone(),
            signed_by: self.signed_by.clone(),
            signed_at: self.signed_at.clone(),
        }
    }
}

/// A delegation of trust from one party to another.
#[derive(Clone, Debug)]
pub struct TrustDelegation {
    pub id: String,
    pub source_id: String,
    pub target_id: String,
    pub delegation_type: String,
    pub scope: String,
    pub parent_id: String,
    pub state: String,
    pub created_at: String,
    pub signature: String,
    pub signed_by: String,
    pub signed_at: String,
}

/// A route across federation gateways.
#[derive(Clone, Debug)]
pub struct GlobalRoute {
    pub id: String,
    pub destination: String,
    pub hops: String,
    pub gateway_hops: String,
    pub cost: u32,
    pub state: String,
    pub created_at: String,
    pub signature: String,
    pub signed_by: String,
    pub signed_at: String,
}

/// The route that a session took.
#[derive(Clone, Debug)]
pub struct SyncPath {
    pub session_id: String,
    pub repo_id: String,
    pub route_id: String,
    pub path: String,
    pub phase: String,
}

} // verus!
