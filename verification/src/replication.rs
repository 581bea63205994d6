//! Replicating a repository to a peer through the filesystem, as a state
//! machine: each step takes what the outside world reported and gives the
//! next effects to carry out (records to write, git commands to run, log
//! lines to append), or the end of the run. Any failure ends the run.
use vstd::prelude::*;

use crate::checkpoint::{checkpoint_lineage, copy_checkpoint_if_missing, lineage_of};
use crate::error::AppError;
use crate::kv::KvRecord;
use crate::layout::{mirror_path, path_join};
use crate::models::{
    Checkpoint, CheckpointView, Identity, Peer, Repo, RepoView, Session, SessionPhase, SessionView,
    Vault,
};
use crate::signing::{
    record_signature_failure, replication_payload_of, sign_replication, sign_session, verify_replication,
};
use crate::sorting::views_of;
use crate::sync::{
    finish_transfer, mirror_sync_commands, mirror_sync_of, replica_repo, replication_log_line,
    replication_state_fields, settled_bytes, start_transfer, write_replication_state, GitCommand,
    GitCommandView,
};
use crate::text::copy_str;
use crate::vault::{checkpoint_fields, repo_fields, session_fields, write_checkpoint, write_repo, write_session, App};

verus! {

/// Where a replication run stands.
#[derive(Clone, Copy, Debug, PartialEq, Eq, Structural)]
pub enum ReplicationStage {
    /// Nothing done yet.
    Start,
    /// The session is transferring; the mirror is being brought up to date.
    Mirroring,
    /// The peer's copy of the repository and checkpoint are being recorded.
    Recording,
    /// The signed session is being stored on both sides.
    Propagating,
    /// The replication state is recorded; the peer's mirror is being checked.
    Validating,
    /// The transfer is settled; the final session is being stored.
    Settled,
    /// The replication is complete.
    Done,
    /// The replication stopped on an error.
    Failed,
}

/// An effect for the caller to carry out, in order.
#[derive(Debug)]
pub enum Effect {
    /// Write a record.
    Write(KvRecord),
    /// Run a git command; its failure fails the run.
    Git(GitCommand),
    /// Append a line, after a timestamp, to a log file.
    Log { path: String, line: String },
}

pub enum EffectView {
    Write { path: Seq<char>, fields: Seq<(Seq<char>, Seq<char>)> },
    Git(GitCommandView),
    Log { path: Seq<char>, line: Seq<char> },
}

impl View for Effect {
    type V = EffectView;

    open spec fn view(&self) -> EffectView {
        match self {
            Effect::Write(r) => EffectView::Write { path: r.path@, fields: r.fields.deep_view() },
            Effect::Git(c) => EffectView::Git(c@),
            Effect::Log { path, line } => EffectView::Log { path: path@, line: line@ },
        }
    }
}

/// What the caller does next.
#[derive(Debug)]
pub enum ReplicationAction {
    /// Carry out the effects, then report back.
    Run(Vec<Effect>),
    /// The run is over, with its outcome.
    Finish(Result<(), AppError>),
}

/// What the caller reports to the run.
pub enum ReplicationEvent {
    /// Starting: whether the peer already has a mirror of the repository.
    Begin { remote_mirror_exists: bool },
    /// The mirror effects ran; whether the peer's vault already stores the
    /// checkpoint.
    Mirrored { outcome: Result<(), AppError>, checkpoint_stored: bool },
    /// The recording effects ran; the signature of the session's payload,
    /// made at `signed_at`.
    Recorded { outcome: Result<(), AppError>, signature: String, signed_at: String },
    /// The session was stored on both sides; the checkpoints to trace the
    /// lineage through, the signature of the replication payload made at
    /// `signed_at`, and the time of the record.
    Propagated {
        outcome: Result<(), AppError>,
        known: Vec<Checkpoint>,
        signature: String,
        signed_at: String,
        updated_at: String,
    },
    /// The validation effects ran.
    Validated { outcome: Result<(), AppError> },
    /// The final session was stored.
    Stored { outcome: Result<(), AppError> },
}

/// A replication of `checkpoint` of `repo` from the installation `app` to
/// `peer`, whose installation is `remote_app`.
#[derive(Debug)]
pub struct Replication {
    pub stage: ReplicationStage,
    pub session: Session,
    pub app: App,
    pub remote_app: App,
    pub identity: Identity,
    pub peer: Peer,
    pub repo: Repo,
    pub checkpoint: Checkpoint,
    pub local_vault: Vault,
    pub remote_vault: Vault,
}

impl Replication {
    /// A run that has not started.
    pub fn new(
        session: Session,
        app: App,
        remote_app: App,
        identity: Identity,
        peer: Peer,
        repo: Repo,
        checkpoint: Checkpoint,
        local_vault: Vault,
        remote_vault: Vault,
    ) -> (res: Replication)
        ensures
            res.stage == ReplicationStage::Start,
            res.session == session,
            res.app == app,
            res.remote_app == remote_app,
            res.identity == identity,
            res.peer == peer,
            res.repo == repo,
            res.checkpoint == checkpoint,
            res.local_vault == local_vault,
            res.remote_vault == remote_vault,
    {
        Replication {
            stage: ReplicationStage::Start,
            session,
            app,
            remote_app,
            identity,
            peer,
            repo,
            checkpoint,
            local_vault,
            remote_vault,
        }
    }
}

/// The event that the run waits for at each stage.
pub open spec fn expects(stage: ReplicationStage, event: ReplicationEvent) -> bool {
    match stage {
        ReplicationStage::Start => event is Begin,
        ReplicationStage::Mirroring => event is Mirrored,
        ReplicationStage::Recording => event is Recorded,
        ReplicationStage::Propagating => event is Propagated,
        ReplicationStage::Validating => event is Validated,
        ReplicationStage::Settled => event is Stored,
        _ => false,
    }
}

/// The phase that the session is in at each stage of a run that started.
pub open spec fn stage_phase(stage: ReplicationStage) -> Option<Seq<char>> {
    match stage {
        ReplicationStage::Mirroring => Some("transferring"@),
        ReplicationStage::Recording => Some("propagating"@),
        ReplicationStage::Propagating => Some("propagating"@),
        ReplicationStage::Validating => Some("validating"@),
        ReplicationStage::Settled => Some("validating"@),
        ReplicationStage::Done => Some("validating"@),
        _ => None,
    }
}

/// A run whose session is in the phase of its stage.
pub open spec fn in_step(r: Replication) -> bool {
    match stage_phase(r.stage) {
        Some(p) => r.session@.phase == p,
        None => true,
    }
}

/// Two runs about the same replication: only the stage and session differ.
pub open spec fn same_context(a: Replication, b: Replication) -> bool {
    &&& a.app == b.app
    &&& a.remote_app == b.remote_app
    &&& a.identity == b.identity
    &&& a.peer == b.peer
    &&& a.repo == b.repo
    &&& a.checkpoint == b.checkpoint
    &&& a.local_vault == b.local_vault
    &&& a.remote_vault == b.remote_vault
}

/// The effects of an action; none when it ends the run.
pub open spec fn effects_of(a: ReplicationAction) -> Seq<EffectView> {
    match a {
        ReplicationAction::Run(v) => views_of(v@),
        ReplicationAction::Finish(_) => Seq::<EffectView>::empty(),
    }
}

/// Writing a session under a home.
pub open spec fn session_write(home: Seq<char>, s: SessionView) -> EffectView {
    EffectView::Write { path: path_join(path_join(home, "sessions"@), s.id), fields: session_fields(s) }
}

pub open spec fn local_mirror_of(r: Replication) -> Seq<char> {
    path_join(path_join(r.local_vault.path@, "repositories"@), r.repo.id@ + ".git"@)
}

pub open spec fn remote_mirror_of(r: Replication) -> Seq<char> {
    path_join(path_join(r.remote_vault.path@, "repositories"@), r.repo.id@ + ".git"@)
}

/// The git commands of a mirror sync, as effects.
pub open spec fn git_effects(cs: Seq<GitCommandView>) -> Seq<EffectView> {
    cs.map_values(|c: GitCommandView| EffectView::Git(c))
}

/// The peer's copy of the repository: where it came from, replicated.
pub open spec fn replica_of(r: Replication) -> RepoView {
    RepoView {
        path: "peer-replica://"@ + r.identity.peer_id@ + "/"@ + r.repo.name@,
        sync_state: "replicated"@,
        ..r.repo@
    }
}

/// Recording the peer's copy: the replica repository, and the checkpoint
/// when the peer's vault does not hold it yet.
pub open spec fn recording_writes(r: Replication, checkpoint_stored: bool) -> Seq<EffectView> {
    let repo_write = EffectView::Write {
        path: path_join(path_join(path_join(r.remote_vault.path@, "metadata"@), "repos"@), r.repo.id@),
        fields: repo_fields(replica_of(r)),
    };
    if checkpoint_stored {
        seq![repo_write]
    } else {
        seq![
            repo_write,
            EffectView::Write {
                path: path_join(
                    path_join(path_join(r.remote_vault.path@, "metadata"@), "checkpoints"@),
                    r.checkpoint.id@,
                ),
                fields: checkpoint_fields(
                    CheckpointView { status: "replicated-verified"@, ..r.checkpoint@ },
                ),
            },
        ]
    }
}

/// The replication state recorded in a vault.
pub open spec fn state_write(
    r: Replication,
    vault_path: Seq<char>,
    s: SessionView,
    lineage: Seq<char>,
    signature: Seq<char>,
    signed_at: Seq<char>,
    updated_at: Seq<char>,
) -> EffectView {
    EffectView::Write {
        path: path_join(path_join(vault_path, "replication"@), r.peer.id@ + "-"@ + r.repo.id@),
        fields: replication_state_fields(
            r.peer.id@,
            r.repo.id@,
            r.checkpoint.id@,
            s,
            updated_at,
            lineage,
            "complete"@,
            signature,
            r.identity.peer_id@,
            signed_at,
        ),
    }
}

/// The log of the replications of a repository to a peer.
pub open spec fn replication_log_of(r: Replication) -> Seq<char> {
    path_join(
        path_join(r.local_vault.path@, "logs"@),
        "replication-"@ + r.peer.id@ + "-"@ + r.repo.id@ + ".log"@,
    )
}

fn session_effect(app: &App, session: &Session) -> (res: Effect)
    ensures
        res@ == session_write(app.home@, session@),
{
    Effect::Write(write_session(app, session))
}

fn log_path(vault: &Vault, peer_id: &str, repo_id: &str) -> (res: String)
    ensures
        res@ == path_join(path_join(vault.path@, "logs"@), "replication-"@ + peer_id@ + "-"@ + repo_id@ + ".log"@),
{
    let mut name = copy_str("replication-");
    name.append(peer_id);
    name.append("-");
    name.append(repo_id);
    name.append(".log");
    crate::layout::join2(vault.path.as_str(), "logs", name.as_str())
}

/// Takes one step of a replication run on what the caller reports.
pub fn replication_step(run: &mut Replication, event: ReplicationEvent) -> (action: ReplicationAction)
    requires
        expects(old(run).stage, event),
        in_step(*old(run)),
    ensures
        same_context(*old(run), *final(run)),
        in_step(*final(run)),
        (action is Finish) <==> (final(run).stage == ReplicationStage::Done || final(run).stage
            == ReplicationStage::Failed),
        match event {
            ReplicationEvent::Begin { remote_mirror_exists } => {
                let s = SessionView { phase: "transferring"@, ..old(run).session@ };
                &&& final(run).stage == ReplicationStage::Mirroring
                &&& final(run).session@ == (SessionView {
                    transfer_artifact: remote_mirror_of(*old(run)),
                    ..s
                })
                &&& effects_of(action) == seq![session_write(old(run).app.home@, s)] + git_effects(
                    mirror_sync_of(
                        local_mirror_of(*old(run)),
                        remote_mirror_of(*old(run)),
                        remote_mirror_exists,
                    ),
                )
                &&& action is Run
            },
            ReplicationEvent::Mirrored { outcome, checkpoint_stored } => match outcome {
                Err(e) => final(run).stage == ReplicationStage::Failed && final(run).session
                    == old(run).session && (action matches ReplicationAction::Finish(Err(f)) && f@
                    == e@),
                Ok(_) => {
                    let s = SessionView { phase: "propagating"@, ..old(run).session@ };
                    &&& final(run).stage == ReplicationStage::Recording
                    &&& final(run).session@ == s
                    &&& effects_of(action) == recording_writes(*old(run), checkpoint_stored).push(
                        session_write(old(run).app.home@, s),
                    )
                    &&& action is Run
                },
            },
            ReplicationEvent::Recorded { outcome, signature, signed_at } => match outcome {
                Err(e) => final(run).stage == ReplicationStage::Failed && final(run).session
                    == old(run).session && (action matches ReplicationAction::Finish(Err(f)) && f@
                    == e@),
                Ok(_) => {
                    let s = SessionView {
                        signature: signature@,
                        signed_by: old(run).identity.peer_id@,
                        signed_at: signed_at@,
                        encrypted: signature@,
                        ..old(run).session@
                    };
                    &&& final(run).stage == ReplicationStage::Propagating
                    &&& final(run).session@ == s
                    &&& effects_of(action) == seq![
                        session_write(old(run).app.home@, s),
                        session_write(old(run).remote_app.home@, s),
                    ]
                    &&& action is Run
                },
            },
            ReplicationEvent::Propagated {
                outcome,
                known,
                signature,
                signed_at,
                updated_at,
            } => match outcome {
                Err(e) => final(run).stage == ReplicationStage::Failed && final(run).session
                    == old(run).session && (action matches ReplicationAction::Finish(Err(f)) && f@
                    == e@),
                Ok(_) => match lineage_of(known@, old(run).checkpoint@) {
                    Err(m) => final(run).stage == ReplicationStage::Failed && final(run).session
                        == old(run).session && (action matches ReplicationAction::Finish(Err(f))
                        && f@ == m),
                    Ok(lineage) => if let Some(m) = record_signature_failure(
                        old(run).identity.public_key@,
                        replication_payload_of(
                            old(run).peer.id@,
                            old(run).repo.id@,
                            old(run).checkpoint.id@,
                            "complete"@,
                        ),
                        signature@,
                    ) {
                        final(run).stage == ReplicationStage::Failed && final(run).session
                            == old(run).session && (action matches ReplicationAction::Finish(Err(f))
                            && f@ == m)
                    } else {
                        let s = SessionView { phase: "validating"@, ..old(run).session@ };
                        &&& final(run).stage == ReplicationStage::Validating
                        &&& final(run).session@ == s
                        &&& effects_of(action) == seq![
                            state_write(
                                *old(run),
                                old(run).local_vault.path@,
                                old(run).session@,
                                lineage,
                                signature@,
                                signed_at@,
                                updated_at@,
                            ),
                            state_write(
                                *old(run),
                                old(run).remote_vault.path@,
                                old(run).session@,
                                lineage,
                                signature@,
                                signed_at@,
                                updated_at@,
                            ),
                            EffectView::Log {
                                path: replication_log_of(*old(run)),
                                line: "replicated checkpoint="@ + old(run).checkpoint.id@
                                    + " session="@ + old(run).session.id@,
                            },
                            session_write(old(run).app.home@, s),
                            EffectView::Git(
                                GitCommandView {
                                    args: seq!["fsck"@, "--full"@],
                                    cwd: Some(remote_mirror_of(*old(run))),
                                },
                            ),
                        ]
                        &&& action is Run
                    },
                },
            },
            ReplicationEvent::Validated { outcome } => match outcome {
                Err(e) => final(run).stage == ReplicationStage::Failed && final(run).session
                    == old(run).session && (action matches ReplicationAction::Finish(Err(f)) && f@
                    == e@),
                Ok(_) => {
                    let b = settled_bytes(old(run).session@.bytes_transferred);
                    let s = SessionView {
                        bytes_transferred: b,
                        transfer_offset: if old(run).session@.transfer_offset.len() == 0 {
                            b
                        } else {
                            old(run).session@.transfer_offset
                        },
                        ..old(run).session@
                    };
                    &&& final(run).stage == ReplicationStage::Settled
                    &&& final(run).session@ == s
                    &&& effects_of(action) == seq![
                        session_write(old(run).app.home@, s),
                        session_write(old(run).remote_app.home@, s),
                    ]
                    &&& action is Run
                },
            },
            ReplicationEvent::Stored { outcome } => final(run).session == old(run).session && match outcome {
                Err(e) => final(run).stage == ReplicationStage::Failed && (action matches ReplicationAction::Finish(Err(f)) && f@
                    == e@),
                Ok(_) => final(run).stage == ReplicationStage::Done && (action matches ReplicationAction::Finish(Ok(_))),
            },
        },
{
    match event {
        ReplicationEvent::Begin { remote_mirror_exists } => {
            let local_mirror = mirror_path(&run.local_vault, &run.repo);
            let remote_mirror = mirror_path(&run.remote_vault, &run.repo);
            run.session.phase = copy_str(SessionPhase::Transferring.as_str());
            let ghost s = run.session@;
            let mut effects: Vec<Effect> = Vec::new();
            effects.push(session_effect(&run.app, &run.session));
            start_transfer(&mut run.session, remote_mirror.as_str());
            let mut cmds = mirror_sync_commands(local_mirror.as_str(), remote_mirror.as_str(), remote_mirror_exists);
            let ghost cs = views_of(cmds@);
            let mut i: usize = 0;
            let n = cmds.len();
            let mut taken: Vec<Effect> = Vec::new();
            while cmds.len() > 0
                invariant
                    cs.len() == n,
                    i + cmds@.len() == n,
                    views_of(cmds@) == cs.skip(i as int),
                    views_of(taken@) == git_effects(cs.take(i as int)),
                decreases cmds.len(),
            {
                let ghost before = cmds@;
                let c = cmds.remove(0);
                proof {
                    assert(views_of(cmds@) =~= views_of(before).skip(1));
                    assert(views_of(before)[0] == c@);
                    assert(cs.skip(i as int)[0] == cs[i as int]);
                    assert(cs.skip(i as int).skip(1) =~= cs.skip(i + 1));
                }
                let ghost t0 = views_of(taken@);
                let e = Effect::Git(c);
                taken.push(e);
                assert(views_of(taken@) =~= t0.push(e@));
                assert(git_effects(cs.take(i + 1)) =~= git_effects(cs.take(i as int)).push(EffectView::Git(cs[i as int])));
                i = i + 1;
            }
            assert(cs.take(n as int) =~= cs);
            let ghost e0 = views_of(effects@);
            let ghost t1 = views_of(taken@);
            effects.append(&mut taken);
            assert(views_of(effects@) =~= e0 + t1);
            run.stage = ReplicationStage::Mirroring;
            ReplicationAction::Run(effects)
        },
        ReplicationEvent::Mirrored { outcome, checkpoint_stored } => {
            if let Err(e) = outcome {
                run.stage = ReplicationStage::Failed;
                return ReplicationAction::Finish(Err(e));
            }
            let replica = replica_repo(&run.repo, run.identity.peer_id.as_str());
            let mut effects: Vec<Effect> = Vec::new();
            effects.push(Effect::Write(write_repo(&run.remote_vault, &replica)));
            if let Some(copy) = copy_checkpoint_if_missing(&run.remote_vault, &run.checkpoint, checkpoint_stored) {
                match write_checkpoint(&run.remote_vault, &copy, false) {
                    Ok(record) => effects.push(Effect::Write(record)),
                    Err(e) => {
                        run.stage = ReplicationStage::Failed;
                        return ReplicationAction::Finish(Err(e));
                    },
                }
            }
            run.session.phase = copy_str(SessionPhase::Propagating.as_str());
            effects.push(session_effect(&run.app, &run.session));
            assert(views_of(effects@) =~= recording_writes(*old(run), checkpoint_stored).push(
                session_write(old(run).app.home@, run.session@),
            ));
            run.stage = ReplicationStage::Recording;
            ReplicationAction::Run(effects)
        },
        ReplicationEvent::Recorded { outcome, signature, signed_at } => {
            if let Err(e) = outcome {
                run.stage = ReplicationStage::Failed;
                return ReplicationAction::Finish(Err(e));
            }
            sign_session(&run.identity, &mut run.session, signature.as_str(), signed_at.as_str());
            let effects = vec![
                session_effect(&run.app, &run.session),
                session_effect(&run.remote_app, &run.session),
            ];
            assert(views_of(effects@) =~= seq![
                session_write(old(run).app.home@, run.session@),
                session_write(old(run).remote_app.home@, run.session@),
            ]);
            run.stage = ReplicationStage::Propagating;
            ReplicationAction::Run(effects)
        },
        ReplicationEvent::Propagated {
            outcome,
            known,
            signature,
            signed_at,
            updated_at,
        } => {
            if let Err(e) = outcome {
                run.stage = ReplicationStage::Failed;
                return ReplicationAction::Finish(Err(e));
            }
            let lineage = match checkpoint_lineage(&known, &run.checkpoint) {
                Ok(l) => l,
                Err(e) => {
                    run.stage = ReplicationStage::Failed;
                    return ReplicationAction::Finish(Err(e));
                },
            };
            let (sig, signed_by, at) = sign_replication(&run.identity, signature.as_str(), signed_at.as_str());
            let checked = verify_replication(
                run.identity.public_key.as_str(),
                run.peer.id.as_str(),
                run.repo.id.as_str(),
                run.checkpoint.id.as_str(),
                "complete",
                sig.as_str(),
            );
            if let Err(e) = checked {
                run.stage = ReplicationStage::Failed;
                return ReplicationAction::Finish(Err(e));
            }
            let local_state = write_replication_state(
                &run.local_vault,
                &run.peer,
                &run.repo,
                &run.checkpoint,
                &run.session,
                lineage.as_str(),
                "complete",
                sig.as_str(),
                signed_by.as_str(),
                at.as_str(),
                updated_at.as_str(),
            );
            let remote_state = write_replication_state(
                &run.remote_vault,
                &run.peer,
                &run.repo,
                &run.checkpoint,
                &run.session,
                lineage.as_str(),
                "complete",
                sig.as_str(),
                signed_by.as_str(),
                at.as_str(),
                updated_at.as_str(),
            );
            let log = Effect::Log {
                path: log_path(&run.local_vault, run.peer.id.as_str(), run.repo.id.as_str()),
                line: replication_log_line(run.checkpoint.id.as_str(), run.session.id.as_str()),
            };
            run.session.phase = copy_str(SessionPhase::Validating.as_str());
            let validate = session_effect(&run.app, &run.session);
            let remote_mirror = mirror_path(&run.remote_vault, &run.repo);
            let fsck = GitCommand {
                args: vec![copy_str("fsck"), copy_str("--full")],
                cwd: Some(remote_mirror),
            };
            assert(fsck.args.deep_view() =~= seq!["fsck"@, "--full"@]);
            let effects = vec![
                Effect::Write(local_state),
                Effect::Write(remote_state),
                log,
                validate,
                Effect::Git(fsck),
            ];
            assert(views_of(effects@) =~= seq![
                state_write(
                    *old(run),
                    old(run).local_vault.path@,
                    old(run).session@,
                    lineage@,
                    signature@,
                    signed_at@,
                    updated_at@,
                ),
                state_write(
                    *old(run),
                    old(run).remote_vault.path@,
                    old(run).session@,
                    lineage@,
                    signature@,
                    signed_at@,
                    updated_at@,
                ),
                EffectView::Log {
                    path: replication_log_of(*old(run)),
                    line: "replicated checkpoint="@ + old(run).checkpoint.id@ + " session="@
                        + old(run).session.id@,
                },
                session_write(old(run).app.home@, run.session@),
                EffectView::Git(
                    GitCommandView { args: seq!["fsck"@, "--full"@], cwd: Some(remote_mirror_of(*old(run))) },
                ),
            ]);
            run.stage = ReplicationStage::Validating;
            ReplicationAction::Run(effects)
        },
        ReplicationEvent::Validated { outcome } => {
            if let Err(e) = outcome {
                run.stage = ReplicationStage::Failed;
                return ReplicationAction::Finish(Err(e));
            }
            finish_transfer(&mut run.session);
            let effects = vec![
                session_effect(&run.app, &run.session),
                session_effect(&run.remote_app, &run.session),
            ];
            assert(views_of(effects@) =~= seq![
                session_write(old(run).app.home@, run.session@),
                session_write(old(run).remote_app.home@, run.session@),
            ]);
            run.stage = ReplicationStage::Settled;
            ReplicationAction::Run(effects)
        },
        ReplicationEvent::Stored { outcome } => {
            match outcome {
                Err(e) => {
                    run.stage = ReplicationStage::Failed;
                    ReplicationAction::Finish(Err(e))
                },
                Ok(()) => {
                    run.stage = ReplicationStage::Done;
                    ReplicationAction::Finish(Ok(()))
                },
            }
        },
    }
}

} // verus!
