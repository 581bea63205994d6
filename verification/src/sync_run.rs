//! Synchronising a repository with a peer, as a state machine: after the
//! checks, an unfinished session with the peer is resumed, or a new
//! checkpoint is taken and a new session opened; the session then goes
//! through the replication and is completed. Any failure ends the run.
use vstd::prelude::*;

use crate::checkpoint::validate_checkpoint_for_sync;
use crate::error::AppError;
use crate::kv::KvRecord;
use crate::layout::path_join;
use crate::models::{
    Checkpoint, Peer, Policy, RepoAction, Repo, Session, SessionPhase, SessionView,
};
use crate::policies::{enforce_peer_policy, peer_refusal};
use crate::signing::{
    checkpoint_payload_of, record_signature_failure, session_payload_of, verify_checkpoint, verify_session,
};
use crate::sorting::views_of;
use crate::sync::{find_resumable_session, mark_session_phase, new_session, resumable_index, session_id_of};
use crate::vault::{session_fields, App};
use crate::zones::refusal;

verus! {

/// Where a sync with a peer stands.
#[derive(Clone, Copy, Debug, PartialEq, Eq, Structural)]
pub enum SyncStage {
    /// The peer, repository and policy are being checked.
    Checking,
    /// An unfinished session is being resumed; its checkpoint is loaded.
    Resuming,
    /// A new checkpoint is being taken.
    Checkpointing,
    /// The session is replicating.
    Replicating,
    /// The sync is complete.
    Done,
    /// The sync stopped on an error.
    Failed,
}

/// What the caller does next.
#[derive(Debug)]
pub enum SyncAction {
    /// Load the checkpoint `id` of the resumed session.
    LoadCheckpoint { id: String },
    /// Take a checkpoint of the repository (with approval when asked, for a
    /// peer trusted or not), and report it with the local public key.
    MakeCheckpoint { peer_trusted: bool },
    /// Write the records, then replicate the checkpoint with the session.
    Replicate { writes: Vec<KvRecord>, session: Session, checkpoint: Checkpoint },
    /// Write the records; the sync is over with this outcome.
    Finish { writes: Vec<KvRecord>, outcome: Result<Session, AppError> },
}

/// What the caller reports to the run.
pub enum SyncEvent {
    /// The peer, the outcome of validating its identity and authorizing it
    /// (which come before anything else), the repository, the policy in
    /// force for it, whether the peer is trusted, and the sessions of this
    /// installation in order.
    Checked {
        peer: Peer,
        peer_checks: Result<(), AppError>,
        repo: Repo,
        policy: Policy,
        peer_trusted: bool,
        sessions: Vec<Session>,
    },
    /// The resumed session's checkpoint.
    CheckpointLoaded { checkpoint: Result<Checkpoint, AppError> },
    /// The new checkpoint, the local public key that its signature is
    /// checked with, and the time.
    CheckpointMade { checkpoint: Result<Checkpoint, AppError>, public_key: String, now: String },
    /// The replication's outcome, with the session as it left it.
    Replicated { outcome: Result<(), AppError>, session: Session },
}

/// A sync of a repository with a peer from the installation `app`.
#[derive(Debug)]
pub struct SyncRun {
    pub stage: SyncStage,
    pub app: App,
    pub requires_approval: bool,
    pub peer: Option<Peer>,
    pub repo: Option<Repo>,
    pub session: Option<Session>,
}

impl SyncRun {
    /// A sync that has not started.
    pub fn new(app: App, requires_approval: bool) -> (res: SyncRun)
        ensures
            res.stage == SyncStage::Checking,
            res.app == app,
            res.requires_approval == requires_approval,
            res.peer is None,
            res.repo is None,
            res.session is None,
    {
        SyncRun { stage: SyncStage::Checking, app, requires_approval, peer: None, repo: None, session: None }
    }
}

/// The event that the run waits for at each stage.
pub open spec fn sync_expects(r: SyncRun, event: SyncEvent) -> bool {
    match r.stage {
        SyncStage::Checking => event is Checked,
        SyncStage::Resuming => event is CheckpointLoaded && r.session is Some && r.peer is Some,
        SyncStage::Checkpointing => event is CheckpointMade && r.peer is Some && r.repo is Some,
        SyncStage::Replicating => event is Replicated,
        _ => false,
    }
}

/// The views of the records of an action.
pub open spec fn records_of(writes: Seq<KvRecord>) -> Seq<(Seq<char>, Seq<(Seq<char>, Seq<char>)>)> {
    writes.map_values(|r: KvRecord| (r.path@, r.fields.deep_view()))
}

/// The record of a session under a home.
pub open spec fn session_record_of(home: Seq<char>, s: SessionView) -> (Seq<char>, Seq<(Seq<char>, Seq<char>)>) {
    (path_join(path_join(home, "sessions"@), s.id), session_fields(s))
}

/// Whether an action ends the run with the error `m`, writing nothing.
pub open spec fn fails_with(a: SyncAction, m: Seq<char>) -> bool {
    a matches SyncAction::Finish { writes, outcome } && writes@.len() == 0 && (outcome matches Err(e)
        && e@ == m)
}

fn session_record(app: &App, session: &mut Session, phase: SessionPhase) -> (res: KvRecord)
    ensures
        final(session)@ == (SessionView { phase: crate::models::phase_name(phase), ..old(session)@ }),
        (res.path@, res.fields.deep_view()) == session_record_of(app.home@, final(session)@),
{
    mark_session_phase(app, session, phase)
}

/// What follows the checks.
pub open spec fn after_checks(
    old_run: SyncRun,
    new_run: SyncRun,
    action: SyncAction,
    peer: Peer,
    peer_checks: Result<(), AppError>,
    repo: Repo,
    policy: Policy,
    peer_trusted: bool,
    sessions: Seq<Session>,
) -> bool {
    if let Err(e) = peer_checks {
        new_run.stage == SyncStage::Failed && fails_with(action, e@)
    } else {
    match peer_refusal(policy@, peer.id@) {
        Some(m) => new_run.stage == SyncStage::Failed && fails_with(action, m),
        None => match refusal(
            repo.name@,
            repo.trust_zone@,
            RepoAction::SyncPush,
            old_run.requires_approval,
            peer_trusted,
        ) {
            Some(m) => new_run.stage == SyncStage::Failed && fails_with(action, m),
            None => {
                let ss = views_of(sessions);
                let k = resumable_index(ss, peer.id@, repo.id@);
                &&& new_run.peer == Some(peer)
                &&& new_run.repo == Some(repo)
                &&& if k < ss.len() {
                    &&& new_run.stage == SyncStage::Resuming
                    &&& new_run.session matches Some(s) && s@ == ss[k]
                    &&& action matches SyncAction::LoadCheckpoint { id } && id@ == ss[k].checkpoint_id
                } else {
                    &&& new_run.stage == SyncStage::Checkpointing
                    &&& action matches SyncAction::MakeCheckpoint { peer_trusted: t } && t == peer_trusted
                }
            },
        },
    }
    }
}

/// What follows loading the checkpoint of the resumed session `s`, whose
/// signature is checked with the peer's key `public_key`.
pub open spec fn after_loading(
    old_run: SyncRun,
    new_run: SyncRun,
    action: SyncAction,
    s: SessionView,
    public_key: Seq<char>,
    checkpoint: Result<Checkpoint, AppError>,
) -> bool {
    match checkpoint {
        Err(e) => new_run.stage == SyncStage::Failed && fails_with(action, e@),
        Ok(cp) => if let Some(m) = record_signature_failure(public_key, session_payload_of(s), s.signature) {
            new_run.stage == SyncStage::Failed && fails_with(action, m)
        } else {
            let t = SessionView { phase: "transferring"@, ..s };
            &&& new_run.stage == SyncStage::Replicating
            &&& action matches SyncAction::Replicate { writes, session, checkpoint: c } && records_of(
                writes@,
            ) == seq![session_record_of(old_run.app.home@, t)] && session@ == t && c == cp
        },
    }
}

/// The session that a sync opens for a new checkpoint `cp` at `now`.
pub open spec fn opened_session(
    peer: Peer,
    repo: Repo,
    cp: Checkpoint,
    requires_approval: bool,
    now: Seq<char>,
) -> SessionView {
    SessionView {
        id: session_id_of(peer.id@, repo.id@, now),
        peer_id: peer.id@,
        repo_id: repo.id@,
        checkpoint_id: cp.id@,
        direction: "push"@,
        state: if requires_approval {
            "approved-replicated"@
        } else {
            "replicated"@
        },
        encrypted: Seq::<char>::empty(),
        created_at: now,
        phase: "discovered"@,
        transfer_artifact: Seq::<char>::empty(),
        bytes_transferred: "0"@,
        transfer_offset: "0"@,
        signature: Seq::<char>::empty(),
        signed_by: Seq::<char>::empty(),
        signed_at: Seq::<char>::empty(),
    }
}

/// What follows taking a new checkpoint.
pub open spec fn after_checkpoint(
    old_run: SyncRun,
    new_run: SyncRun,
    action: SyncAction,
    checkpoint: Result<Checkpoint, AppError>,
    public_key: Seq<char>,
    now: Seq<char>,
) -> bool {
    match checkpoint {
        Err(e) => new_run.stage == SyncStage::Failed && fails_with(action, e@),
        Ok(cp) => if let Some(m) = record_signature_failure(public_key, checkpoint_payload_of(cp@), cp@.signature) {
            new_run.stage == SyncStage::Failed && fails_with(action, m)
        } else {
            let fresh = opened_session(old_run.peer->0, old_run.repo->0, cp, old_run.requires_approval, now);
            let authenticated = SessionView { phase: "authenticated"@, ..fresh };
            let negotiating = SessionView { phase: "negotiating"@, ..fresh };
            &&& new_run.stage == SyncStage::Replicating
            &&& action matches SyncAction::Replicate { writes, session, checkpoint: c } && records_of(
                writes@,
            ) == seq![
                session_record_of(old_run.app.home@, authenticated),
                session_record_of(old_run.app.home@, negotiating),
            ] && session@ == negotiating && c == cp
        },
    }
}

/// What follows the replication.
pub open spec fn after_replication(
    old_run: SyncRun,
    new_run: SyncRun,
    action: SyncAction,
    outcome: Result<(), AppError>,
    session: SessionView,
) -> bool {
    match outcome {
        Err(e) => new_run.stage == SyncStage::Failed && fails_with(action, e@),
        Ok(_) => {
            let done = SessionView { phase: "complete"@, ..session };
            &&& new_run.stage == SyncStage::Done
            &&& action matches SyncAction::Finish { writes, outcome: Ok(s) } && records_of(writes@)
                == seq![session_record_of(old_run.app.home@, done)] && s@ == done
        },
    }
}

fn on_checked(
    run: &mut SyncRun,
    peer: Peer,
    peer_checks: Result<(), AppError>,
    repo: Repo,
    policy: Policy,
    peer_trusted: bool,
    sessions: Vec<Session>,
) -> (action: SyncAction)
    ensures
        final(run).app == old(run).app,
        final(run).requires_approval == old(run).requires_approval,
        (action is Finish) <==> (final(run).stage == SyncStage::Done || final(run).stage == SyncStage::Failed),
        after_checks(*old(run), *final(run), action, peer, peer_checks, repo, policy, peer_trusted, sessions@),
{
    if let Err(e) = peer_checks {
        run.stage = SyncStage::Failed;
        return SyncAction::Finish { writes: Vec::new(), outcome: Err(e) };
    }
    if let Err(e) = enforce_peer_policy(&policy, peer.id.as_str()) {
        run.stage = SyncStage::Failed;
        return SyncAction::Finish { writes: Vec::new(), outcome: Err(e) };
    }
    if let Err(e) = validate_checkpoint_for_sync(&repo, run.requires_approval, peer_trusted) {
        run.stage = SyncStage::Failed;
        return SyncAction::Finish { writes: Vec::new(), outcome: Err(e) };
    }
    let found = find_resumable_session(&sessions, peer.id.as_str(), repo.id.as_str());
    let ghost ss = views_of(sessions@);
    let ghost k = resumable_index(ss, peer.id@, repo.id@);
    assert(ss.len() == sessions@.len());
    proof {
        crate::sync::lemma_resumable_index_bounds(ss, peer.id@, repo.id@);
    }
    assert(peer_refusal(policy@, peer.id@) is None);
    assert(refusal(repo.name@, repo.trust_zone@, RepoAction::SyncPush, old(run).requires_approval, peer_trusted) is None);
    run.peer = Some(peer);
    run.repo = Some(repo);
    match found {
        Some(s) => {
            assert(k < ss.len());
            assert(ss[k] == sessions@[k]@);
            let id = s.checkpoint_id.clone();
            run.session = Some(s);
            run.stage = SyncStage::Resuming;
            SyncAction::LoadCheckpoint { id }
        },
        None => {
            assert(k >= ss.len());
            run.stage = SyncStage::Checkpointing;
            SyncAction::MakeCheckpoint { peer_trusted }
        },
    }
}

fn on_loaded(run: &mut SyncRun, checkpoint: Result<Checkpoint, AppError>) -> (action: SyncAction)
    requires
        old(run).session is Some,
        old(run).peer is Some,
    ensures
        final(run).app == old(run).app,
        final(run).requires_approval == old(run).requires_approval,
        (action is Finish) <==> (final(run).stage == SyncStage::Done || final(run).stage == SyncStage::Failed),
        after_loading(
            *old(run),
            *final(run),
            action,
            old(run).session->0@,
            old(run).peer->0.public_key@,
            checkpoint,
        ),
{
    let cp = match checkpoint {
        Ok(c) => c,
        Err(e) => {
            run.stage = SyncStage::Failed;
            return SyncAction::Finish { writes: Vec::new(), outcome: Err(e) };
        },
    };
    let mut session = run.session.take().unwrap();
    let checked = verify_session(&session, run.peer.as_ref().unwrap().public_key.as_str());
    if let Err(e) = checked {
        run.stage = SyncStage::Failed;
        return SyncAction::Finish { writes: Vec::new(), outcome: Err(e) };
    }
    let record = session_record(&run.app, &mut session, SessionPhase::Transferring);
    let writes = vec![record];
    assert(records_of(writes@) =~= seq![session_record_of(old(run).app.home@, session@)]);
    run.stage = SyncStage::Replicating;
    SyncAction::Replicate { writes, session, checkpoint: cp }
}

fn on_made(
    run: &mut SyncRun,
    checkpoint: Result<Checkpoint, AppError>,
    public_key: String,
    now: String,
) -> (action: SyncAction)
    requires
        old(run).peer is Some,
        old(run).repo is Some,
    ensures
        final(run).app == old(run).app,
        final(run).requires_approval == old(run).requires_approval,
        (action is Finish) <==> (final(run).stage == SyncStage::Done || final(run).stage == SyncStage::Failed),
        after_checkpoint(*old(run), *final(run), action, checkpoint, public_key@, now@),
{
    let cp = match checkpoint {
        Ok(c) => c,
        Err(e) => {
            run.stage = SyncStage::Failed;
            return SyncAction::Finish { writes: Vec::new(), outcome: Err(e) };
        },
    };
    if let Err(e) = verify_checkpoint(&cp, public_key.as_str()) {
        run.stage = SyncStage::Failed;
        return SyncAction::Finish { writes: Vec::new(), outcome: Err(e) };
    }
    let peer = run.peer.as_ref().unwrap();
    let repo = run.repo.as_ref().unwrap();
    let mut session = new_session(peer, repo, &cp, run.requires_approval, now.as_str());
    let first = session_record(&run.app, &mut session, SessionPhase::Authenticated);
    let ghost authenticated = session@;
    let second = session_record(&run.app, &mut session, SessionPhase::Negotiating);
    let writes = vec![first, second];
    assert(records_of(writes@) =~= seq![
        session_record_of(old(run).app.home@, authenticated),
        session_record_of(old(run).app.home@, session@),
    ]);
    run.stage = SyncStage::Replicating;
    SyncAction::Replicate { writes, session, checkpoint: cp }
}

fn on_replicated(run: &mut SyncRun, outcome: Result<(), AppError>, session: Session) -> (action: SyncAction)
    ensures
        final(run).app == old(run).app,
        final(run).requires_approval == old(run).requires_approval,
        (action is Finish) <==> (final(run).stage == SyncStage::Done || final(run).stage == SyncStage::Failed),
        after_replication(*old(run), *final(run), action, outcome, session@),
{
    if let Err(e) = outcome {
        run.stage = SyncStage::Failed;
        return SyncAction::Finish { writes: Vec::new(), outcome: Err(e) };
    }
    let mut session = session;
    let record = session_record(&run.app, &mut session, SessionPhase::Complete);
    let writes = vec![record];
    assert(records_of(writes@) =~= seq![session_record_of(old(run).app.home@, session@)]);
    run.stage = SyncStage::Done;
    SyncAction::Finish { writes, outcome: Ok(session) }
}

/// Takes one step of a sync on what the caller reports.
pub fn sync_step(run: &mut SyncRun, event: SyncEvent) -> (action: SyncAction)
    requires
        sync_expects(*old(run), event),
    ensures
        final(run).app == old(run).app,
        final(run).requires_approval == old(run).requires_approval,
        (action is Finish) <==> (final(run).stage == SyncStage::Done || final(run).stage == SyncStage::Failed),
        match event {
            SyncEvent::Checked { peer, peer_checks, repo, policy, peer_trusted, sessions } => after_checks(
                *old(run),
                *final(run),
                action,
                peer,
                peer_checks,
                repo,
                policy,
                peer_trusted,
                sessions@,
            ),
            SyncEvent::CheckpointLoaded { checkpoint } => after_loading(
                *old(run),
                *final(run),
                action,
                old(run).session->0@,
                old(run).peer->0.public_key@,
                checkpoint,
            ),
            SyncEvent::CheckpointMade { checkpoint, public_key, now } => after_checkpoint(
                *old(run),
                *final(run),
                action,
                checkpoint,
                public_key@,
                now@,
            ),
            SyncEvent::Replicated { outcome, session } => after_replication(
                *old(run),
                *final(run),
                action,
                outcome,
                session@,
            ),
        },
{
    match event {
        SyncEvent::Checked { peer, peer_checks, repo, policy, peer_trusted, sessions } => on_checked(
            run,
            peer,
            peer_checks,
            repo,
            policy,
            peer_trusted,
            sessions,
        ),
        SyncEvent::CheckpointLoaded { checkpoint } => on_loaded(run, checkpoint),
        SyncEvent::CheckpointMade { checkpoint, public_key, now } => on_made(run, checkpoint, public_key, now),
        SyncEvent::Replicated { outcome, session } => on_replicated(run, outcome, session),
    }
}

} // verus!
