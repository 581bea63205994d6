//! Synchronisation with peers: sessions and their phases, the limit on
//! concurrent syncs, mirroring a repository to a peer and the records that a
//! replication leaves behind.
use vstd::prelude::*;

use crate::error::AppError;
use crate::kv::{kv_pair, optional_field, stored_or_empty, KvFields, KvRecord};
use crate::layout::{join2, join3, path_join, paths_equal, same_path};
use crate::models::{
    phase_name, Checkpoint, Identity, Peer, PeerView, Repo, RepoView, Session, SessionPhase,
    SessionView, Vault,
};
use crate::sorting::{is_sorted, views_of, SortKey};
use crate::text::{
    copy_str, decimal, join_seq, join_with, parse_unsigned, parse_unsigned_exec, push_decimal,
    same_text,
};
use crate::util::{stable_id, stable_id_of};
use crate::vault::{write_session, App};
use crate::vault::session_fields;

verus! {

// ---------------------------------------------------------------------------
// Sessions
// ---------------------------------------------------------------------------

/// The id of a session with `peer_id` about `repo_id` opened at `now`.
pub open spec fn session_id_of(peer_id: Seq<char>, repo_id: Seq<char>, now: Seq<char>) -> Seq<char> {
    "session-"@ + stable_id_of(peer_id + ":"@ + repo_id + ":"@ + now)
}

/// A new push session that replicates `checkpoint` of `repo` to `peer`,
/// opened at `now`: discovered, nothing transferred yet.
pub fn new_session(peer: &Peer, repo: &Repo, checkpoint: &Checkpoint, requires_approval: bool, now: &str) -> (res:
    Session)
    ensures
        res@ == (SessionView {
            id: session_id_of(peer.id@, repo.id@, now@),
            peer_id: peer.id@,
            repo_id: repo.id@,
            checkpoint_id: checkpoint.id@,
            direction: "push"@,
            state: if requires_approval {
                "approved-replicated"@
            } else {
                "replicated"@
            },
            encrypted: Seq::<char>::empty(),
            created_at: now@,
            phase: "discovered"@,
            transfer_artifact: Seq::<char>::empty(),
            bytes_transferred: "0"@,
            transfer_offset: "0"@,
            signature: Seq::<char>::empty(),
            signed_by: Seq::<char>::empty(),
            signed_at: Seq::<char>::empty(),
        }),
{
    let mut key = copy_str(peer.id.as_str());
    key.append(":");
    key.append(repo.id.as_str());
    key.append(":");
    key.append(now);
    let mut id = copy_str("session-");
    let h = stable_id(key.as_str());
    id.append(h.as_str());
    let state = if requires_approval {
        copy_str("approved-replicated")
    } else {
        copy_str("replicated")
    };
    Session {
        id,
        peer_id: peer.id.clone(),
        repo_id: repo.id.clone(),
        checkpoint_id: checkpoint.id.clone(),
        direction: copy_str("push"),
        state,
        encrypted: String::new(),
        created_at: copy_str(now),
        phase: copy_str(SessionPhase::Discovered.as_str()),
        transfer_artifact: String::new(),
        bytes_transferred: copy_str("0"),
        transfer_offset: copy_str("0"),
        signature: String::new(),
        signed_by: String::new(),
        signed_at: String::new(),
    }
}

/// A session that has not reached an end: neither complete nor failed.
pub open spec fn in_flight(s: SessionView) -> bool {
    s.phase != "complete"@ && s.phase != "failed"@
}

/// A session with `peer_id` about `repo_id` that can be resumed.
pub open spec fn resumable(s: SessionView, peer_id: Seq<char>, repo_id: Seq<char>) -> bool {
    s.peer_id == peer_id && s.repo_id == repo_id && in_flight(s)
}

/// The index of the first resumable session, or the number of sessions.
pub open spec fn resumable_index(ss: Seq<SessionView>, peer_id: Seq<char>, repo_id: Seq<char>) -> int
    decreases ss.len(),
{
    if ss.len() == 0 {
        0
    } else if resumable(ss[0], peer_id, repo_id) {
        0
    } else {
        1 + resumable_index(ss.drop_first(), peer_id, repo_id)
    }
}

/// The index of the first resumable session lies within the sessions, or
/// just past them.
pub proof fn lemma_resumable_index_bounds(ss: Seq<SessionView>, peer_id: Seq<char>, repo_id: Seq<char>)
    ensures
        0 <= resumable_index(ss, peer_id, repo_id) <= ss.len(),
    decreases ss.len(),
{
    if ss.len() > 0 && !resumable(ss[0], peer_id, repo_id) {
        lemma_resumable_index_bounds(ss.drop_first(), peer_id, repo_id);
    }
}

/// A session that a sync with `peer_id` of `repo_id` may resume: with that
/// peer, of that repository, and neither complete nor failed.
pub open spec fn may_resume(s: SessionView, peer_id: Seq<char>, repo_id: Seq<char>) -> bool {
    &&& s.peer_id == peer_id
    &&& s.repo_id == repo_id
    &&& s.phase != "complete"@
    &&& s.phase != "failed"@
}

/// The session resumed is the first one with the peer, of the repository
/// being synced, that has neither completed nor failed; none is resumed
/// exactly when no session is such.
pub proof fn lemma_resumed_session_belongs(ss: Seq<SessionView>, peer_id: Seq<char>, repo_id: Seq<char>)
    ensures
        resumable_index(ss, peer_id, repo_id) < ss.len() ==> may_resume(
            ss[resumable_index(ss, peer_id, repo_id)],
            peer_id,
            repo_id,
        ),
        forall|j: int| 0 <= j < resumable_index(ss, peer_id, repo_id) ==> !may_resume(#[trigger] ss[j], peer_id, repo_id),
        resumable_index(ss, peer_id, repo_id) >= ss.len() <==> forall|j: int|
            0 <= j < ss.len() ==> !may_resume(#[trigger] ss[j], peer_id, repo_id),
    decreases ss.len(),
{
    lemma_resumable_index_bounds(ss, peer_id, repo_id);
    if ss.len() > 0 && !resumable(ss[0], peer_id, repo_id) {
        let t = ss.drop_first();
        lemma_resumed_session_belongs(t, peer_id, repo_id);
        lemma_resumable_index_bounds(t, peer_id, repo_id);
        assert forall|j: int| 0 <= j < resumable_index(ss, peer_id, repo_id) implies !may_resume(
            #[trigger] ss[j],
            peer_id,
            repo_id,
        ) by {
            if j > 0 {
                assert(ss[j] == t[j - 1]);
            }
        }
        if resumable_index(ss, peer_id, repo_id) < ss.len() {
            assert(ss[resumable_index(ss, peer_id, repo_id)] == t[resumable_index(t, peer_id, repo_id)]);
        } else {
            assert forall|j: int| 0 <= j < ss.len() implies !may_resume(#[trigger] ss[j], peer_id, repo_id) by {
                if j > 0 {
                    assert(ss[j] == t[j - 1]);
                }
            }
        }
    }
}

fn is_in_flight(s: &Session) -> (res: bool)
    ensures
        res == in_flight(s@),
{
    !same_text(s.phase.as_str(), "complete") && !same_text(s.phase.as_str(), "failed")
}

/// The first session with `peer_id` about `repo_id` that has not ended.
pub fn find_resumable_session(sessions: &Vec<Session>, peer_id: &str, repo_id: &str) -> (res: Option<
    Session,
>)
    ensures
        resumable_index(views_of(sessions@), peer_id@, repo_id@) < sessions@.len() ==> (res matches Some(
            s,
        ) && s@ == sessions@[resumable_index(views_of(sessions@), peer_id@, repo_id@)]@),
        resumable_index(views_of(sessions@), peer_id@, repo_id@) >= sessions@.len() ==> res is None,
        res matches Some(s) ==> may_resume(s@, peer_id@, repo_id@),
        res is None <==> forall|j: int| 0 <= j < sessions@.len() ==> !may_resume((#[trigger] sessions@[j])@, peer_id@, repo_id@),
{
    let ghost ss = views_of(sessions@);
    proof {
        lemma_resumed_session_belongs(ss, peer_id@, repo_id@);
        assert forall|j: int| 0 <= j < sessions@.len() implies may_resume((#[trigger] sessions@[j])@, peer_id@, repo_id@)
            == may_resume(ss[j], peer_id@, repo_id@) by {
        }
    }
    let mut i: usize = 0;
    assert(ss.skip(0) =~= ss);
    while i < sessions.len()
        invariant
            i <= ss.len(),
            ss == views_of(sessions@),
            resumable_index(ss, peer_id@, repo_id@) == i + resumable_index(
                ss.skip(i as int),
                peer_id@,
                repo_id@,
            ),
        decreases sessions.len() - i,
    {
        assert(ss.skip(i as int)[0] == sessions@[i as int]@);
        let s = &sessions[i];
        if same_text(s.peer_id.as_str(), peer_id) && same_text(s.repo_id.as_str(), repo_id)
            && is_in_flight(s) {
            return Some(s.copied());
        }
        assert(ss.skip(i as int).drop_first() =~= ss.skip(i + 1));
        i = i + 1;
    }
    None
}

/// Moves a session to `phase`; the record to write for it.
pub fn mark_session_phase(app: &App, session: &mut Session, phase: SessionPhase) -> (res: KvRecord)
    ensures
        final(session)@ == (SessionView { phase: phase_name(phase), ..old(session)@ }),
        res.path@ == path_join(path_join(app.home@, "sessions"@), final(session).id@),
        res.fields.deep_view() == session_fields(final(session)@),
{
    session.phase = copy_str(phase.as_str());
    write_session(app, session)
}

/// The sessions that have not ended, of `repo_id` when one is given.
pub open spec fn inflight_of(ss: Seq<SessionView>, repo_id: Option<Seq<char>>) -> Seq<SessionView>
    decreases ss.len(),
{
    if ss.len() == 0 {
        Seq::<SessionView>::empty()
    } else {
        let prev = inflight_of(ss.drop_last(), repo_id);
        let s = ss.last();
        if in_flight(s) && match repo_id {
            Some(r) => r == s.repo_id,
            None => true,
        } {
            prev.push(s)
        } else {
            prev
        }
    }
}

/// The in-flight sessions are, in order, those of `ss` that have not ended;
/// those of one repository are, in order, the in-flight sessions of that
/// repository. Both are subsequences of what they are taken from.
pub proof fn lemma_inflight_filters(ss: Seq<SessionView>, repo_id: Seq<char>)
    ensures
        inflight_of(ss, None) == ss.filter(|s: SessionView| in_flight(s)),
        inflight_of(ss, Some(repo_id)) == inflight_of(ss, None).filter(
            |s: SessionView| s.repo_id == repo_id,
        ),
    decreases ss.len(),
{
    reveal(Seq::filter);
    if ss.len() > 0 {
        lemma_inflight_filters(ss.drop_last(), repo_id);
        let all = inflight_of(ss, None);
        let prev = inflight_of(ss.drop_last(), None);
        if in_flight(ss.last()) {
            assert(all.drop_last() =~= prev);
        } else {
            assert(all == prev);
        }
    }
}

proof fn lemma_inflight_members(ss: Seq<SessionView>, repo_id: Option<Seq<char>>)
    ensures
        forall|k: int|
            0 <= k < inflight_of(ss, repo_id).len() ==> ss.contains(#[trigger] inflight_of(ss, repo_id)[k]),
    decreases ss.len(),
{
    if ss.len() > 0 {
        lemma_inflight_members(ss.drop_last(), repo_id);
        let prev = inflight_of(ss.drop_last(), repo_id);
        assert forall|k: int| 0 <= k < inflight_of(ss, repo_id).len() implies ss.contains(
            #[trigger] inflight_of(ss, repo_id)[k],
        ) by {
            if k < prev.len() {
                assert(inflight_of(ss, repo_id)[k] == prev[k]);
                assert(ss.drop_last().contains(prev[k]));
                let m = choose|m: int| 0 <= m < ss.drop_last().len() && ss.drop_last()[m] == prev[k];
                assert(ss[m] == prev[k]);
            } else {
                assert(ss[ss.len() - 1] == ss.last());
            }
        }
    }
}

/// Sessions listed in creation order stay in creation order when only the
/// in-flight ones (of a repository) are kept.
pub proof fn lemma_inflight_keeps_order(ss: Seq<SessionView>, repo_id: Option<Seq<char>>)
    requires
        is_sorted::<Session>(ss),
    ensures
        is_sorted::<Session>(inflight_of(ss, repo_id)),
    decreases ss.len(),
{
    if ss.len() > 0 {
        let q = ss.drop_last();
        assert forall|i: int, j: int| 0 <= i < j < q.len() implies !Session::key_before(
            #[trigger] q[j],
            #[trigger] q[i],
        ) by {
            assert(q[i] == ss[i] && q[j] == ss[j]);
        }
        lemma_inflight_keeps_order(q, repo_id);
        lemma_inflight_members(q, repo_id);
        let prev = inflight_of(q, repo_id);
        let r = inflight_of(ss, repo_id);
        if r.len() > prev.len() {
            assert forall|i: int, j: int| 0 <= i < j < r.len() implies !Session::key_before(
                #[trigger] r[j],
                #[trigger] r[i],
            ) by {
                assert(r[i] == prev[i]);
                if j < prev.len() {
                    assert(r[j] == prev[j]);
                } else {
                    assert(r[j] == ss.last());
                    assert(q.contains(prev[i]));
                    let m = choose|m: int| 0 <= m < q.len() && q[m] == prev[i];
                    assert(ss[m] == prev[i]);
                    assert(ss[ss.len() - 1] == ss.last());
                }
            }
        }
    }
}

/// The sessions that have not ended, in order, of `repo_id` when one is
/// given.
pub fn list_inflight_sessions(sessions: &Vec<Session>, repo_id: Option<&str>) -> (res: Vec<Session>)
    ensures
        views_of(res@) == inflight_of(
            views_of(sessions@),
            match repo_id {
                Some(r) => Some(r@),
                None => None,
            },
        ),
{
    let ghost ss = views_of(sessions@);
    let ghost r = match repo_id {
        Some(r) => Some(r@),
        None => None::<Seq<char>>,
    };
    let mut res: Vec<Session> = Vec::new();
    let mut i: usize = 0;
    assert(ss.take(0) =~= Seq::<SessionView>::empty());
    assert(views_of(res@) =~= inflight_of(ss.take(0), r));
    while i < sessions.len()
        invariant
            i <= ss.len(),
            ss == views_of(sessions@),
            r == (match repo_id {
                Some(r) => Some(r@),
                None => None::<Seq<char>>,
            }),
            views_of(res@) == inflight_of(ss.take(i as int), r),
        decreases sessions.len() - i,
    {
        proof {
            assert(ss.take(i + 1).drop_last() =~= ss.take(i as int));
            assert(ss.take(i + 1).last() == sessions@[i as int]@);
        }
        let s = &sessions[i];
        let wanted = match repo_id {
            Some(want) => same_text(want, s.repo_id.as_str()),
            None => true,
        };
        if is_in_flight(s) && wanted {
            let ghost before = res@;
            let c = s.copied();
            res.push(c);
            assert(views_of(res@) =~= views_of(before).push(c@));
        }
        i = i + 1;
    }
    assert(ss.take(ss.len() as int) =~= ss);
    res
}

// ---------------------------------------------------------------------------
// Concurrent syncs
// ---------------------------------------------------------------------------

/// A slot among the syncs that may run at once, held through a lock file
/// that is removed when the sync ends.
#[derive(Debug)]
pub struct SyncSlot {
    lock_path: String,
}

pub open spec fn sync_limit_message(inflight: nat, max: nat) -> Seq<char> {
    "concurrent sync limit reached ("@ + decimal(inflight) + "/"@ + decimal(max) + "); retry later"@
}

impl SyncSlot {
    pub closed spec fn lock_path_view(&self) -> Seq<char> {
        self.lock_path@
    }

    /// The directory of the lock files under a home.
    pub fn locks_dir(home: &str) -> (res: String)
        ensures
            res@ == path_join(path_join(home@, "sessions"@), "locks"@),
    {
        join2(home, "sessions", "locks")
    }

    /// Takes a slot when fewer than `max` syncs hold one (`inflight` lock
    /// files exist); its lock file is named after `stamp`.
    pub fn acquire(home: &str, inflight: usize, max: usize, stamp: &str) -> (res: Result<
        SyncSlot,
        AppError,
    >)
        ensures
            inflight >= max ==> (res matches Err(e) && e@ == sync_limit_message(
                inflight as nat,
                max as nat,
            )),
            inflight < max ==> (res matches Ok(slot) && slot.lock_path_view() == path_join(
                path_join(path_join(home@, "sessions"@), "locks"@),
                "sync-"@ + stamp@,
            )),
    {
        if inflight >= max {
            let mut msg = copy_str("concurrent sync limit reached (");
            push_decimal(&mut msg, inflight as u64);
            msg.append("/");
            push_decimal(&mut msg, max as u64);
            msg.append("); retry later");
            return Err(AppError::from_string(msg));
        }
        let mut name = copy_str("sync-");
        name.append(stamp);
        Ok(SyncSlot { lock_path: join3(home, "sessions", "locks", name.as_str()) })
    }

    /// The lock file that holds the slot.
    pub fn lock_path(&self) -> (res: &str)
        ensures
            res@ == self.lock_path_view(),
    {
        self.lock_path.as_str()
    }
}

// ---------------------------------------------------------------------------
// Mirroring to a peer
// ---------------------------------------------------------------------------

/// A git invocation: its arguments, and the directory it runs in, if any.
#[derive(Debug)]
pub struct GitCommand {
    pub args: Vec<String>,
    pub cwd: Option<String>,
}

pub struct GitCommandView {
    pub args: Seq<Seq<char>>,
    pub cwd: Option<Seq<char>>,
}

impl View for GitCommand {
    type V = GitCommandView;

    open spec fn view(&self) -> GitCommandView {
        GitCommandView {
            args: self.args.deep_view(),
            cwd: match self.cwd {
                Some(c) => Some(c@),
                None => None,
            },
        }
    }
}

fn args3(a: &str, b: &str, c: &str) -> (res: Vec<String>)
    ensures
        res.deep_view() == seq![a@, b@, c@],
{
    let res = vec![copy_str(a), copy_str(b), copy_str(c)];
    assert(res.deep_view() =~= seq![a@, b@, c@]);
    res
}

fn args4(a: &str, b: &str, c: &str, d: &str) -> (res: Vec<String>)
    ensures
        res.deep_view() == seq![a@, b@, c@, d@],
{
    let res = vec![copy_str(a), copy_str(b), copy_str(c), copy_str(d)];
    assert(res.deep_view() =~= seq![a@, b@, c@, d@]);
    res
}

/// The git commands that bring the peer's mirror up to date with the local
/// mirror: repoint and update an existing mirror, or clone a new one.
pub open spec fn mirror_sync_of(local_mirror: Seq<char>, remote_mirror: Seq<char>, remote_exists: bool) -> Seq<
    GitCommandView,
> {
    if remote_exists {
        seq![
            GitCommandView {
                args: seq!["remote"@, "set-url"@, "origin"@, local_mirror],
                cwd: Some(remote_mirror),
            },
            GitCommandView { args: seq!["remote"@, "update"@, "--prune"@], cwd: Some(remote_mirror) },
        ]
    } else {
        seq![
            GitCommandView {
                args: seq!["clone"@, "--mirror"@, local_mirror, remote_mirror],
                cwd: None,
            },
        ]
    }
}

/// The git commands that mirror the local mirror to the peer's.
pub fn mirror_sync_commands(local_mirror: &str, remote_mirror: &str, remote_exists: bool) -> (res: Vec<
    GitCommand,
>)
    ensures
        views_of(res@) == mirror_sync_of(local_mirror@, remote_mirror@, remote_exists),
{
    if remote_exists {
        let set_url = GitCommand {
            args: args4("remote", "set-url", "origin", local_mirror),
            cwd: Some(copy_str(remote_mirror)),
        };
        let update = GitCommand {
            args: args3("remote", "update", "--prune"),
            cwd: Some(copy_str(remote_mirror)),
        };
        let res = vec![set_url, update];
        assert(views_of(res@) =~= mirror_sync_of(local_mirror@, remote_mirror@, remote_exists));
        res
    } else {
        let clone = GitCommand {
            args: args4("clone", "--mirror", local_mirror, remote_mirror),
            cwd: None,
        };
        let res = vec![clone];
        assert(views_of(res@) =~= mirror_sync_of(local_mirror@, remote_mirror@, remote_exists));
        res
    }
}

/// Records that a session's transfer goes to `remote_mirror`.
pub fn start_transfer(session: &mut Session, remote_mirror: &str)
    ensures
        final(session)@ == (SessionView { transfer_artifact: remote_mirror@, ..old(session)@ }),
{
    session.transfer_artifact = copy_str(remote_mirror);
}

/// The repository as the peer registers it: located at
/// `peer-replica://<local peer>/<name>`, replicated.
pub fn replica_repo(repo: &Repo, local_peer_id: &str) -> (res: Repo)
    ensures
        res@ == (RepoView {
            path: "peer-replica://"@ + local_peer_id@ + "/"@ + repo.name@,
            sync_state: "replicated"@,
            ..repo@
        }),
{
    let mut path = copy_str("peer-replica://");
    path.append(local_peer_id);
    path.append("/");
    path.append(repo.name.as_str());
    let mut r = repo.copied();
    r.path = path;
    r.sync_state = copy_str("replicated");
    r
}

/// The amount transferred as it is kept once a transfer is validated: the
/// number, normalised, or `complete` when it is not one.
pub open spec fn settled_bytes(b: Seq<char>) -> Seq<char> {
    match parse_unsigned(b, usize::MAX as int) {
        Some(n) => decimal(n as nat),
        None => "complete"@,
    }
}

/// Settles a validated transfer: the amount transferred normalised, and an
/// empty offset set to it.
pub fn finish_transfer(session: &mut Session)
    ensures
        final(session)@ == (SessionView {
            bytes_transferred: settled_bytes(old(session).bytes_transferred@),
            transfer_offset: if old(session).transfer_offset@.len() == 0 {
                settled_bytes(old(session).bytes_transferred@)
            } else {
                old(session).transfer_offset@
            },
            ..old(session)@
        }),
{
    let settled = match parse_unsigned_exec(session.bytes_transferred.as_str(), usize::MAX as u64) {
        Some(n) => {
            let mut s = String::new();
            push_decimal(&mut s, n);
            assert(s@ =~= decimal(n as nat));
            s
        },
        None => copy_str("complete"),
    };
    session.bytes_transferred = settled;
    if session.transfer_offset.as_str().is_empty() {
        session.transfer_offset = session.bytes_transferred.clone();
    }
}

/// The line that the replication log gets for a replicated checkpoint.
pub fn replication_log_line(checkpoint_id: &str, session_id: &str) -> (res: String)
    ensures
        res@ == "replicated checkpoint="@ + checkpoint_id@ + " session="@ + session_id@,
{
    let mut line = copy_str("replicated checkpoint=");
    line.append(checkpoint_id);
    line.append(" session=");
    line.append(session_id);
    line
}

// ---------------------------------------------------------------------------
// Replication state
// ---------------------------------------------------------------------------

/// The fields of a replication state.
pub open spec fn replication_state_fields(
    peer_id: Seq<char>,
    repo_id: Seq<char>,
    checkpoint_id: Seq<char>,
    session: SessionView,
    updated_at: Seq<char>,
    lineage: Seq<char>,
    propagation_state: Seq<char>,
    signature: Seq<char>,
    signed_by: Seq<char>,
    signed_at: Seq<char>,
) -> Seq<(Seq<char>, Seq<char>)> {
    seq![
        ("peer_id"@, peer_id),
        ("repo_id"@, repo_id),
        ("checkpoint_id"@, checkpoint_id),
        ("session_id"@, session.id),
        ("state"@, session.state),
        ("updated_at"@, updated_at),
        ("checkpoint_lineage"@, lineage),
        ("propagation_state"@, propagation_state),
        ("sync_history"@, session.id),
        ("signature"@, signature),
        ("signed_by"@, signed_by),
        ("signed_at"@, signed_at),
    ]
}

/// The record of the replication of `checkpoint` of `repo` to `peer` by
/// `session`, kept in a vault and written at `updated_at`.
pub fn write_replication_state(
    vault: &Vault,
    peer: &Peer,
    repo: &Repo,
    checkpoint: &Checkpoint,
    session: &Session,
    lineage: &str,
    propagation_state: &str,
    signature: &str,
    signed_by: &str,
    signed_at: &str,
    updated_at: &str,
) -> (res: KvRecord)
    ensures
        res.path@ == path_join(path_join(vault.path@, "replication"@), peer.id@ + "-"@ + repo.id@),
        res.fields.deep_view() == replication_state_fields(
            peer.id@,
            repo.id@,
            checkpoint.id@,
            session@,
            updated_at@,
            lineage@,
            propagation_state@,
            signature@,
            signed_by@,
            signed_at@,
        ),
{
    let mut name = copy_str(peer.id.as_str());
    name.append("-");
    name.append(repo.id.as_str());
    let fields = vec![
        kv_pair("peer_id", peer.id.as_str()),
        kv_pair("repo_id", repo.id.as_str()),
        kv_pair("checkpoint_id", checkpoint.id.as_str()),
        kv_pair("session_id", session.id.as_str()),
        kv_pair("state", session.state.as_str()),
        kv_pair("updated_at", updated_at),
        kv_pair("checkpoint_lineage", lineage),
        kv_pair("propagation_state", propagation_state),
        kv_pair("sync_history", session.id.as_str()),
        kv_pair("signature", signature),
        kv_pair("signed_by", signed_by),
        kv_pair("signed_at", signed_at),
    ];
    assert(fields.deep_view() =~= replication_state_fields(
        peer.id@,
        repo.id@,
        checkpoint.id@,
        session@,
        updated_at@,
        lineage@,
        propagation_state@,
        signature@,
        signed_by@,
        signed_at@,
    ));
    KvRecord { path: join2(vault.path.as_str(), "replication", name.as_str()), fields }
}

/// The peer, repository and sync history of each replication record, of
/// `peer_id` when one is given.
pub open spec fn history_rows(ms: Seq<Seq<(Seq<char>, Seq<char>)>>, peer_id: Option<Seq<char>>) -> Seq<
    (Seq<char>, Seq<char>, Seq<char>),
>
    decreases ms.len(),
{
    if ms.len() == 0 {
        Seq::<(Seq<char>, Seq<char>, Seq<char>)>::empty()
    } else {
        let prev = history_rows(ms.drop_last(), peer_id);
        let m = ms.last();
        let pid = stored_or_empty(m, "peer_id"@);
        if match peer_id {
            Some(p) => p == pid,
            None => true,
        } {
            prev.push((pid, stored_or_empty(m, "repo_id"@), stored_or_empty(m, "sync_history"@)))
        } else {
            prev
        }
    }
}

/// The replication history in the replication records, of `peer_id` when
/// one is given.
pub fn replication_history(records: &Vec<KvFields>, peer_id: Option<&str>) -> (res: Vec<
    (String, String, String),
>)
    ensures
        res.deep_view() == history_rows(
            records.deep_view(),
            match peer_id {
                Some(p) => Some(p@),
                None => None,
            },
        ),
{
    let ghost ms = records.deep_view();
    let ghost p = match peer_id {
        Some(p) => Some(p@),
        None => None::<Seq<char>>,
    };
    let mut rows: Vec<(String, String, String)> = Vec::new();
    let mut i: usize = 0;
    assert(ms.take(0) =~= Seq::<Seq<(Seq<char>, Seq<char>)>>::empty());
    assert(rows.deep_view() =~= history_rows(ms.take(0), p));
    while i < records.len()
        invariant
            i <= ms.len(),
            ms == records.deep_view(),
            p == (match peer_id {
                Some(p) => Some(p@),
                None => None::<Seq<char>>,
            }),
            rows.deep_view() == history_rows(ms.take(i as int), p),
        decreases records.len() - i,
    {
        proof {
            assert(ms.take(i + 1).drop_last() =~= ms.take(i as int));
            assert(ms.take(i + 1).last() == records@[i as int].deep_view());
        }
        let m = &records[i];
        let pid = optional_field(m, "peer_id");
        let wanted = match peer_id {
            Some(want) => same_text(want, pid.as_str()),
            None => true,
        };
        if wanted {
            let row = (pid, optional_field(m, "repo_id"), optional_field(m, "sync_history"));
            let ghost before = rows.deep_view();
            rows.push(row);
            assert(rows.deep_view() =~= before.push((row.0@, row.1@, row.2@)));
        }
        i = i + 1;
    }
    assert(ms.take(ms.len() as int) =~= ms);
    rows
}

// ---------------------------------------------------------------------------
// Peers found on the filesystem
// ---------------------------------------------------------------------------

/// What was read from another home on this machine: its identity, the
/// outcome of validating that identity's public key, and the names of its
/// vaults, in order.
#[derive(Debug)]
pub struct HomeProbe {
    pub home: String,
    pub identity: Identity,
    pub identity_check: Result<(), AppError>,
    pub vault_names: Vec<String>,
}

/// The index of the first probe whose identity failed validation, or the
/// number of probes.
pub open spec fn first_invalid_probe(probes: Seq<HomeProbe>) -> int
    decreases probes.len(),
{
    if probes.len() == 0 {
        0
    } else if probes[0].identity_check is Err {
        0
    } else {
        1 + first_invalid_probe(probes.drop_first())
    }
}

/// A home is probed when it has an identity and is not this installation's
/// (compared as paths).
pub fn should_probe_home(app: &App, home: &str, identity_exists: bool) -> (res: bool)
    ensures
        res == (identity_exists && !same_path(home@, app.home@)),
{
    identity_exists && !paths_equal(home, app.home.as_str())
}

/// The homes among `homes` that are probed, in order: those with an identity
/// (`identity_exists[i]` for the home at `i`) that are not the path `own`.
pub open spec fn probed_homes(own: Seq<char>, homes: Seq<Seq<char>>, identity_exists: Seq<bool>) -> Seq<
    Seq<char>,
>
    decreases homes.len(),
{
    if homes.len() == 0 {
        Seq::<Seq<char>>::empty()
    } else {
        let prev = probed_homes(own, homes.drop_last(), identity_exists);
        if identity_exists[homes.len() - 1] && !same_path(homes.last(), own) {
            prev.push(homes.last())
        } else {
            prev
        }
    }
}

/// The homes to probe for peers, in order: each of `homes` that has an
/// identity and is not this installation's home.
pub fn homes_to_probe(app: &App, homes: &Vec<String>, identity_exists: &Vec<bool>) -> (res: Vec<String>)
    requires
        identity_exists@.len() == homes@.len(),
    ensures
        res.deep_view() == probed_homes(app.home@, homes.deep_view(), identity_exists@),
{
    let mut res: Vec<String> = Vec::new();
    let mut i: usize = 0;
    while i < homes.len()
        invariant
            i <= homes@.len(),
            identity_exists@.len() == homes@.len(),
            res.deep_view() == probed_homes(app.home@, homes.deep_view().take(i as int), identity_exists@),
        decreases homes.len() - i,
    {
        proof {
            assert(homes.deep_view().take(i + 1).drop_last() =~= homes.deep_view().take(i as int));
            assert(homes.deep_view().take(i + 1).last() == homes@[i as int]@);
        }
        if should_probe_home(app, homes[i].as_str(), identity_exists[i]) {
            let ghost before = res.deep_view();
            res.push(copy_str(homes[i].as_str()));
            assert(res.deep_view() =~= before.push(homes@[i as int]@));
        }
        i = i + 1;
    }
    assert(homes.deep_view().take(homes@.len() as int) =~= homes.deep_view());
    res
}

/// The trust already given to `id` among the known peers, or `untrusted`.
pub open spec fn known_trust(known: Seq<PeerView>, id: Seq<char>) -> Seq<char>
    decreases known.len(),
{
    if known.len() == 0 {
        "untrusted"@
    } else if known[0].id == id {
        known[0].trust_state
    } else {
        known_trust(known.drop_first(), id)
    }
}

fn trust_of(known: &Vec<Peer>, id: &str) -> (res: String)
    ensures
        res@ == known_trust(views_of(known@), id@),
{
    let ghost ks = views_of(known@);
    let mut i: usize = 0;
    assert(ks.skip(0) =~= ks);
    while i < known.len()
        invariant
            i <= ks.len(),
            ks == views_of(known@),
            known_trust(ks, id@) == known_trust(ks.skip(i as int), id@),
        decreases known.len() - i,
    {
        assert(ks.skip(i as int)[0] == known@[i as int]@);
        if same_text(known[i].id.as_str(), id) {
            return known[i].trust_state.clone();
        }
        assert(ks.skip(i as int).drop_first() =~= ks.skip(i + 1));
        i = i + 1;
    }
    assert(ks.skip(i as int).len() == 0);
    copy_str("untrusted")
}

/// The peer that a probed home makes known, discovered at `now`.
pub open spec fn filesystem_peer(
    home: Seq<char>,
    peer_id: Seq<char>,
    public_key: Seq<char>,
    vault_names: Seq<Seq<char>>,
    known: Seq<PeerView>,
    now: Seq<char>,
    listen_port: u16,
) -> PeerView {
    PeerView {
        id: peer_id,
        public_key,
        home,
        trust_state: known_trust(known, peer_id),
        capabilities: "filesystem,encrypted-session,checkpoint-replication,quic"@,
        vaults: join_seq(vault_names, ","@),
        discovered_at: now,
        listen_port,
    }
}

/// The peers that the probed homes make known, in order, each keeping the
/// trust it was already given.
pub fn discover_filesystem(probes: &Vec<HomeProbe>, known: &Vec<Peer>, now: &str, listen_port: u16) -> (res:
    Result<Vec<Peer>, AppError>)
    ensures
        first_invalid_probe(probes@) < probes@.len() ==> (res matches Err(e) && e@
            == probes@[first_invalid_probe(probes@)].identity_check->Err_0@),
        first_invalid_probe(probes@) >= probes@.len() ==> (res matches Ok(ps) && ps@.len() == probes@.len()
            && forall|i: int|
            0 <= i < probes@.len() ==> #[trigger] ps@[i]@ == filesystem_peer(
                probes@[i].home@,
                probes@[i].identity.peer_id@,
                probes@[i].identity.public_key@,
                probes@[i].vault_names.deep_view(),
                views_of(known@),
                now@,
                listen_port,
            )),
{
    let mut peers: Vec<Peer> = Vec::new();
    let mut i: usize = 0;
    assert(probes@.skip(0) =~= probes@);
    while i < probes.len()
        invariant
            i <= probes@.len(),
            peers@.len() == i,
            first_invalid_probe(probes@) == i + first_invalid_probe(probes@.skip(i as int)),
            forall|j: int|
                0 <= j < i ==> #[trigger] peers@[j]@ == filesystem_peer(
                    probes@[j].home@,
                    probes@[j].identity.peer_id@,
                    probes@[j].identity.public_key@,
                    probes@[j].vault_names.deep_view(),
                    views_of(known@),
                    now@,
                    listen_port,
                ),
        decreases probes.len() - i,
    {
        let probe = &probes[i];
        proof {
            assert(probes@.skip(i as int)[0] == probes@[i as int]);
            assert(probes@.skip(i as int).drop_first() =~= probes@.skip(i + 1));
        }
        if let Err(e) = &probe.identity_check {
            return Err(AppError::new(e.message()));
        }
        let trust_state = trust_of(known, probe.identity.peer_id.as_str());
        let vaults = join_with(&probe.vault_names, ",");
        let peer = Peer {
            id: probe.identity.peer_id.clone(),
            public_key: probe.identity.public_key.clone(),
            home: probe.home.clone(),
            trust_state,
            capabilities: copy_str("filesystem,encrypted-session,checkpoint-replication,quic"),
            vaults,
            discovered_at: copy_str(now),
            listen_port,
        };
        peers.push(peer);
        i = i + 1;
    }
    assert(probes@.skip(i as int) =~= Seq::<HomeProbe>::empty());
    Ok(peers)
}

/// The peer that an mDNS service announces, seen at `now`: none for this
/// installation's own announcement; its peer id is required, and its key
/// must have passed `identity_check`.
pub fn peer_from_service(
    peer_id: Option<&str>,
    public_key: Option<&str>,
    vault_count: Option<&str>,
    port: u16,
    own_peer_id: &str,
    identity_check: Result<(), AppError>,
    known: &Vec<Peer>,
    now: &str,
) -> (res: Result<Option<Peer>, AppError>)
    ensures
        match peer_id {
            None => res matches Err(e) && e@ == "mdns peer missing peer_id"@,
            Some(id) => if id@.len() == 0 {
                res matches Err(e) && e@ == "mdns peer missing peer_id"@
            } else if id@ == own_peer_id@ {
                res matches Ok(None)
            } else {
                match identity_check {
                    Err(ie) => res matches Err(e) && e@ == ie@,
                    Ok(_) => res matches Ok(Some(p)) && p@ == (PeerView {
                        id: id@,
                        public_key: match public_key {
                            Some(k) => k@,
                            None => Seq::<char>::empty(),
                        },
                        home: Seq::<char>::empty(),
                        trust_state: known_trust(views_of(known@), id@),
                        capabilities: "mdns,quic,filesystem"@,
                        vaults: match vault_count {
                            Some(v) => v@,
                            None => Seq::<char>::empty(),
                        },
                        discovered_at: now@,
                        listen_port: port,
                    }),
                }
            },
        },
{
    let id = match peer_id {
        Some(id) => id,
        None => return Err(AppError::new("mdns peer missing peer_id")),
    };
    if id.is_empty() {
        return Err(AppError::new("mdns peer missing peer_id"));
    }
    if same_text(id, own_peer_id) {
        return Ok(None);
    }
    identity_check?;
    let key = match public_key {
        Some(k) => copy_str(k),
        None => String::new(),
    };
    let vaults = match vault_count {
        Some(v) => copy_str(v),
        None => String::new(),
    };
    let trust_state = trust_of(known, id);
    Ok(
        Some(
            Peer {
                id: copy_str(id),
                public_key: key,
                home: String::new(),
                trust_state,
                capabilities: copy_str("mdns,quic,filesystem"),
                vaults,
                discovered_at: copy_str(now),
                listen_port: port,
            },
        ),
    )
}

} // verus!
