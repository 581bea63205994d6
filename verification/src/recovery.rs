//! Recovery: checking a working tree, choosing the peers and replicas to
//! recover from and ranking them by score.
use vstd::prelude::*;

use crate::discovery::{DiscoveryEntry, DiscoveryEntryView};
use crate::error::AppError;
use crate::kv::{kv_lookup, optional_field, stored_or_empty, KvFields};
use crate::layout::{join_path, path_join};
use crate::models::{Checkpoint, CheckpointView, Peer, PeerView, Repo, Vault};
use crate::sorting::{
    dedup_seq, dedup_stable, is_sorted, lemma_sort_dedup_sorted, lemma_stable_sort_sorted,
    sort_stable, stable_sort, views_of, DedupKey, SortKey,
};
use crate::text::{
    contains_text, copy_str, decimal, parse_unsigned, parse_unsigned_exec, push_decimal, same_text,
    split_on, split_seq, text_contains, trim, trim_seq,
};

verus! {

// ---------------------------------------------------------------------------
// Checking a working tree
// ---------------------------------------------------------------------------

/// Whether a repository's working tree is sound, and what to do if not.
#[derive(Debug)]
pub struct DoctorReport {
    pub healthy: bool,
    pub message: String,
}

pub open spec fn missing_tree_message(path: Seq<char>, name: Seq<char>) -> Seq<char> {
    "working tree '"@ + path + "' does not exist; run `gitp2p recover "@ + name + "`"@
}

pub open spec fn failed_check_message(name: Seq<char>) -> Seq<char> {
    "repository integrity check failed; run `gitp2p recover "@ + name + " [--checkpoint <id>]`"@
}

/// Examines a repository given whether its working tree exists and whether
/// `git fsck --full` passed on it (a check that could not run counts as
/// failed).
pub fn doctor_repo(repo: &Repo, tree_exists: bool, fsck_ok: bool) -> (res: Result<
    DoctorReport,
    AppError,
>)
    ensures
        res matches Ok(r) && {
            &&& !tree_exists ==> !r.healthy && r.message@ == missing_tree_message(
                repo.path@,
                repo.name@,
            )
            &&& tree_exists && fsck_ok ==> r.healthy && r.message@
                == "repository integrity verified"@
            &&& tree_exists && !fsck_ok ==> !r.healthy && r.message@ == failed_check_message(
                repo.name@,
            )
        },
{
    if !tree_exists {
        let mut msg = copy_str("working tree '");
        msg.append(repo.path.as_str());
        msg.append("' does not exist; run `gitp2p recover ");
        msg.append(repo.name.as_str());
        msg.append("`");
        return Ok(DoctorReport { healthy: false, message: msg });
    }
    if fsck_ok {
        return Ok(DoctorReport { healthy: true, message: copy_str("repository integrity verified") });
    }
    let mut msg = copy_str("repository integrity check failed; run `gitp2p recover ");
    msg.append(repo.name.as_str());
    msg.append(" [--checkpoint <id>]`");
    Ok(DoctorReport { healthy: false, message: msg })
}

/// A working tree needs recovery when it is missing or fails its check.
pub fn working_tree_needs_recovery(tree_exists: bool, fsck_ok: bool) -> (res: Result<bool, AppError>)
    ensures
        res == Ok::<bool, AppError>(!tree_exists || !fsck_ok),
{
    Ok(!tree_exists || !fsck_ok)
}

// ---------------------------------------------------------------------------
// Peer recovery candidates
// ---------------------------------------------------------------------------

/// A peer that holds a verified mirror of the repository, with its latest
/// checkpoint and a score: the higher, the better.
#[derive(Debug)]
pub struct RecoveryCandidate {
    pub peer_id: String,
    pub checkpoint: Checkpoint,
    pub score: u64,
}

pub struct RecoveryCandidateView {
    pub peer_id: Seq<char>,
    pub checkpoint: CheckpointView,
    pub score: u64,
}

impl View for RecoveryCandidate {
    type V = RecoveryCandidateView;

    open spec fn view(&self) -> RecoveryCandidateView {
        RecoveryCandidateView { peer_id: self.peer_id@, checkpoint: self.checkpoint@, score: self.score }
    }
}

impl SortKey for RecoveryCandidate {
    /// Candidates are ranked by descending score.
    open spec fn key_before(a: RecoveryCandidateView, b: RecoveryCandidateView) -> bool {
        a.score > b.score
    }

    proof fn lemma_before_irreflexive(a: RecoveryCandidateView) {
    }

    proof fn lemma_before_transitive(a: RecoveryCandidateView, b: RecoveryCandidateView, c: RecoveryCandidateView) {
    }

    fn is_before(&self, other: &Self) -> (res: bool) {
        self.score > other.score
    }
}

/// A peer that may serve a recovery without being named: trusted or
/// protected.
pub open spec fn serves_recovery(p: PeerView) -> bool {
    p.trust_state == "trusted"@ || p.trust_state == "protected"@
}

/// The ids of the peers that serve recovery, in order.
pub open spec fn recovery_peers(ps: Seq<PeerView>) -> Seq<Seq<char>>
    decreases ps.len(),
{
    if ps.len() == 0 {
        Seq::<Seq<char>>::empty()
    } else if serves_recovery(ps.last()) {
        recovery_peers(ps.drop_last()).push(ps.last().id)
    } else {
        recovery_peers(ps.drop_last())
    }
}

/// With `auto`, the peers tried for a recovery are exactly the trusted and
/// the protected ones: an id is tried when, and only when, some peer with
/// that id is trusted or protected.
pub proof fn lemma_auto_tries_trusted_peers(ps: Seq<PeerView>, id: Seq<char>)
    ensures
        named_recovery_peers(ps, "auto"@).contains(id) <==> exists|i: int|
            0 <= i < ps.len() && (#[trigger] ps[i]).id == id && (ps[i].trust_state == "trusted"@
                || ps[i].trust_state == "protected"@),
    decreases ps.len(),
{
    if ps.len() > 0 {
        let q = ps.drop_last();
        lemma_auto_tries_trusted_peers(q, id);
        let prev = recovery_peers(q);
        if recovery_peers(ps).contains(id) {
            let k = choose|k: int| 0 <= k < recovery_peers(ps).len() && recovery_peers(ps)[k] == id;
            if k < prev.len() {
                assert(recovery_peers(ps)[k] == prev[k]);
                assert(prev.contains(id));
                let i = choose|i: int|
                    0 <= i < q.len() && (#[trigger] q[i]).id == id && (q[i].trust_state == "trusted"@
                        || q[i].trust_state == "protected"@);
                assert(ps[i] == q[i]);
            } else {
                assert(ps[ps.len() - 1] == ps.last());
            }
        }
        if exists|i: int|
            0 <= i < ps.len() && (#[trigger] ps[i]).id == id && (ps[i].trust_state == "trusted"@
                || ps[i].trust_state == "protected"@) {
            let i = choose|i: int|
                0 <= i < ps.len() && (#[trigger] ps[i]).id == id && (ps[i].trust_state == "trusted"@
                    || ps[i].trust_state == "protected"@);
            if i < ps.len() - 1 {
                assert(q[i] == ps[i]);
                assert(prev.contains(id));
                let k = choose|k: int| 0 <= k < prev.len() && prev[k] == id;
                if serves_recovery(ps.last()) {
                    assert(recovery_peers(ps)[k] == id);
                }
            } else {
                assert(ps.last() == ps[i]);
                assert(recovery_peers(ps)[recovery_peers(ps).len() - 1] == id);
            }
        }
    }
}

/// The peers that `peer_spec` names: with `auto` the peers that serve
/// recovery, otherwise the comma-separated ids, trimmed.
pub open spec fn named_recovery_peers(ps: Seq<PeerView>, peer_spec: Seq<char>) -> Seq<Seq<char>> {
    if peer_spec == "auto"@ {
        recovery_peers(ps)
    } else {
        split_seq(peer_spec, ',').map_values(|part: Seq<char>| trim_seq(part))
    }
}

/// The ids of the peers to try for a recovery.
pub fn recovery_peer_ids(peers: &Vec<Peer>, peer_spec: &str) -> (res: Vec<String>)
    ensures
        res.deep_view() == named_recovery_peers(views_of(peers@), peer_spec@),
{
    if same_text(peer_spec, "auto") {
        let ghost ps = views_of(peers@);
        let mut ids: Vec<String> = Vec::new();
        let mut i: usize = 0;
        assert(ps.take(0) =~= Seq::<PeerView>::empty());
        assert(ids.deep_view() =~= recovery_peers(ps.take(0)));
        while i < peers.len()
            invariant
                i <= ps.len(),
                ps == views_of(peers@),
                ids.deep_view() == recovery_peers(ps.take(i as int)),
            decreases peers.len() - i,
        {
            proof {
                assert(ps.take(i + 1).drop_last() =~= ps.take(i as int));
                assert(ps.take(i + 1).last() == peers@[i as int]@);
            }
            let state = peers[i].trust_state.as_str();
            if same_text(state, "trusted") || same_text(state, "protected") {
                let ghost before = ids.deep_view();
                ids.push(peers[i].id.clone());
                assert(ids.deep_view() =~= before.push(peers@[i as int].id@));
            }
            i = i + 1;
        }
        assert(ps.take(ps.len() as int) =~= ps);
        ids
    } else {
        let parts = split_on(peer_spec, ',');
        let ghost split = parts.deep_view();
        let mut ids: Vec<String> = Vec::new();
        let mut i: usize = 0;
        while i < parts.len()
            invariant
                i <= split.len(),
                split == parts.deep_view(),
                ids.deep_view() == split.take(i as int).map_values(|part: Seq<char>| trim_seq(part)),
            decreases parts.len() - i,
        {
            let t = trim(parts[i].as_str());
            let ghost before = ids.deep_view();
            assert(split[i as int] == parts@[i as int]@);
            ids.push(t);
            assert(ids.deep_view() =~= before.push(t@));
            assert(ids.deep_view() =~= split.take(i + 1).map_values(
                |part: Seq<char>| trim_seq(part),
            ));
            i = i + 1;
        }
        assert(split.take(split.len() as int) =~= split);
        ids
    }
}

/// The score of a candidate: the creation time of its checkpoint (0 when it
/// is not a number), and 1000 more when the replication state of the peer
/// reports a complete propagation.
pub open spec fn recovery_score_of(
    created_at: Seq<char>,
    replication_state: Option<Seq<(Seq<char>, Seq<char>)>>,
) -> int {
    let created = match parse_unsigned(created_at, u64::MAX as int) {
        Some(n) => n,
        None => 0,
    };
    let bonus = match replication_state {
        Some(m) => if kv_lookup(m, "propagation_state"@) == Some("complete"@) {
            1000int
        } else {
            0int
        },
        None => 0int,
    };
    created + bonus
}

/// The score of a candidate whose checkpoint was created at `created_at`,
/// given the replication state recorded for the peer, if one was found.
pub fn recovery_score(created_at: &str, replication_state: Option<&KvFields>) -> (res: u64)
    requires
        recovery_score_of(
            created_at@,
            match replication_state {
                Some(m) => Some(m.deep_view()),
                None => None,
            },
        ) <= u64::MAX,
    ensures
        res == recovery_score_of(
            created_at@,
            match replication_state {
                Some(m) => Some(m.deep_view()),
                None => None,
            },
        ),
{
    let created = match parse_unsigned_exec(created_at, u64::MAX) {
        Some(n) => n,
        None => 0,
    };
    let bonus: u64 = match replication_state {
        Some(m) => match crate::kv::lookup(m, "propagation_state") {
            Some(v) => if same_text(v.as_str(), "complete") {
                1000
            } else {
                0
            },
            None => 0,
        },
        None => 0,
    };
    created + bonus
}

/// The replication state as a sequence of views.
pub open spec fn state_view(replication_state: Option<&KvFields>) -> Option<Seq<(Seq<char>, Seq<char>)>> {
    match replication_state {
        Some(m) => Some(m.deep_view()),
        None => None,
    }
}

/// Whether a peer passes every probe: it is known, holds the repository in a
/// vault with a mirror, its latest checkpoint loads and `git fsck` passes on
/// the mirror. (Whether the checkpoint's signature holds is not asked here.)
pub open spec fn probes_pass(
    peer: Result<Peer, AppError>,
    remote_repo: Result<Repo, AppError>,
    remote_vault: Result<Vault, AppError>,
    mirror_exists: bool,
    latest: Result<Checkpoint, AppError>,
    fsck_ok: Result<bool, AppError>,
) -> bool {
    &&& peer is Ok
    &&& remote_repo is Ok
    &&& remote_vault is Ok
    &&& mirror_exists
    &&& latest is Ok
    &&& fsck_ok == Ok::<bool, AppError>(true)
}

/// Whether `res` is what assessing a peer as a recovery source gives, from
/// what its probes found, in the order in which they run: looking the peer
/// up (an error ends the search), finding the repository in the peer's
/// installation (skipped without it), finding its vault (an error ends the
/// search), the mirror (skipped without it), loading the latest checkpoint
/// (an error ends the search), checking its signature with the peer's key
/// (skipped when it fails) and `git fsck` on the mirror (an error ends the
/// search; skipped when it fails). A peer that passes is a candidate with
/// its latest checkpoint and its recovery score.
pub open spec fn assessed(
    res: Result<Option<RecoveryCandidate>, AppError>,
    peer: Result<Peer, AppError>,
    remote_repo: Result<Repo, AppError>,
    remote_vault: Result<Vault, AppError>,
    mirror_exists: bool,
    latest: Result<Checkpoint, AppError>,
    fsck_ok: Result<bool, AppError>,
    state: Option<Seq<(Seq<char>, Seq<char>)>>,
) -> bool {
    match peer {
        Err(e) => res matches Err(f) && f@ == e@,
        Ok(p) => match remote_repo {
            Err(_) => res == Ok::<Option<RecoveryCandidate>, AppError>(None),
            Ok(_) => match remote_vault {
                Err(e) => res matches Err(f) && f@ == e@,
                Ok(_) => if !mirror_exists {
                    res == Ok::<Option<RecoveryCandidate>, AppError>(None)
                } else {
                    match latest {
                        Err(e) => res matches Err(f) && f@ == e@,
                        Ok(c) => if crate::signing::record_signature_failure(
                            p.public_key@,
                            crate::signing::checkpoint_payload_of(c@),
                            c@.signature,
                        ) is Some {
                            res == Ok::<Option<RecoveryCandidate>, AppError>(None)
                        } else {
                            match fsck_ok {
                                Err(e) => res matches Err(f) && f@ == e@,
                                Ok(false) => res == Ok::<Option<RecoveryCandidate>, AppError>(None),
                                Ok(true) => res matches Ok(Some(cand)) && cand@ == (RecoveryCandidateView {
                                    peer_id: p.id@,
                                    checkpoint: c@,
                                    score: recovery_score_of(c.created_at@, state) as u64,
                                }),
                            }
                        },
                    }
                },
            },
        },
    }
}

/// Assesses one peer as a recovery source of a repository from what its
/// probes found (see `assessed`): `Ok(None)` skips the peer, `Ok(Some(..))`
/// is the candidate, an error ends the search. An argument is read only when
/// the probes before it let the assessment go on.
pub fn assess_recovery_candidate(
    peer: Result<Peer, AppError>,
    remote_repo: Result<Repo, AppError>,
    remote_vault: Result<Vault, AppError>,
    mirror_exists: bool,
    latest: Result<Checkpoint, AppError>,
    fsck_ok: Result<bool, AppError>,
    replication_state: Option<&KvFields>,
) -> (res: Result<Option<RecoveryCandidate>, AppError>)
    requires
        probes_pass(peer, remote_repo, remote_vault, mirror_exists, latest, fsck_ok) ==> recovery_score_of(
            latest->Ok_0.created_at@,
            state_view(replication_state),
        ) <= u64::MAX,
    ensures
        assessed(
            res,
            peer,
            remote_repo,
            remote_vault,
            mirror_exists,
            latest,
            fsck_ok,
            state_view(replication_state),
        ),
{
    let p = match peer {
        Ok(p) => p,
        Err(e) => {
            return Err(e);
        },
    };
    if remote_repo.is_err() {
        return Ok(None);
    }
    if let Err(e) = remote_vault {
        return Err(e);
    }
    if !mirror_exists {
        return Ok(None);
    }
    let c = match latest {
        Ok(c) => c,
        Err(e) => {
            return Err(e);
        },
    };
    if crate::signing::verify_checkpoint(&c, p.public_key.as_str()).is_err() {
        return Ok(None);
    }
    match fsck_ok {
        Err(e) => Err(e),
        Ok(false) => Ok(None),
        Ok(true) => {
            let score = recovery_score(c.created_at.as_str(), replication_state);
            Ok(Some(RecoveryCandidate { peer_id: p.id, checkpoint: c, score }))
        },
    }
}

/// The file that holds the replication state of `peer_id` for `repo_id` in
/// a vault.
pub fn replication_state_path(vault: &Vault, peer_id: &str, repo_id: &str) -> (res: String)
    ensures
        res@ == path_join(path_join(vault.path@, "replication"@), peer_id@ + "-"@ + repo_id@),
{
    let dir = join_path(vault.path.as_str(), "replication");
    let mut name = copy_str(peer_id);
    name.append("-");
    name.append(repo_id);
    join_path(dir.as_str(), name.as_str())
}

/// The candidates ranked best first: by descending score, candidates with
/// equal scores in the order in which they were found.
pub fn select_recovery_source(candidates: Vec<RecoveryCandidate>) -> (res: Vec<RecoveryCandidate>)
    ensures
        views_of(res@) == stable_sort::<RecoveryCandidate>(views_of(candidates@)),
        is_sorted::<RecoveryCandidate>(views_of(res@)),
{
    proof {
        lemma_stable_sort_sorted::<RecoveryCandidate>(views_of(candidates@));
    }
    sort_stable(candidates)
}

/// The peer and checkpoint to recover from: the best candidate, at the
/// checkpoint asked for or else at its latest checkpoint.
pub fn best_recovery_choice(candidates: &Vec<RecoveryCandidate>, checkpoint_id: Option<&str>) -> (res:
    Result<(String, String), AppError>)
    ensures
        candidates@.len() == 0 ==> (res matches Err(e) && e@
            == "no valid peer recovery sources found"@),
        candidates@.len() > 0 ==> (res matches Ok(c) && c.0@ == candidates@[0].peer_id@ && c.1@
            == match checkpoint_id {
            Some(id) => id@,
            None => candidates@[0].checkpoint.id@,
        }),
{
    if candidates.len() == 0 {
        return Err(AppError::new("no valid peer recovery sources found"));
    }
    let best = &candidates[0];
    let cp = match checkpoint_id {
        Some(id) => copy_str(id),
        None => best.checkpoint.id.clone(),
    };
    Ok((best.peer_id.clone(), cp))
}

/// One line of a recovery comparison.
pub open spec fn comparison_line(c: RecoveryCandidateView) -> Seq<char> {
    "  peer="@ + c.peer_id + " checkpoint="@ + c.checkpoint.id + " score="@ + decimal(c.score as nat)
        + "\n"@
}

pub open spec fn comparison_lines(cs: Seq<RecoveryCandidateView>) -> Seq<char>
    decreases cs.len(),
{
    if cs.len() == 0 {
        Seq::<char>::empty()
    } else {
        comparison_lines(cs.drop_last()) + comparison_line(cs.last())
    }
}

/// The comparison of the candidates that is shown when several peers were
/// named and more than one can serve.
pub fn recovery_comparison(candidates: &Vec<RecoveryCandidate>, peer_spec: &str) -> (res: Option<String>)
    ensures
        (candidates@.len() > 1 && text_contains(peer_spec@, ","@)) ==> (res matches Some(t) && t@
            == "recovery source comparison:\n"@ + comparison_lines(views_of(candidates@))),
        !(candidates@.len() > 1 && text_contains(peer_spec@, ","@)) ==> res is None,
{
    if !(candidates.len() > 1 && contains_text(peer_spec, ",")) {
        return None;
    }
    let ghost cs = views_of(candidates@);
    let mut out = copy_str("recovery source comparison:\n");
    let ghost head = out@;
    let mut i: usize = 0;
    assert(cs.take(0) =~= Seq::<RecoveryCandidateView>::empty());
    assert(out@ =~= head + comparison_lines(cs.take(0)));
    while i < candidates.len()
        invariant
            i <= cs.len(),
            cs == views_of(candidates@),
            out@ == head + comparison_lines(cs.take(i as int)),
        decreases candidates.len() - i,
    {
        proof {
            assert(cs.take(i + 1).drop_last() =~= cs.take(i as int));
            assert(cs.take(i + 1).last() == candidates@[i as int]@);
        }
        let c = &candidates[i];
        out.append("  peer=");
        out.append(c.peer_id.as_str());
        out.append(" checkpoint=");
        out.append(c.checkpoint.id.as_str());
        out.append(" score=");
        push_decimal(&mut out, c.score);
        out.append("\n");
        assert(out@ =~= head + comparison_lines(cs.take(i + 1)));
        i = i + 1;
    }
    assert(cs.take(cs.len() as int) =~= cs);
    Some(out)
}

/// The peer, repository and checkpoint that each replication record names.
pub open spec fn checkpoint_rows(ms: Seq<Seq<(Seq<char>, Seq<char>)>>) -> Seq<
    (Seq<char>, Seq<char>, Seq<char>),
>
    decreases ms.len(),
{
    if ms.len() == 0 {
        Seq::<(Seq<char>, Seq<char>, Seq<char>)>::empty()
    } else {
        checkpoint_rows(ms.drop_last()).push(
            (
                stored_or_empty(ms.last(), "peer_id"@),
                stored_or_empty(ms.last(), "repo_id"@),
                stored_or_empty(ms.last(), "checkpoint_id"@),
            ),
        )
    }
}

/// The peer, repository and checkpoint of each replication record.
pub fn best_checkpoint_peers(records: &Vec<KvFields>) -> (res: Vec<(String, String, String)>)
    ensures
        res.deep_view() == checkpoint_rows(records.deep_view()),
{
    let ghost ms = records.deep_view();
    let mut rows: Vec<(String, String, String)> = Vec::new();
    let mut i: usize = 0;
    assert(ms.take(0) =~= Seq::<Seq<(Seq<char>, Seq<char>)>>::empty());
    assert(rows.deep_view() =~= checkpoint_rows(ms.take(0)));
    while i < records.len()
        invariant
            i <= ms.len(),
            ms == records.deep_view(),
            rows.deep_view() == checkpoint_rows(ms.take(i as int)),
        decreases records.len() - i,
    {
        proof {
            assert(ms.take(i + 1).drop_last() =~= ms.take(i as int));
            assert(ms.take(i + 1).last() == records@[i as int].deep_view());
        }
        let m = &records[i];
        let row = (
            optional_field(m, "peer_id"),
            optional_field(m, "repo_id"),
            optional_field(m, "checkpoint_id"),
        );
        let ghost before = rows.deep_view();
        rows.push(row);
        assert(rows.deep_view() =~= before.push((row.0@, row.1@, row.2@)));
        i = i + 1;
    }
    assert(ms.take(ms.len() as int) =~= ms);
    rows
}

// ---------------------------------------------------------------------------
// Global recovery sources
// ---------------------------------------------------------------------------

/// A source to recover a repository from, in this domain or another.
#[derive(Clone, Debug)]
pub struct GlobalRecoverySource {
    pub domain: String,
    pub peer_id: String,
    pub checkpoint_id: String,
    pub score: u64,
}

pub struct GlobalRecoverySourceView {
    pub domain: Seq<char>,
    pub peer_id: Seq<char>,
    pub checkpoint_id: Seq<char>,
    pub score: u64,
}

impl View for GlobalRecoverySource {
    type V = GlobalRecoverySourceView;

    open spec fn view(&self) -> GlobalRecoverySourceView {
        GlobalRecoverySourceView {
            domain: self.domain@,
            peer_id: self.peer_id@,
            checkpoint_id: self.checkpoint_id@,
            score: self.score,
        }
    }
}

impl SortKey for GlobalRecoverySource {
    /// Sources are listed by descending score.
    open spec fn key_before(a: GlobalRecoverySourceView, b: GlobalRecoverySourceView) -> bool {
        a.score > b.score
    }

    proof fn lemma_before_irreflexive(a: GlobalRecoverySourceView) {
    }

    proof fn lemma_before_transitive(
        a: GlobalRecoverySourceView,
        b: GlobalRecoverySourceView,
        c: GlobalRecoverySourceView,
    ) {
    }

    fn is_before(&self, other: &Self) -> (res: bool) {
        self.score > other.score
    }
}

impl DedupKey for GlobalRecoverySource {
    /// Two sources are one when they name the same peer and checkpoint.
    open spec fn key_same(a: GlobalRecoverySourceView, b: GlobalRecoverySourceView) -> bool {
        a.peer_id == b.peer_id && a.checkpoint_id == b.checkpoint_id
    }

    fn is_same(&self, other: &Self) -> (res: bool) {
        same_text(self.peer_id.as_str(), other.peer_id.as_str()) && same_text(
            self.checkpoint_id.as_str(),
            other.checkpoint_id.as_str(),
        )
    }
}

/// The source that a local candidate gives.
pub open spec fn local_source(c: RecoveryCandidateView) -> GlobalRecoverySourceView {
    GlobalRecoverySourceView {
        domain: "local"@,
        peer_id: c.peer_id,
        checkpoint_id: c.checkpoint.id,
        score: c.score,
    }
}

/// The source that a discovered replica gives, with the fixed score 500.
pub open spec fn replica_source(r: DiscoveryEntryView) -> GlobalRecoverySourceView {
    GlobalRecoverySourceView { domain: r.source, peer_id: r.source, checkpoint_id: r.id, score: 500 }
}

/// The recovery sources, best first, without repeating a peer and
/// checkpoint next to each other.
pub open spec fn recovery_sources_of(
    candidates: Seq<RecoveryCandidateView>,
    replicas: Seq<DiscoveryEntryView>,
) -> Seq<GlobalRecoverySourceView> {
    dedup_seq::<GlobalRecoverySource>(
        stable_sort::<GlobalRecoverySource>(
            candidates.map_values(|c: RecoveryCandidateView| local_source(c))
                + replicas.map_values(|r: DiscoveryEntryView| replica_source(r)),
        ),
    )
}

/// The sources to recover a repository from: the local candidates (already
/// ranked) and the replicas discovered for it, by descending score, each
/// peer and checkpoint once where they meet.
pub fn discover_recovery_sources(candidates: &Vec<RecoveryCandidate>, replicas: &Vec<DiscoveryEntry>) -> (res:
    Vec<GlobalRecoverySource>)
    ensures
        views_of(res@) == recovery_sources_of(views_of(candidates@), views_of(replicas@)),
        is_sorted::<GlobalRecoverySource>(views_of(res@)),
{
    let ghost cs = views_of(candidates@);
    let ghost rs = views_of(replicas@);
    let mut sources: Vec<GlobalRecoverySource> = Vec::new();
    let mut i: usize = 0;
    while i < candidates.len()
        invariant
            i <= cs.len(),
            cs == views_of(candidates@),
            views_of(sources@) == cs.take(i as int).map_values(
                |c: RecoveryCandidateView| local_source(c),
            ),
        decreases candidates.len() - i,
    {
        let c = &candidates[i];
        let s = GlobalRecoverySource {
            domain: copy_str("local"),
            peer_id: c.peer_id.clone(),
            checkpoint_id: c.checkpoint.id.clone(),
            score: c.score,
        };
        let ghost before = views_of(sources@);
        assert(cs[i as int] == candidates@[i as int]@);
        sources.push(s);
        assert(views_of(sources@) =~= before.push(s@));
        assert(views_of(sources@) =~= cs.take(i + 1).map_values(
            |c: RecoveryCandidateView| local_source(c),
        ));
        i = i + 1;
    }
    assert(cs.take(cs.len() as int) =~= cs);
    let ghost locals = views_of(sources@);
    let mut k: usize = 0;
    while k < replicas.len()
        invariant
            k <= rs.len(),
            rs == views_of(replicas@),
            views_of(sources@) == locals + rs.take(k as int).map_values(
                |r: DiscoveryEntryView| replica_source(r),
            ),
        decreases replicas.len() - k,
    {
        let r = &replicas[k];
        let s = GlobalRecoverySource {
            domain: r.source.clone(),
            peer_id: r.source.clone(),
            checkpoint_id: r.id.clone(),
            score: 500,
        };
        let ghost before = views_of(sources@);
        assert(rs[k as int] == replicas@[k as int]@);
        sources.push(s);
        assert(views_of(sources@) =~= before.push(s@));
        assert(views_of(sources@) =~= locals + rs.take(k + 1).map_values(
            |r: DiscoveryEntryView| replica_source(r),
        ));
        k = k + 1;
    }
    assert(rs.take(rs.len() as int) =~= rs);
    let ghost all = views_of(sources@);
    let sorted = sort_stable(sources);
    let res = dedup_stable(sorted);
    proof {
        lemma_sort_dedup_sorted::<GlobalRecoverySource>(all);
    }
    res
}

/// The recovery sources of a repository; see `discover_recovery_sources`.
pub fn recover_sources(candidates: &Vec<RecoveryCandidate>, replicas: &Vec<DiscoveryEntry>) -> (res: Vec<
    GlobalRecoverySource,
>)
    ensures
        views_of(res@) == recovery_sources_of(views_of(candidates@), views_of(replicas@)),
{
    discover_recovery_sources(candidates, replicas)
}

/// One row of the table of recovery sources.
pub open spec fn source_row(s: GlobalRecoverySourceView) -> Seq<char> {
    s.domain + "\t"@ + s.peer_id + "\t"@ + s.checkpoint_id + "\t"@ + decimal(s.score as nat) + "\n"@
}

pub open spec fn source_rows(ss: Seq<GlobalRecoverySourceView>) -> Seq<char>
    decreases ss.len(),
{
    if ss.len() == 0 {
        Seq::<char>::empty()
    } else {
        source_rows(ss.drop_last()) + source_row(ss.last())
    }
}

/// The table of recovery sources: a header, then a tab-separated row per
/// source.
pub fn format_recovery_sources(sources: &Vec<GlobalRecoverySource>) -> (res: String)
    ensures
        res@ == "domain\tpeer\tcheckpoint\tscore\n"@ + source_rows(views_of(sources@)),
{
    let ghost ss = views_of(sources@);
    let mut out = copy_str("domain\tpeer\tcheckpoint\tscore\n");
    let ghost head = out@;
    let mut i: usize = 0;
    assert(ss.take(0) =~= Seq::<GlobalRecoverySourceView>::empty());
    assert(out@ =~= head + source_rows(ss.take(0)));
    while i < sources.len()
        invariant
            i <= ss.len(),
            ss == views_of(sources@),
            out@ == head + source_rows(ss.take(i as int)),
        decreases sources.len() - i,
    {
        proof {
            assert(ss.take(i + 1).drop_last() =~= ss.take(i as int));
            assert(ss.take(i + 1).last() == sources@[i as int]@);
        }
        let s = &sources[i];
        out.append(s.domain.as_str());
        out.append("\t");
        out.append(s.peer_id.as_str());
        out.append("\t");
        out.append(s.checkpoint_id.as_str());
        out.append("\t");
        push_decimal(&mut out, s.score);
        out.append("\n");
        assert(out@ =~= head + source_rows(ss.take(i + 1)));
        i = i + 1;
    }
    assert(ss.take(ss.len() as int) =~= ss);
    out
}

/// Whom a global recovery asks: `auto` (the best local candidate) when the
/// best source is local, otherwise the peer of the best source.
pub fn global_recovery_peer(sources: &Vec<GlobalRecoverySource>) -> (res: Result<String, AppError>)
    ensures
        sources@.len() == 0 ==> (res matches Err(e) && e@ == "no global recovery sources found"@),
        sources@.len() > 0 && sources@[0].domain@ == "local"@ ==> (res matches Ok(p) && p@
            == "auto"@),
        sources@.len() > 0 && sources@[0].domain@ != "local"@ ==> (res matches Ok(p) && p@
            == sources@[0].peer_id@),
{
    if sources.len() == 0 {
        return Err(AppError::new("no global recovery sources found"));
    }
    let best = &sources[0];
    if same_text(best.domain.as_str(), "local") {
        Ok(copy_str("auto"))
    } else {
        Ok(best.peer_id.clone())
    }
}

} // verus!
