//! Checkpoints: whether one may be taken, what a new one holds, how it is
//! signed and stored, copies received from peers, and the lineage of parents
//! behind a checkpoint.
use vstd::prelude::*;
use vstd::utf8::encode_utf8;

use crate::error::AppError;
use crate::identity::{byte_prefix, cut_len, cuttable};
use crate::models::{
    AuthDecision, Checkpoint, CheckpointView, Identity, Policy, Repo, RepoAction, RepoView, Vault,
};
use crate::policies::zone_requires_policy_approval;
use crate::text::{copy_str, join_seq, join_with, same_text, trim, trim_seq};
use crate::util::csv_entries;
use crate::zones::{enforce_repo_action, zone_decision};
use crate::digest::hex_decode;
use crate::kv::KvRecord;
use crate::layout::path_join;
use crate::signing::{
    checkpoint_payload, checkpoint_payload_of, keys_match, record_signature_failure, sign_bytes, sign_checkpoint,
};
use crate::vault::{checkpoint_fields, repo_fields, write_checkpoint, write_repo, App};

verus! {

/// Whether a checkpoint of the repository may be taken: approval counts as
/// given when the caller gives it or the policy holds the repository's zone
/// for approval, and the zone must then allow checkpoints.
pub fn checkpoint_gate(
    repo: &Repo,
    policy: &Policy,
    requires_approval: bool,
    peer_trusted: bool,
) -> (res: Result<(), AppError>)
    ensures
        res is Ok <==> zone_decision(
            repo.trust_zone@,
            RepoAction::Checkpoint,
            requires_approval || csv_entries(policy@.require_approval_for_zones).contains(
                repo.trust_zone@,
            ),
            peer_trusted,
        ) == Some(AuthDecision::Allow),
{
    let needs_approval = requires_approval || zone_requires_policy_approval(
        policy,
        repo.trust_zone.as_str(),
    );
    enforce_repo_action(repo, RepoAction::Checkpoint, needs_approval, peer_trusted)
}

/// The checkpoint of `commit` (the output of `git rev-parse HEAD`, trimmed)
/// taken of `repo` in `vault`: identified by `cp-`, `stamp`, `-` and the
/// commit's first twelve bytes; created at `created_at`; its parent the
/// repository's previous latest checkpoint; verified and not yet signed.
/// Also gives the repository as it is after the checkpoint: checkpointed,
/// with the new checkpoint as its latest.
pub fn create_checkpoint(
    repo: &Repo,
    vault: &Vault,
    head_output: &str,
    stamp: &str,
    created_at: &str,
) -> (res: (Checkpoint, Repo))
    requires
        cuttable(trim_seq(head_output@), 12),
    ensures
        exists|head: Seq<char>|
            encode_utf8(head) == encode_utf8(trim_seq(head_output@)).subrange(
                0,
                cut_len(trim_seq(head_output@), 12),
            ) && res.0@.id == "cp-"@ + stamp@ + "-"@ + head,
        res.0@.repo_id == repo.id@,
        res.0@.vault_id == vault.id@,
        res.0@.commit == trim_seq(head_output@),
        res.0@.parent == repo.latest_checkpoint@,
        res.0@.created_at == created_at@,
        res.0@.status == "verified"@,
        res.0@.signature.len() == 0,
        res.0@.signed_by.len() == 0,
        res.0@.signed_at.len() == 0,
        res.1@ == (RepoView {
            sync_state: "checkpointed"@,
            latest_checkpoint: res.0@.id,
            ..repo@
        }),
{
    let commit = trim(head_output);
    let head = byte_prefix(commit.as_str(), 12);
    let mut id = copy_str("cp-");
    id.append(stamp);
    id.append("-");
    id.append(head);
    let checkpoint = Checkpoint {
        id: id.clone(),
        repo_id: repo.id.clone(),
        vault_id: vault.id.clone(),
        commit,
        parent: repo.latest_checkpoint.clone(),
        created_at: copy_str(created_at),
        status: copy_str("verified"),
        signature: String::new(),
        signed_by: String::new(),
        signed_at: String::new(),
    };
    let mut updated = repo.copied();
    updated.sync_state = copy_str("checkpointed");
    updated.latest_checkpoint = id;
    (checkpoint, updated)
}

/// What a checkpoint run stores: the signed checkpoint, its record, and the
/// repository's record.
#[derive(Debug)]
pub struct SealedCheckpoint {
    pub checkpoint: Checkpoint,
    pub checkpoint_record: KvRecord,
    pub repo_record: KvRecord,
}

/// The last step of a checkpoint run, once `made` has been taken of `repo`
/// in `vault` (see `create_checkpoint`): `made` signed by `identity` at
/// `signed_at`, its record (refused when its file exists: checkpoints are
/// immutable), and the repository's record, checkpointed and pointing to it.
/// The signature holds over the checkpoint's payload under the identity's
/// public key whenever the identity's keys belong together.
pub fn seal_checkpoint(
    repo: &Repo,
    vault: &Vault,
    made: Checkpoint,
    identity: &Identity,
    signed_at: &str,
    path_exists: bool,
) -> (res: Result<SealedCheckpoint, AppError>)
    ensures
        res matches Ok(s) ==> {
            &&& s.checkpoint@ == (CheckpointView {
                signature: s.checkpoint@.signature,
                signed_by: identity.peer_id@,
                signed_at: signed_at@,
                ..made@
            })
            &&& keys_match(identity) ==> record_signature_failure(
                identity.public_key@,
                checkpoint_payload_of(s.checkpoint@),
                s.checkpoint@.signature,
            ) is None
            &&& !path_exists
            &&& s.checkpoint_record.path@ == path_join(
                path_join(path_join(vault.path@, "metadata"@), "checkpoints"@),
                made.id@,
            )
            &&& s.checkpoint_record.fields.deep_view() == checkpoint_fields(s.checkpoint@)
            &&& s.repo_record.path@ == path_join(
                path_join(path_join(vault.path@, "metadata"@), "repos"@),
                repo.id@,
            )
            &&& s.repo_record.fields.deep_view() == repo_fields(
                RepoView { sync_state: "checkpointed"@, latest_checkpoint: made.id@, ..repo@ },
            )
        },
        hex_decode(identity.private_key@) is None ==> (res matches Err(e) && e@
            == "malformed hexadecimal key material"@),
        path_exists ==> res is Err,
        res matches Err(e) ==> e@ == "malformed hexadecimal key material"@ || e@
            == "identity key cannot sign"@ || e@
            == "checkpoint id collision; refusing to overwrite immutable metadata"@,
{
    let payload = checkpoint_payload(&made);
    let signature = sign_bytes(identity, payload.as_str())?;
    let mut checkpoint = made;
    sign_checkpoint(identity, &mut checkpoint, signature.as_str(), signed_at);
    let checkpoint_record = write_checkpoint(vault, &checkpoint, path_exists)?;
    let mut updated = repo.copied();
    updated.sync_state = copy_str("checkpointed");
    updated.latest_checkpoint = checkpoint.id.clone();
    let repo_record = write_repo(vault, &updated);
    Ok(SealedCheckpoint { checkpoint, checkpoint_record, repo_record })
}

/// The copy of a received checkpoint to store in `vault`, marked as a
/// verified replica; `None` when the vault already holds it.
pub fn copy_checkpoint_if_missing(vault: &Vault, checkpoint: &Checkpoint, path_exists: bool) -> (res: Option<Checkpoint>)
    ensures
        path_exists ==> res is None,
        !path_exists ==> (res matches Some(c) && c@ == (CheckpointView {
            status: "replicated-verified"@,
            ..checkpoint@
        })),
{
    if path_exists {
        return None;
    }
    let mut copy = checkpoint.copied();
    copy.status = copy_str("replicated-verified");
    Some(copy)
}

/// The index of the first checkpoint with id `id` among `known`, or
/// `known.len()`.
pub open spec fn checkpoint_index(known: Seq<Checkpoint>, id: Seq<char>) -> int
    decreases known.len(),
{
    if known.len() == 0 {
        0
    } else if known[0].id@ == id {
        0
    } else {
        1 + checkpoint_index(known.drop_first(), id)
    }
}

/// The parents behind `current`, nearest first, found among `known` within
/// `fuel` steps: an error names a parent that is not known, or says that the
/// steps ran out (which only happens when the parents form a cycle).
pub open spec fn parents_of(known: Seq<Checkpoint>, current: CheckpointView, fuel: nat) -> Result<
    Seq<Seq<char>>,
    Seq<char>,
>
    decreases fuel,
{
    if current.parent.len() == 0 {
        Ok(Seq::<Seq<char>>::empty())
    } else if fuel == 0 {
        Err(lineage_cycle_message())
    } else {
        let i = checkpoint_index(known, current.parent);
        if i >= known.len() {
            Err("checkpoint '"@ + current.parent + "' was not found"@)
        } else {
            match parents_of(known, known[i]@, (fuel - 1) as nat) {
                Ok(rest) => Ok(seq![current.parent] + rest),
                Err(e) => Err(e),
            }
        }
    }
}

pub open spec fn lineage_cycle_message() -> Seq<char> {
    "checkpoint lineage does not end"@
}

/// The lineage of a checkpoint: its id, then each parent in turn, joined by
/// `->`. Parents are looked up among `known`, the checkpoints of all vaults
/// in search order.
pub open spec fn lineage_of(known: Seq<Checkpoint>, checkpoint: CheckpointView) -> Result<
    Seq<char>,
    Seq<char>,
> {
    match parents_of(known, checkpoint, (known.len() + 1) as nat) {
        Ok(ps) => Ok(join_seq(seq![checkpoint.id] + ps, "->"@)),
        Err(e) => Err(e),
    }
}

fn find_checkpoint_index(known: &Vec<Checkpoint>, id: &str) -> (res: usize)
    ensures
        res as int == checkpoint_index(known@, id@),
        res <= known@.len(),
{
    let mut i: usize = 0;
    assert(known@.skip(0) =~= known@);
    while i < known.len()
        invariant
            i <= known@.len(),
            checkpoint_index(known@, id@) == i + checkpoint_index(known@.skip(i as int), id@),
        decreases known.len() - i,
    {
        assert(known@.skip(i as int)[0] == known@[i as int]);
        if same_text(known[i].id.as_str(), id) {
            return i;
        }
        assert(known@.skip(i as int).drop_first() =~= known@.skip(i + 1));
        i = i + 1;
    }
    i
}

proof fn lemma_checkpoint_index_bound(known: Seq<Checkpoint>, id: Seq<char>)
    ensures
        0 <= checkpoint_index(known, id) <= known.len(),
    decreases known.len(),
{
    if known.len() > 0 && known[0].id@ != id {
        lemma_checkpoint_index_bound(known.drop_first(), id);
    }
}

pub open spec fn prepend_parents(prefix: Seq<Seq<char>>, r: Result<Seq<Seq<char>>, Seq<char>>) -> Result<
    Seq<Seq<char>>,
    Seq<char>,
> {
    match r {
        Ok(rest) => Ok(prefix + rest),
        Err(m) => Err(m),
    }
}

/// The lineage of `checkpoint`, following parents among `known`.
pub fn checkpoint_lineage(known: &Vec<Checkpoint>, checkpoint: &Checkpoint) -> (res: Result<
    String,
    AppError,
>)
    ensures
        match lineage_of(known@, checkpoint@) {
            Ok(chain) => res matches Ok(s) && s@ == chain,
            Err(msg) => res matches Err(e) && e@ == msg,
        },
{
    let mut chain: Vec<String> = Vec::new();
    chain.push(checkpoint.id.clone());
    let mut current = checkpoint.copied();
    let mut steps: u128 = 0;
    let limit = known.len() as u128;
    let ghost total = (known@.len() + 1) as nat;
    assert(chain.deep_view() =~= seq![checkpoint@.id]);
    assert(prepend_parents(Seq::<Seq<char>>::empty(), parents_of(known@, checkpoint@, total))
        =~= parents_of(known@, checkpoint@, total)) by {
        match parents_of(known@, checkpoint@, total) {
            Ok(rest) => {
                assert(Seq::<Seq<char>>::empty() + rest =~= rest);
            },
            Err(m) => {},
        }
    }
    while !current.parent.as_str().is_empty()
        invariant
            limit == known@.len(),
            total == known@.len() + 1,
            steps <= limit + 1,
            chain.deep_view().len() >= 1,
            chain.deep_view()[0] == checkpoint@.id,
            parents_of(known@, checkpoint@, total) == prepend_parents(
                chain.deep_view().drop_first(),
                parents_of(known@, current@, (total - steps) as nat),
            ),
        decreases limit + 1 - steps,
    {
        let ghost s = (total - steps) as nat;
        if steps > limit {
            assert(s == 0);
            return Err(AppError::new("checkpoint lineage does not end"));
        }
        let i = find_checkpoint_index(known, current.parent.as_str());
        if i >= known.len() {
            let mut msg = copy_str("checkpoint '");
            msg.append(current.parent.as_str());
            msg.append("' was not found");
            return Err(AppError::from_string(msg));
        }
        let ghost before = chain.deep_view();
        let ghost next = known@[i as int]@;
        assert(parents_of(known@, current@, s) == prepend_parents(
            seq![current@.parent],
            parents_of(known@, next, (s - 1) as nat),
        ));
        chain.push(current.parent.clone());
        assert(chain.deep_view() =~= before.push(current@.parent));
        assert(chain.deep_view().drop_first() =~= before.drop_first() + seq![current@.parent]);
        proof {
            match parents_of(known@, next, (s - 1) as nat) {
                Ok(rest) => {
                    assert(before.drop_first() + (seq![current@.parent] + rest) =~= (
                    before.drop_first() + seq![current@.parent]) + rest);
                },
                Err(m) => {},
            }
        }
        current = known[i].copied();
        steps = steps + 1;
    }
    assert(parents_of(known@, current@, (total - steps) as nat) == Ok::<
        Seq<Seq<char>>,
        Seq<char>,
    >(Seq::<Seq<char>>::empty()));
    assert(chain.deep_view().drop_first() + Seq::<Seq<char>>::empty() =~= chain.deep_view().drop_first());
    assert(seq![checkpoint@.id] + chain.deep_view().drop_first() =~= chain.deep_view());
    let arrow = "->";
    let res = join_with(&chain, arrow);
    Ok(res)
}

/// Whether the local installation trusts a peer by default: it does not.
pub fn default_peer_trusted(app: &App) -> (res: bool)
    ensures
        !res,
{
    false
}

/// Whether a peer counts as trusted for a repository: as the caller says.
pub fn peer_trusted_for_repo(repo: &Repo, peer_trusted: bool) -> (res: bool)
    ensures
        res == peer_trusted,
{
    peer_trusted
}

/// Whether the repository's latest checkpoint may be pushed to a peer.
pub fn validate_checkpoint_for_sync(repo: &Repo, requires_approval: bool, peer_trusted: bool) -> (res: Result<
    (),
    AppError,
>)
    ensures
        res is Ok <==> zone_decision(
            repo.trust_zone@,
            RepoAction::SyncPush,
            requires_approval,
            peer_trusted,
        ) == Some(AuthDecision::Allow),
        match crate::zones::refusal(
            repo.name@,
            repo.trust_zone@,
            RepoAction::SyncPush,
            requires_approval,
            peer_trusted,
        ) {
            Some(m) => res matches Err(e) && e@ == m,
            None => res is Ok,
        },
{
    enforce_repo_action(repo, RepoAction::SyncPush, requires_approval, peer_trusted)
}

} // verus!
