//! Reconciling an imported checkpoint with the repository already known:
//! fast-forward when nothing diverges, a delayed merge otherwise.
use vstd::prelude::*;

use crate::error::AppError;
use crate::kv::{kv_pair, KvRecord};
use crate::layout::path_join;
use crate::models::{Repo, RepoView, Vault};
use crate::text::{copy_str, join_seq, join_with, same_text};

verus! {

/// What reconciling an import decided.
#[derive(Clone, Debug)]
pub struct ReconciliationReport {
    pub action: String,
    pub conflicts: Vec<String>,
    pub merged_checkpoint: String,
}

/// The message that reports a diverging checkpoint.
pub open spec fn divergence_message(local: Seq<char>, incoming: Seq<char>) -> Seq<char> {
    "checkpoint divergence: local="@ + local + " incoming="@ + incoming
}

/// The conflicts between the known repository and an incoming checkpoint:
/// one when the repository has a latest checkpoint that differs from it.
pub open spec fn import_conflicts(existing: Option<RepoView>, incoming: Seq<char>) -> Seq<Seq<char>> {
    match existing {
        Some(r) => if r.latest_checkpoint.len() > 0 && r.latest_checkpoint != incoming {
            seq![divergence_message(r.latest_checkpoint, incoming)]
        } else {
            Seq::<Seq<char>>::empty()
        },
        None => Seq::<Seq<char>>::empty(),
    }
}

/// Reconciles the import of the checkpoint `incoming_checkpoint` with the
/// repository already known, if any: a fast-forward without conflicts, a
/// delayed merge with them. The incoming checkpoint is always the merged one.
pub fn reconcile_import(existing: Option<&Repo>, incoming_checkpoint: &str) -> (res: Result<
    ReconciliationReport,
    AppError,
>)
    ensures
        res matches Ok(r) && r.conflicts.deep_view() == import_conflicts(
            match existing {
                Some(e) => Some(e@),
                None => None,
            },
            incoming_checkpoint@,
        ) && r.merged_checkpoint@ == incoming_checkpoint@ && r.action@ == (if r.conflicts@.len()
            == 0 {
            "fast-forward"@
        } else {
            "delayed-merge"@
        }),
{
    let mut conflicts: Vec<String> = Vec::new();
    if let Some(repo) = existing {
        if !repo.latest_checkpoint.as_str().is_empty() && !same_text(
            repo.latest_checkpoint.as_str(),
            incoming_checkpoint,
        ) {
            let mut msg = copy_str("checkpoint divergence: local=");
            msg.append(repo.latest_checkpoint.as_str());
            msg.append(" incoming=");
            msg.append(incoming_checkpoint);
            conflicts.push(msg);
        }
    }
    assert(conflicts.deep_view() =~= import_conflicts(
        match existing {
            Some(e) => Some(e@),
            None => None,
        },
        incoming_checkpoint@,
    ));
    let action = if conflicts.len() == 0 {
        copy_str("fast-forward")
    } else {
        copy_str("delayed-merge")
    };
    Ok(ReconciliationReport { action, conflicts, merged_checkpoint: copy_str(incoming_checkpoint) })
}

/// The report of a manifest that was read and verified: nothing to merge,
/// its checkpoint validated.
pub fn validated_report(manifest_checkpoint: &str) -> (res: ReconciliationReport)
    ensures
        res.action@ == "validated"@,
        res.conflicts@.len() == 0,
        res.merged_checkpoint@ == manifest_checkpoint@,
{
    ReconciliationReport {
        action: copy_str("validated"),
        conflicts: Vec::new(),
        merged_checkpoint: copy_str(manifest_checkpoint),
    }
}

/// The record that keeps a reconciliation of `repo_id` in a vault, written
/// at `updated_at`; the conflicts are joined with commas.
pub fn record_reconciliation(
    vault: &Vault,
    repo_id: &str,
    report: &ReconciliationReport,
    updated_at: &str,
) -> (res: KvRecord)
    ensures
        res.path@ == path_join(path_join(vault.path@, "replication"@), "recon-"@ + repo_id@),
        res.fields.deep_view() == seq![
            ("repo_id"@, repo_id@),
            ("action"@, report.action@),
            ("merged_checkpoint"@, report.merged_checkpoint@),
            ("conflicts"@, join_seq(report.conflicts.deep_view(), ","@)),
            ("updated_at"@, updated_at@),
        ],
{
    let mut name = copy_str("recon-");
    name.append(repo_id);
    let dir = crate::layout::join_path(vault.path.as_str(), "replication");
    let path = crate::layout::join_path(dir.as_str(), name.as_str());
    let conflicts = join_with(&report.conflicts, ",");
    let fields = vec![
        kv_pair("repo_id", repo_id),
        kv_pair("action", report.action.as_str()),
        kv_pair("merged_checkpoint", report.merged_checkpoint.as_str()),
        kv_pair("conflicts", conflicts.as_str()),
        kv_pair("updated_at", updated_at),
    ];
    assert(fields.deep_view() =~= seq![
        ("repo_id"@, repo_id@),
        ("action"@, report.action@),
        ("merged_checkpoint"@, report.merged_checkpoint@),
        ("conflicts"@, join_seq(report.conflicts.deep_view(), ","@)),
        ("updated_at"@, updated_at@),
    ]);
    KvRecord { path, fields }
}

} // verus!
