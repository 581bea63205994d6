//! Retention: which checkpoints of a repository a policy keeps and which it
//! removes.
use vstd::prelude::*;

use crate::kv::KvRecord;
use crate::layout::{mirror_path, path_join};
use crate::models::{Checkpoint, CheckpointView, Policy, PolicyView, Repo, RepoView, Vault};
use crate::sorting::views_of;
use crate::sync::{GitCommand, GitCommandView};
use crate::vault::{checkpoint_path, repo_fields, write_repo};
use crate::text::{copy_str, parse_unsigned, parse_unsigned_exec, same_text};
use crate::util::{contains_csv, csv_entries};

verus! {

/// The ids of the removed and of the kept checkpoints, each in order.
#[derive(Debug)]
pub struct PruneReport {
    pub removed: Vec<String>,
    pub kept: Vec<String>,
}

/// The views of the checkpoints, in order.
pub open spec fn views(cps: Seq<Checkpoint>) -> Seq<CheckpointView>
    decreases cps.len(),
{
    if cps.len() == 0 {
        Seq::<CheckpointView>::empty()
    } else {
        views(cps.drop_last()).push(cps.last()@)
    }
}

/// The ids of `cps`, in order.
pub open spec fn ids_of(cps: Seq<CheckpointView>) -> Seq<Seq<char>>
    decreases cps.len(),
{
    if cps.len() == 0 {
        Seq::<Seq<char>>::empty()
    } else {
        ids_of(cps.drop_last()).push(cps.last().id)
    }
}

/// The elements of `cps` that `p` holds of, in order.
pub open spec fn keep_if(cps: Seq<CheckpointView>, p: spec_fn(CheckpointView) -> bool) -> Seq<CheckpointView>
    decreases cps.len(),
{
    if cps.len() == 0 {
        Seq::<CheckpointView>::empty()
    } else if p(cps.last()) {
        keep_if(cps.drop_last(), p).push(cps.last())
    } else {
        keep_if(cps.drop_last(), p)
    }
}

/// How often `x` occurs in `s`.
pub open spec fn count_in(s: Seq<Seq<char>>, x: Seq<char>) -> nat
    decreases s.len(),
{
    if s.len() == 0 {
        0
    } else {
        count_in(s.drop_last(), x) + if s.last() == x {
            1nat
        } else {
            0nat
        }
    }
}

/// A checkpoint listed as protected by the policy.
pub open spec fn is_protected(prot: Seq<char>) -> spec_fn(CheckpointView) -> bool {
    |c: CheckpointView| csv_entries(prot).contains(c.id)
}

pub open spec fn not_protected(prot: Seq<char>) -> spec_fn(CheckpointView) -> bool {
    |c: CheckpointView| !csv_entries(prot).contains(c.id)
}

/// Whether a checkpoint is young enough to keep at time `now` when
/// checkpoints may be `max_age` days old; one whose creation time is not a
/// number is kept.
pub open spec fn age_ok(c: CheckpointView, now: u64, max_age: u64) -> bool {
    match parse_unsigned(c.created_at, u64::MAX as int) {
        Some(t) => (if now >= t {
            now - t
        } else {
            0
        }) <= max_age * 86400,
        None => true,
    }
}

pub open spec fn young(now: u64, max_age: u64) -> spec_fn(CheckpointView) -> bool {
    |c: CheckpointView| age_ok(c, now, max_age)
}

pub open spec fn too_old(now: u64, max_age: u64) -> spec_fn(CheckpointView) -> bool {
    |c: CheckpointView| !age_ok(c, now, max_age)
}

/// The number of checkpoints to keep: the one given, else the policy's if it
/// is a positive number.
pub open spec fn max_keep_of(keep: Option<usize>, policy: PolicyView) -> Option<int> {
    match keep {
        Some(k) => Some(k as int),
        None => match parse_unsigned(policy.retention_max_checkpoints, usize::MAX as int) {
            Some(v) => if v > 0 {
                Some(v)
            } else {
                None
            },
            None => None,
        },
    }
}

/// The age in days beyond which checkpoints go: the one given, else the
/// policy's if it is a positive number.
pub open spec fn max_age_of(older_than_days: Option<u64>, policy: PolicyView) -> Option<int> {
    match older_than_days {
        Some(d) => Some(d as int),
        None => match parse_unsigned(policy.retention_max_age_days, u64::MAX as int) {
            Some(v) => if v > 0 {
                Some(v)
            } else {
                None
            },
            None => None,
        },
    }
}

/// The unprotected checkpoints that survive the age limit.
pub open spec fn after_age(cps: Seq<CheckpointView>, policy: PolicyView, older_than_days: Option<u64>, now: u64) -> Seq<CheckpointView> {
    let rest = keep_if(cps, not_protected(policy.protected_checkpoint_ids));
    match max_age_of(older_than_days, policy) {
        Some(a) => keep_if(rest, young(now, a as u64)),
        None => rest,
    }
}

/// How many of the survivors of the age limit the count limit removes.
pub open spec fn over_count(
    cps: Seq<CheckpointView>,
    policy: PolicyView,
    keep: Option<usize>,
    older_than_days: Option<u64>,
    now: u64,
) -> int {
    let survivors = after_age(cps, policy, older_than_days, now);
    match max_keep_of(keep, policy) {
        Some(k) => if survivors.len() > k {
            survivors.len() - k
        } else {
            0
        },
        None => 0,
    }
}

/// The ids that pruning removes: first those too old, then the oldest
/// survivors beyond the count limit.
pub open spec fn pruned_ids(
    cps: Seq<CheckpointView>,
    policy: PolicyView,
    keep: Option<usize>,
    older_than_days: Option<u64>,
    now: u64,
) -> Seq<Seq<char>> {
    let rest = keep_if(cps, not_protected(policy.protected_checkpoint_ids));
    let by_age = match max_age_of(older_than_days, policy) {
        Some(a) => ids_of(keep_if(rest, too_old(now, a as u64))),
        None => Seq::<Seq<char>>::empty(),
    };
    let survivors = after_age(cps, policy, older_than_days, now);
    by_age + ids_of(survivors.take(over_count(cps, policy, keep, older_than_days, now)))
}

/// The ids that pruning keeps: first the protected ones, then the surviving
/// ones, each in order.
pub open spec fn retained_ids(
    cps: Seq<CheckpointView>,
    policy: PolicyView,
    keep: Option<usize>,
    older_than_days: Option<u64>,
    now: u64,
) -> Seq<Seq<char>> {
    let survivors = after_age(cps, policy, older_than_days, now);
    ids_of(keep_if(cps, is_protected(policy.protected_checkpoint_ids))) + ids_of(
        survivors.skip(over_count(cps, policy, keep, older_than_days, now)),
    )
}

proof fn lemma_ids_push(s: Seq<CheckpointView>, c: CheckpointView)
    ensures
        ids_of(s.push(c)) == ids_of(s).push(c.id),
{
    assert(s.push(c).drop_last() =~= s);
}

proof fn lemma_count_push(s: Seq<Seq<char>>, y: Seq<char>, x: Seq<char>)
    ensures
        count_in(s.push(y), x) == count_in(s, x) + if y == x {
            1nat
        } else {
            0nat
        },
{
    assert(s.push(y).drop_last() =~= s);
}

proof fn lemma_ids_len(cps: Seq<CheckpointView>)
    ensures
        ids_of(cps).len() == cps.len(),
        forall|i: int| 0 <= i < cps.len() ==> #[trigger] ids_of(cps)[i] == cps[i].id,
    decreases cps.len(),
{
    if cps.len() > 0 {
        lemma_ids_len(cps.drop_last());
    }
}

proof fn lemma_keep_if_ids_contains(cps: Seq<CheckpointView>, prot: Seq<char>, x: Seq<char>)
    ensures
        ids_of(keep_if(cps, is_protected(prot))).contains(x) <==> (csv_entries(prot).contains(x)
            && ids_of(cps).contains(x)),
    decreases cps.len(),
{
    if cps.len() > 0 {
        let q = cps.drop_last();
        lemma_keep_if_ids_contains(q, prot, x);
        let c = cps.last();
        let kq = ids_of(keep_if(q, is_protected(prot)));
        lemma_ids_push(q, c);
        assert(q.push(c) =~= cps);
        assert(ids_of(cps) == ids_of(q).push(c.id));
        if is_protected(prot)(c) {
            lemma_ids_push(keep_if(q, is_protected(prot)), c);
            assert(ids_of(keep_if(cps, is_protected(prot))) == kq.push(c.id));
            assert(kq.push(c.id).contains(x) <==> (kq.contains(x) || c.id == x)) by {
                if kq.push(c.id).contains(x) {
                    let k = choose|k: int| 0 <= k < kq.len() + 1 && kq.push(c.id)[k] == x;
                    if k < kq.len() {
                        assert(kq[k] == x);
                    }
                }
                if kq.contains(x) {
                    let k = choose|k: int| 0 <= k < kq.len() && kq[k] == x;
                    assert(kq.push(c.id)[k] == x);
                }
                if c.id == x {
                    assert(kq.push(c.id)[kq.len() as int] == x);
                }
            }
        }
        let iq = ids_of(q);
        assert(iq.push(c.id).contains(x) <==> (iq.contains(x) || c.id == x)) by {
            if iq.push(c.id).contains(x) {
                let k = choose|k: int| 0 <= k < iq.len() + 1 && iq.push(c.id)[k] == x;
                if k < iq.len() {
                    assert(iq[k] == x);
                }
            }
            if iq.contains(x) {
                let k = choose|k: int| 0 <= k < iq.len() && iq[k] == x;
                assert(iq.push(c.id)[k] == x);
            }
            if c.id == x {
                assert(iq.push(c.id)[iq.len() as int] == x);
            }
        }
    }
}

proof fn lemma_count_concat(a: Seq<Seq<char>>, b: Seq<Seq<char>>, x: Seq<char>)
    ensures
        count_in(a + b, x) == count_in(a, x) + count_in(b, x),
    decreases b.len(),
{
    if b.len() == 0 {
        assert(a + b =~= a);
    } else {
        lemma_count_concat(a, b.drop_last(), x);
        assert((a + b).drop_last() =~= a + b.drop_last());
        assert((a + b).last() == b.last());
    }
}

proof fn lemma_count_partition(cps: Seq<CheckpointView>, p: spec_fn(CheckpointView) -> bool, q: spec_fn(CheckpointView) -> bool, x: Seq<char>)
    requires
        forall|c: CheckpointView| #[trigger] p(c) == !q(c),
    ensures
        count_in(ids_of(keep_if(cps, p)), x) + count_in(ids_of(keep_if(cps, q)), x) == count_in(
            ids_of(cps),
            x,
        ),
    decreases cps.len(),
{
    if cps.len() > 0 {
        let r = cps.drop_last();
        let c = cps.last();
        lemma_count_partition(r, p, q, x);
        lemma_ids_push(r, c);
        lemma_ids_push(keep_if(r, p), c);
        lemma_ids_push(keep_if(r, q), c);
        lemma_count_push(ids_of(r), c.id, x);
        lemma_count_push(ids_of(keep_if(r, p)), c.id, x);
        lemma_count_push(ids_of(keep_if(r, q)), c.id, x);
        assert(r.push(c) =~= cps);
    }
}

proof fn lemma_count_take_skip(cps: Seq<CheckpointView>, n: int, x: Seq<char>)
    requires
        0 <= n <= cps.len(),
    ensures
        count_in(ids_of(cps.take(n)), x) + count_in(ids_of(cps.skip(n)), x) == count_in(
            ids_of(cps),
            x,
        ),
{
    lemma_ids_concat(cps.take(n), cps.skip(n));
    assert(cps.take(n) + cps.skip(n) =~= cps);
    lemma_count_concat(ids_of(cps.take(n)), ids_of(cps.skip(n)), x);
}

proof fn lemma_ids_concat(a: Seq<CheckpointView>, b: Seq<CheckpointView>)
    ensures
        ids_of(a + b) == ids_of(a) + ids_of(b),
    decreases b.len(),
{
    if b.len() == 0 {
        assert(a + b =~= a);
        assert(ids_of(a) + ids_of(b) =~= ids_of(a));
    } else {
        lemma_ids_concat(a, b.drop_last());
        assert((a + b).drop_last() =~= a + b.drop_last());
        assert((a + b).last() == b.last());
        assert(ids_of(a) + ids_of(b) =~= (ids_of(a) + ids_of(b.drop_last())).push(b.last().id));
    }
}

/// Pruning loses no checkpoint and invents none: every id occurs as often
/// among the removed and kept ids together as among the checkpoints.
pub proof fn lemma_prune_partitions(
    cps: Seq<CheckpointView>,
    policy: PolicyView,
    keep: Option<usize>,
    older_than_days: Option<u64>,
    now: u64,
    x: Seq<char>,
)
    ensures
        count_in(pruned_ids(cps, policy, keep, older_than_days, now), x) + count_in(
            retained_ids(cps, policy, keep, older_than_days, now),
            x,
        ) == count_in(ids_of(cps), x),
{
    let prot = policy.protected_checkpoint_ids;
    let rest = keep_if(cps, not_protected(prot));
    let survivors = after_age(cps, policy, older_than_days, now);
    let n = over_count(cps, policy, keep, older_than_days, now);
    let by_age = match max_age_of(older_than_days, policy) {
        Some(a) => ids_of(keep_if(rest, too_old(now, a as u64))),
        None => Seq::<Seq<char>>::empty(),
    };
    lemma_count_partition(cps, is_protected(prot), not_protected(prot), x);
    match max_age_of(older_than_days, policy) {
        Some(a) => {
            lemma_count_partition(rest, too_old(now, a as u64), young(now, a as u64), x);
        },
        None => {},
    }
    lemma_ids_len(survivors);
    assert(0 <= n <= survivors.len());
    lemma_count_take_skip(survivors, n, x);
    lemma_count_concat(by_age, ids_of(survivors.take(n)), x);
    lemma_count_concat(ids_of(keep_if(cps, is_protected(prot))), ids_of(survivors.skip(n)), x);
}

/// No protected checkpoint is removed.
pub proof fn lemma_protected_never_removed(
    cps: Seq<CheckpointView>,
    policy: PolicyView,
    keep: Option<usize>,
    older_than_days: Option<u64>,
    now: u64,
    x: Seq<char>,
)
    requires
        csv_entries(policy.protected_checkpoint_ids).contains(x),
    ensures
        count_in(pruned_ids(cps, policy, keep, older_than_days, now), x) == 0,
{
    let prot = policy.protected_checkpoint_ids;
    let rest = keep_if(cps, not_protected(prot));
    lemma_no_protected_left(cps, prot, x);
    let survivors = after_age(cps, policy, older_than_days, now);
    match max_age_of(older_than_days, policy) {
        Some(a) => {
            lemma_count_partition(rest, too_old(now, a as u64), young(now, a as u64), x);
        },
        None => {},
    }
    let n = over_count(cps, policy, keep, older_than_days, now);
    lemma_ids_len(survivors);
    lemma_count_take_skip(survivors, n, x);
    let by_age = match max_age_of(older_than_days, policy) {
        Some(a) => ids_of(keep_if(rest, too_old(now, a as u64))),
        None => Seq::<Seq<char>>::empty(),
    };
    lemma_count_concat(by_age, ids_of(survivors.take(n)), x);
}

proof fn lemma_no_protected_left(cps: Seq<CheckpointView>, prot: Seq<char>, x: Seq<char>)
    requires
        csv_entries(prot).contains(x),
    ensures
        count_in(ids_of(keep_if(cps, not_protected(prot))), x) == 0,
    decreases cps.len(),
{
    if cps.len() > 0 {
        let r = cps.drop_last();
        let c = cps.last();
        lemma_no_protected_left(r, prot, x);
        lemma_ids_push(keep_if(r, not_protected(prot)), c);
        lemma_count_push(ids_of(keep_if(r, not_protected(prot))), c.id, x);
    }
}

/// With a count limit, no more unprotected checkpoints are kept than it
/// allows.
pub proof fn lemma_count_limit_respected(
    cps: Seq<CheckpointView>,
    policy: PolicyView,
    keep: Option<usize>,
    older_than_days: Option<u64>,
    now: u64,
)
    requires
        max_keep_of(keep, policy) is Some,
    ensures
        after_age(cps, policy, older_than_days, now).skip(
            over_count(cps, policy, keep, older_than_days, now),
        ).len() <= max_keep_of(keep, policy)->Some_0,
{
}

/// A count limit given by the caller is the one applied: with `keep` given,
/// what pruning removes and keeps does not depend on the policy's own count
/// limit.
pub proof fn lemma_caller_keep_wins(
    cps: Seq<CheckpointView>,
    policy: PolicyView,
    other_limit: Seq<char>,
    keep: usize,
    older_than_days: Option<u64>,
    now: u64,
)
    ensures
        ({
            let other = PolicyView { retention_max_checkpoints: other_limit, ..policy };
            &&& pruned_ids(cps, policy, Some(keep), older_than_days, now) == pruned_ids(
                cps,
                other,
                Some(keep),
                older_than_days,
                now,
            )
            &&& retained_ids(cps, policy, Some(keep), older_than_days, now) == retained_ids(
                cps,
                other,
                Some(keep),
                older_than_days,
                now,
            )
        }),
{
    let other = PolicyView { retention_max_checkpoints: other_limit, ..policy };
    assert(after_age(cps, policy, older_than_days, now) == after_age(cps, other, older_than_days, now));
}

/// With a count limit `keep` given by the caller, pruning keeps every
/// protected checkpoint and exactly `keep` of the others that survive the
/// age limit (all of them when there are fewer), the newest ones.
pub proof fn lemma_caller_keep_count(
    cps: Seq<CheckpointView>,
    policy: PolicyView,
    keep: usize,
    older_than_days: Option<u64>,
    now: u64,
)
    ensures
        ({
            let survivors = after_age(cps, policy, older_than_days, now);
            let protected = keep_if(cps, is_protected(policy.protected_checkpoint_ids));
            let n = if survivors.len() > keep {
                keep as int
            } else {
                survivors.len() as int
            };
            &&& retained_ids(cps, policy, Some(keep), older_than_days, now) == ids_of(protected) + ids_of(
                survivors.subrange(survivors.len() - n, survivors.len() as int),
            )
            &&& retained_ids(cps, policy, Some(keep), older_than_days, now).len() == protected.len() + n
        }),
{
    let survivors = after_age(cps, policy, older_than_days, now);
    let protected = keep_if(cps, is_protected(policy.protected_checkpoint_ids));
    let n = if survivors.len() > keep {
        keep as int
    } else {
        survivors.len() as int
    };
    assert(survivors.skip(survivors.len() - n) =~= survivors.subrange(survivors.len() - n, survivors.len() as int));
    lemma_ids_len(protected);
    lemma_ids_len(survivors.skip(survivors.len() - n));
}

proof fn lemma_views_take(cps: Seq<Checkpoint>, i: int)
    requires
        0 <= i < cps.len(),
    ensures
        views(cps.take(i + 1)) == views(cps.take(i)).push(cps[i]@),
{
    assert(cps.take(i + 1).drop_last() =~= cps.take(i));
}

proof fn lemma_views_len(cps: Seq<Checkpoint>)
    ensures
        views(cps).len() == cps.len(),
        forall|i: int| 0 <= i < cps.len() ==> #[trigger] views(cps)[i] == cps[i]@,
    decreases cps.len(),
{
    if cps.len() > 0 {
        lemma_views_len(cps.drop_last());
    }
}

fn ids_vec(cps: &Vec<Checkpoint>) -> (res: Vec<String>)
    ensures
        res.deep_view() == ids_of(views(cps@)),
{
    let mut res: Vec<String> = Vec::new();
    let mut i: usize = 0;
    while i < cps.len()
        invariant
            i <= cps@.len(),
            res.deep_view() == ids_of(views(cps@.take(i as int))),
        decreases cps.len() - i,
    {
        proof {
            lemma_views_take(cps@, i as int);
            lemma_ids_push(views(cps@.take(i as int)), cps@[i as int]@);
        }
        let ghost prev = res.deep_view();
        res.push(cps[i].id.clone());
        assert(res.deep_view() =~= prev.push(cps@[i as int].id@));
        i = i + 1;
    }
    assert(cps@.take(cps@.len() as int) =~= cps@);
    res
}

fn contains_id(ids: &Vec<String>, id: &str) -> (res: bool)
    ensures
        res == ids.deep_view().contains(id@),
{
    let mut i: usize = 0;
    while i < ids.len()
        invariant
            i <= ids@.len(),
            forall|k: int| 0 <= k < i ==> ids.deep_view()[k] != id@,
        decreases ids.len() - i,
    {
        if same_text(ids[i].as_str(), id) {
            assert(ids.deep_view()[i as int] == id@);
            return true;
        }
        i = i + 1;
    }
    false
}

fn parse_positive(text: &str, max: u64) -> (res: Option<u64>)
    ensures
        res matches Some(v) ==> parse_unsigned(text@, max as int) == Some(v as int) && v > 0,
        res is None ==> !(parse_unsigned(text@, max as int) matches Some(v) && v > 0),
{
    match parse_unsigned_exec(text, max) {
        Some(v) => if v > 0 {
            Some(v)
        } else {
            None
        },
        None => None,
    }
}

/// Whether the age limit in days can be turned into seconds wherever it is
/// used: for every unprotected checkpoint whose creation time is a number.
pub open spec fn age_limit_fits(cps: Seq<CheckpointView>, policy: PolicyView, older_than_days: Option<u64>) -> bool {
    match max_age_of(older_than_days, policy) {
        Some(a) => a * 86400 <= u64::MAX || forall|k: int|
            0 <= k < cps.len() && !csv_entries(policy.protected_checkpoint_ids).contains(
                #[trigger] cps[k].id,
            ) ==> parse_unsigned(cps[k].created_at, u64::MAX as int) is None,
        None => true,
    }
}

/// What `keep_if` keeps satisfies the predicate and comes from the input.
proof fn lemma_keep_if_members(cps: Seq<CheckpointView>, p: spec_fn(CheckpointView) -> bool)
    ensures
        forall|k: int|
            0 <= k < keep_if(cps, p).len() ==> p(#[trigger] keep_if(cps, p)[k]) && exists|j: int|
                0 <= j < cps.len() && cps[j] == keep_if(cps, p)[k],
    decreases cps.len(),
{
    if cps.len() > 0 {
        let q = cps.drop_last();
        lemma_keep_if_members(q, p);
        let kq = keep_if(q, p);
        assert forall|k: int| 0 <= k < keep_if(cps, p).len() implies p(#[trigger] keep_if(cps, p)[k])
            && exists|j: int| 0 <= j < cps.len() && cps[j] == keep_if(cps, p)[k] by {
            if k < kq.len() {
                assert(keep_if(cps, p)[k] == kq[k]);
                let j = choose|j: int| 0 <= j < q.len() && q[j] == kq[k];
                assert(cps[j] == q[j]);
            } else {
                assert(keep_if(cps, p)[k] == cps.last());
                assert(cps[cps.len() - 1] == cps.last());
            }
        }
    }
}

/// Which checkpoints of a repository a policy keeps at time `now`, given
/// them in creation order: the protected ones stay; of the others, those
/// older than the age limit go, then the oldest beyond the count limit. A
/// limit given by the caller overrides the policy's.
pub fn prune_checkpoints(
    checkpoints: &Vec<Checkpoint>,
    policy: &Policy,
    keep: Option<usize>,
    older_than_days: Option<u64>,
    now: u64,
) -> (res: PruneReport)
    requires
        age_limit_fits(views(checkpoints@), policy@, older_than_days),
    ensures
        res.removed.deep_view() == pruned_ids(views(checkpoints@), policy@, keep, older_than_days, now),
        res.kept.deep_view() == retained_ids(views(checkpoints@), policy@, keep, older_than_days, now),
{
    let ghost cps = views(checkpoints@);
    let ghost prot = policy@.protected_checkpoint_ids;
    let max_keep: Option<usize> = match keep {
        Some(k) => Some(k),
        None => match parse_positive(policy.retention_max_checkpoints.as_str(), usize::MAX as u64) {
            Some(v) => Some(v as usize),
            None => None,
        },
    };
    let max_age: Option<u64> = match older_than_days {
        Some(d) => Some(d),
        None => parse_positive(policy.retention_max_age_days.as_str(), u64::MAX),
    };
    assert(max_keep matches Some(k) ==> max_keep_of(keep, policy@) == Some(k as int));
    assert(max_keep is None ==> max_keep_of(keep, policy@) is None);
    assert(max_age matches Some(a) ==> max_age_of(older_than_days, policy@) == Some(a as int));
    assert(max_age is None ==> max_age_of(older_than_days, policy@) is None);
    proof {
        lemma_views_len(checkpoints@);
    }

    // protected checkpoints stay
    let mut protected_cps: Vec<Checkpoint> = Vec::new();
    let mut i: usize = 0;
    while i < checkpoints.len()
        invariant
            cps == views(checkpoints@),
            cps.len() == checkpoints@.len(),
            forall|k: int| 0 <= k < cps.len() ==> #[trigger] cps[k] == checkpoints@[k]@,
            prot == policy@.protected_checkpoint_ids,
            i <= cps.len(),
            views(protected_cps@) == keep_if(cps.take(i as int), is_protected(prot)),
        decreases checkpoints.len() - i,
    {
        assert(cps.take(i + 1).drop_last() =~= cps.take(i as int));
        assert(cps.take(i + 1).last() == cps[i as int]);
        if contains_csv(policy.protected_checkpoint_ids.as_str(), checkpoints[i].id.as_str()) {
            let ghost before = protected_cps@;
            protected_cps.push(checkpoints[i].copied());
            assert(protected_cps@.drop_last() =~= before);
        }
        i = i + 1;
    }
    assert(cps.take(cps.len() as int) =~= cps);
    let kept_protected = ids_vec(&protected_cps);

    // the others, in order
    let mut rest: Vec<Checkpoint> = Vec::new();
    let mut i: usize = 0;
    while i < checkpoints.len()
        invariant
            cps == views(checkpoints@),
            cps.len() == checkpoints@.len(),
            forall|k: int| 0 <= k < cps.len() ==> #[trigger] cps[k] == checkpoints@[k]@,
            prot == policy@.protected_checkpoint_ids,
            i <= cps.len(),
            kept_protected.deep_view() == ids_of(keep_if(cps, is_protected(prot))),
            views(rest@) == keep_if(cps.take(i as int), not_protected(prot)),
        decreases checkpoints.len() - i,
    {
        assert(cps.take(i + 1).drop_last() =~= cps.take(i as int));
        assert(cps.take(i + 1).last() == cps[i as int]);
        proof {
            lemma_keep_if_ids_contains(cps, prot, cps[i as int].id);
            lemma_ids_len(cps);
            assert(ids_of(cps)[i as int] == cps[i as int].id);
        }
        if !contains_id(&kept_protected, checkpoints[i].id.as_str()) {
            let ghost before = rest@;
            rest.push(checkpoints[i].copied());
            assert(rest@.drop_last() =~= before);
        }
        i = i + 1;
    }
    proof {
        lemma_views_len(rest@);
    }
    let mut removed: Vec<String> = Vec::new();
    let mut survivors: Vec<Checkpoint> = Vec::new();
    let ghost rv = views(rest@);
    match max_age {
        Some(a) => {
            let limit: Option<u64> = a.checked_mul(86400);
            proof {
                lemma_keep_if_members(cps, not_protected(prot));
                if limit is None {
                    assert forall|k: int| 0 <= k < rv.len() implies parse_unsigned(
                        #[trigger] rv[k].created_at,
                        u64::MAX as int,
                    ) is None by {
                        assert(not_protected(prot)(rv[k]));
                        let j = choose|j: int| 0 <= j < cps.len() && cps[j] == rv[k];
                        assert(!csv_entries(prot).contains(cps[j].id));
                    }
                }
            }
            let mut i: usize = 0;
            while i < rest.len()
                invariant
                    rv == views(rest@),
                    rv.len() == rest@.len(),
                    forall|k: int| 0 <= k < rv.len() ==> #[trigger] rv[k] == rest@[k]@,
                    i <= rest@.len(),
                    limit matches Some(l) ==> l == a * 86400,
                    limit is None ==> forall|k: int| 0 <= k < rv.len() ==> parse_unsigned(
                        #[trigger] rv[k].created_at,
                        u64::MAX as int,
                    ) is None,
                    removed.deep_view() == ids_of(keep_if(rv.take(i as int), too_old(now, a))),
                    views(survivors@) == keep_if(rv.take(i as int), young(now, a)),
                decreases rest.len() - i,
            {
                assert(rv.take(i + 1).drop_last() =~= rv.take(i as int));
                assert(rv.take(i + 1).last() == rv[i as int]);
                let ok = match parse_unsigned_exec(rest[i].created_at.as_str(), u64::MAX) {
                    Some(created) => {
                        let age = if now >= created {
                            now - created
                        } else {
                            0
                        };
                        match limit {
                            Some(l) => age <= l,
                            None => {
                                assert(rv[i as int].created_at == rest@[i as int].created_at@);
                                true
                            },
                        }
                    },
                    None => true,
                };
                assert(ok == age_ok(rv[i as int], now, a));
                proof {
                    lemma_ids_push(keep_if(rv.take(i as int), too_old(now, a)), rv[i as int]);
                }
                if !ok {
                    let ghost prev = removed.deep_view();
                    removed.push(rest[i].id.clone());
                    assert(removed.deep_view() =~= prev.push(rv[i as int].id));
                } else {
                    let ghost before = survivors@;
                    survivors.push(rest[i].copied());
                    assert(survivors@.drop_last() =~= before);
                }
                i = i + 1;
            }
            assert(rv.take(rv.len() as int) =~= rv);
        },
        None => {
            survivors = rest;
        },
    }
    let ghost sv = views(survivors@);
    proof {
        lemma_views_len(survivors@);
    }
    assert(sv == after_age(cps, policy@, older_than_days, now));
    let ghost by_age = removed.deep_view();
    let mut n: usize = 0;
    match max_keep {
        Some(k) => {
            if survivors.len() > k {
                n = survivors.len() - k;
            }
        },
        None => {},
    }
    assert(n == over_count(cps, policy@, keep, older_than_days, now));
    let mut j: usize = 0;
    while j < n
        invariant
            sv == views(survivors@),
            sv.len() == survivors@.len(),
            forall|k: int| 0 <= k < sv.len() ==> #[trigger] sv[k] == survivors@[k]@,
            n <= survivors@.len(),
            j <= n,
            removed.deep_view() == by_age + ids_of(sv.take(j as int)),
        decreases n - j,
    {
        assert(sv.take(j + 1).drop_last() =~= sv.take(j as int));
        proof {
            lemma_ids_push(sv.take(j as int), sv[j as int]);
            assert(sv.take(j as int).push(sv[j as int]) =~= sv.take(j + 1));
        }
        let ghost prev = removed.deep_view();
        removed.push(survivors[j].id.clone());
        assert(removed.deep_view() =~= prev.push(sv[j as int].id));
        assert(by_age + ids_of(sv.take(j + 1)) =~= (by_age + ids_of(sv.take(j as int))).push(
            sv[j as int].id,
        ));
        j = j + 1;
    }
    let mut kept = kept_protected;
    let mut j: usize = n;
    let ghost base = kept.deep_view();
    while j < survivors.len()
        invariant
            sv == views(survivors@),
            sv.len() == survivors@.len(),
            forall|k: int| 0 <= k < sv.len() ==> #[trigger] sv[k] == survivors@[k]@,
            n <= j <= survivors@.len(),
            kept.deep_view() == base + ids_of(sv.subrange(n as int, j as int)),
        decreases survivors.len() - j,
    {
        assert(sv.subrange(n as int, j + 1).drop_last() =~= sv.subrange(n as int, j as int));
        proof {
            lemma_ids_push(sv.subrange(n as int, j as int), sv[j as int]);
            assert(sv.subrange(n as int, j as int).push(sv[j as int]) =~= sv.subrange(n as int, j + 1));
        }
        let ghost prev = kept.deep_view();
        kept.push(survivors[j].id.clone());
        assert(kept.deep_view() =~= prev.push(sv[j as int].id));
        assert(base + ids_of(sv.subrange(n as int, j + 1)) =~= (base + ids_of(
            sv.subrange(n as int, j as int),
        )).push(sv[j as int].id));
        j = j + 1;
    }
    assert(sv.subrange(n as int, sv.len() as int) =~= sv.skip(n as int));
    PruneReport { removed, kept }
}

/// The retention that a checkpoint triggers: pruning with the policy's own
/// limits.
pub fn enforce_retention(checkpoints: &Vec<Checkpoint>, policy: &Policy, now: u64) -> (res: PruneReport)
    requires
        age_limit_fits(views(checkpoints@), policy@, None),
    ensures
        res.removed.deep_view() == pruned_ids(views(checkpoints@), policy@, None, None, now),
        res.kept.deep_view() == retained_ids(views(checkpoints@), policy@, None, None, now),
{
    prune_checkpoints(checkpoints, policy, None, None, now)
}

// ---------------------------------------------------------------------------
// Carrying out a prune
// ---------------------------------------------------------------------------

/// What carrying out a prune changes in a vault.
pub struct PrunePlan {
    /// The checkpoint records to remove, each where it exists.
    pub remove: Vec<String>,
    /// The git commands, run in the mirror where it exists, that drop the
    /// refs of the removed checkpoints; their failures are ignored.
    pub drop_refs: Vec<GitCommand>,
    /// The repository record to write, with the last kept checkpoint as the
    /// latest one; none when nothing is kept.
    pub repo_update: Option<KvRecord>,
}

/// The record of checkpoint `id` in the vault at `vault_path`.
pub open spec fn checkpoint_record_path(vault_path: Seq<char>, id: Seq<char>) -> Seq<char> {
    path_join(path_join(path_join(vault_path, "metadata"@), "checkpoints"@), id)
}

/// The git command that drops the ref of checkpoint `id` from `mirror`.
pub open spec fn drop_ref_command(mirror: Seq<char>, id: Seq<char>) -> GitCommandView {
    GitCommandView {
        args: seq!["update-ref"@, "-d"@, "refs/gitp2p/checkpoints/"@ + id],
        cwd: Some(mirror),
    }
}

fn drop_ref(mirror: &str, id: &str) -> (res: GitCommand)
    ensures
        res@ == drop_ref_command(mirror@, id@),
{
    let mut name = copy_str("refs/gitp2p/checkpoints/");
    name.append(id);
    let args = vec![copy_str("update-ref"), copy_str("-d"), name];
    assert(args.deep_view() =~= seq!["update-ref"@, "-d"@, "refs/gitp2p/checkpoints/"@ + id@]);
    GitCommand { args, cwd: Some(copy_str(mirror)) }
}

/// What carrying out `report` for `repo` in `vault` changes: nothing on a
/// dry run; else the records and mirror refs of the removed checkpoints go,
/// and the repository's latest checkpoint becomes the last one kept.
pub fn prune_plan(vault: &Vault, repo: &Repo, report: &PruneReport, dry_run: bool) -> (res: PrunePlan)
    ensures
        dry_run ==> res.remove@.len() == 0 && res.drop_refs@.len() == 0 && res.repo_update is None,
        !dry_run ==> {
            let removed = report.removed.deep_view();
            let kept = report.kept.deep_view();
            let mirror = path_join(path_join(vault.path@, "repositories"@), repo.id@ + ".git"@);
            &&& res.remove.deep_view() == Seq::new(
                removed.len(),
                |i: int| checkpoint_record_path(vault.path@, removed[i]),
            )
            &&& views_of(res.drop_refs@) == Seq::new(
                removed.len(),
                |i: int| drop_ref_command(mirror, removed[i]),
            )
            &&& kept.len() == 0 ==> res.repo_update is None
            &&& kept.len() > 0 ==> (res.repo_update matches Some(r) && r.path@ == path_join(
                path_join(path_join(vault.path@, "metadata"@), "repos"@),
                repo.id@,
            ) && r.fields.deep_view() == repo_fields(RepoView { latest_checkpoint: kept.last(), ..repo@ }))
        },
{
    let mut remove: Vec<String> = Vec::new();
    let mut drop_refs: Vec<GitCommand> = Vec::new();
    if dry_run {
        return PrunePlan { remove, drop_refs, repo_update: None };
    }
    let mirror = mirror_path(vault, repo);
    let ghost removed = report.removed.deep_view();
    let mut i: usize = 0;
    while i < report.removed.len()
        invariant
            i <= report.removed@.len(),
            removed == report.removed.deep_view(),
            mirror@ == path_join(path_join(vault.path@, "repositories"@), repo.id@ + ".git"@),
            remove.deep_view() == Seq::new(i as nat, |k: int| checkpoint_record_path(vault.path@, removed[k])),
            views_of(drop_refs@) == Seq::new(i as nat, |k: int| drop_ref_command(mirror@, removed[k])),
        decreases report.removed.len() - i,
    {
        let id = report.removed[i].as_str();
        let path = checkpoint_path(vault, id);
        let command = drop_ref(mirror.as_str(), id);
        let ghost before_remove = remove.deep_view();
        let ghost before_refs = views_of(drop_refs@);
        remove.push(path);
        drop_refs.push(command);
        assert(remove.deep_view() =~= before_remove.push(checkpoint_record_path(vault.path@, removed[i as int])));
        assert(views_of(drop_refs@) =~= before_refs.push(drop_ref_command(mirror@, removed[i as int])));
        assert(remove.deep_view() =~= Seq::new((i + 1) as nat, |k: int| checkpoint_record_path(vault.path@, removed[k])));
        assert(views_of(drop_refs@) =~= Seq::new((i + 1) as nat, |k: int| drop_ref_command(mirror@, removed[k])));
        i = i + 1;
    }
    let n = report.kept.len();
    let repo_update = if n == 0 {
        None
    } else {
        let mut updated = repo.copied();
        updated.latest_checkpoint = copy_str(report.kept[n - 1].as_str());
        assert(updated@ == (RepoView { latest_checkpoint: report.kept.deep_view().last(), ..repo@ }));
        Some(write_repo(vault, &updated))
    };
    PrunePlan { remove, drop_refs, repo_update }
}

} // verus!
