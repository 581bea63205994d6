//! Vault and repository policies: defaults, overrides, peer admission and
//! approval of zones.
use vstd::prelude::*;

use crate::error::AppError;
use crate::kv::{kv_pair, optional_field, stored_or_empty, KvFields, KvRecord};
use crate::layout::{join2, join3, path_join};
use crate::models::{policy_fields, Policy, PolicyView, Vault};
use crate::text::{copy_str, same_text};
use crate::util::{contains_csv, csv_entries};

verus! {

/// The zones that need approval unless a policy says otherwise.
pub open spec fn default_approval_zones() -> Seq<char> {
    "protected,experimental,ai-generated"@
}

/// The policy that holds when none is stored: approval for the protected,
/// experimental and ai-generated zones, nothing else set.
pub fn default_policy() -> (res: Policy)
    ensures
        res@ == default_policy_view(),
{
    let mut p = Policy::empty();
    p.require_approval_for_zones = copy_str("protected,experimental,ai-generated");
    p
}

/// The policy that a stored record gives; fields it lacks are empty.
pub open spec fn policy_from_record(fields: Seq<(Seq<char>, Seq<char>)>) -> PolicyView {
    PolicyView {
        require_approval_for_zones: stored_or_empty(fields, "require_approval_for_zones"@),
        allowed_peer_ids: stored_or_empty(fields, "allowed_peer_ids"@),
        blocked_peer_ids: stored_or_empty(fields, "blocked_peer_ids"@),
        retention_max_checkpoints: stored_or_empty(fields, "retention_max_checkpoints"@),
        retention_max_age_days: stored_or_empty(fields, "retention_max_age_days"@),
        protected_checkpoint_ids: stored_or_empty(fields, "protected_checkpoint_ids"@),
    }
}

/// The policy held by a policy file: the default when there is no file,
/// otherwise what its record gives.
pub fn load_policy(stored: Option<&KvFields>) -> (res: Policy)
    ensures
        match stored {
            None => res@ == default_policy_view(),
            Some(fields) => res@ == policy_from_record(fields.deep_view()),
        },
{
    match stored {
        None => default_policy(),
        Some(map) => Policy {
            require_approval_for_zones: optional_field(map, "require_approval_for_zones"),
            allowed_peer_ids: optional_field(map, "allowed_peer_ids"),
            blocked_peer_ids: optional_field(map, "blocked_peer_ids"),
            retention_max_checkpoints: optional_field(map, "retention_max_checkpoints"),
            retention_max_age_days: optional_field(map, "retention_max_age_days"),
            protected_checkpoint_ids: optional_field(map, "protected_checkpoint_ids"),
        },
    }
}

pub open spec fn default_policy_view() -> PolicyView {
    PolicyView {
        require_approval_for_zones: default_approval_zones(),
        allowed_peer_ids: Seq::<char>::empty(),
        blocked_peer_ids: Seq::<char>::empty(),
        retention_max_checkpoints: Seq::<char>::empty(),
        retention_max_age_days: Seq::<char>::empty(),
        protected_checkpoint_ids: Seq::<char>::empty(),
    }
}

/// The record that stores a policy: its fields in order.
pub fn policy_record(policy: &Policy) -> (res: KvFields)
    ensures
        res.deep_view() == policy_fields(policy@),
{
    let fields = policy.fields();
    let mut res: KvFields = Vec::new();
    let mut i: usize = 0;
    while i < fields.len()
        invariant
            fields.deep_view() == policy_fields(policy@),
            i <= fields@.len(),
            res.deep_view() == fields.deep_view().take(i as int),
        decreases fields.len() - i,
    {
        let (k, v) = fields[i];
        let ghost prev = res.deep_view();
        let pair = kv_pair(k, v);
        assert(pair.deep_view() == fields.deep_view()[i as int]);
        res.push(pair);
        assert(res.deep_view() =~= prev.push(fields.deep_view()[i as int]));
        assert(fields.deep_view().take(i + 1) =~= fields.deep_view().take(i as int).push(
            fields.deep_view()[i as int],
        ));
        i = i + 1;
    }
    assert(fields.deep_view().take(fields@.len() as int) =~= fields.deep_view());
    res
}

/// The record that stores `policy` at `path`.
pub fn write_policy(path: &str, policy: &Policy) -> (res: KvRecord)
    ensures
        res.path@ == path@,
        res.fields.deep_view() == policy_fields(policy@),
{
    KvRecord { path: copy_str(path), fields: policy_record(policy) }
}

/// The file of a vault's own policy.
pub fn vault_policy_path(vault: &Vault) -> (res: String)
    ensures
        res@ == path_join(path_join(vault.path@, "policies"@), "default.policy"@),
{
    join2(vault.path.as_str(), "policies", "default.policy")
}

/// The file of a repository's policy override.
pub fn repo_policy_path(vault: &Vault, repo_id: &str) -> (res: String)
    ensures
        res@ == path_join(
            path_join(path_join(vault.path@, "policies"@), "repos"@),
            repo_id@ + ".policy"@,
        ),
{
    let mut name = copy_str(repo_id);
    name.append(".policy");
    join3(vault.path.as_str(), "policies", "repos", name.as_str())
}

/// An override value wins when it is set.
pub open spec fn override_field(base: Seq<char>, over: Seq<char>) -> Seq<char> {
    if over.len() > 0 {
        over
    } else {
        base
    }
}

pub open spec fn merge_views(base: PolicyView, over: PolicyView) -> PolicyView {
    PolicyView {
        require_approval_for_zones: override_field(
            base.require_approval_for_zones,
            over.require_approval_for_zones,
        ),
        allowed_peer_ids: override_field(base.allowed_peer_ids, over.allowed_peer_ids),
        blocked_peer_ids: override_field(base.blocked_peer_ids, over.blocked_peer_ids),
        retention_max_checkpoints: override_field(
            base.retention_max_checkpoints,
            over.retention_max_checkpoints,
        ),
        retention_max_age_days: override_field(
            base.retention_max_age_days,
            over.retention_max_age_days,
        ),
        protected_checkpoint_ids: override_field(
            base.protected_checkpoint_ids,
            over.protected_checkpoint_ids,
        ),
    }
}

fn override_string(target: &mut String, value: &String)
    ensures
        final(target)@ == override_field(old(target)@, value@),
{
    if !value.as_str().is_empty() {
        *target = value.clone();
    }
}

/// Lays `override_policy` over `base`: each field that the override sets
/// replaces the base's.
pub fn merge_policy(base: &mut Policy, override_policy: &Policy)
    ensures
        final(base)@ == merge_views(old(base)@, override_policy@),
{
    override_string(&mut base.require_approval_for_zones, &override_policy.require_approval_for_zones);
    override_string(&mut base.allowed_peer_ids, &override_policy.allowed_peer_ids);
    override_string(&mut base.blocked_peer_ids, &override_policy.blocked_peer_ids);
    override_string(&mut base.retention_max_checkpoints, &override_policy.retention_max_checkpoints);
    override_string(&mut base.retention_max_age_days, &override_policy.retention_max_age_days);
    override_string(&mut base.protected_checkpoint_ids, &override_policy.protected_checkpoint_ids);
}

/// The policy in force: the vault's, overlaid with the repository's when
/// there is one, and the default approval zones when none are set.
pub open spec fn merged_view(vault_policy: PolicyView, repo_policy: Option<PolicyView>) -> PolicyView {
    let m = match repo_policy {
        Some(r) => merge_views(vault_policy, r),
        None => vault_policy,
    };
    if m.require_approval_for_zones.len() == 0 {
        PolicyView { require_approval_for_zones: default_approval_zones(), ..m }
    } else {
        m
    }
}

/// In the policy in force, each field the repository's override sets (a
/// non-empty value) wins; each field it leaves empty keeps the vault's
/// value; and when neither names the zones that need approval, the protected,
/// experimental and ai-generated zones do. Without an override the vault's
/// policy is in force as it is, but for that default.
pub proof fn lemma_override_fields(vault: PolicyView, over: PolicyView)
    ensures
        ({
            let m = merged_view(vault, Some(over));
            &&& m.allowed_peer_ids == if over.allowed_peer_ids.len() > 0 {
                over.allowed_peer_ids
            } else {
                vault.allowed_peer_ids
            }
            &&& m.blocked_peer_ids == if over.blocked_peer_ids.len() > 0 {
                over.blocked_peer_ids
            } else {
                vault.blocked_peer_ids
            }
            &&& m.retention_max_checkpoints == if over.retention_max_checkpoints.len() > 0 {
                over.retention_max_checkpoints
            } else {
                vault.retention_max_checkpoints
            }
            &&& m.retention_max_age_days == if over.retention_max_age_days.len() > 0 {
                over.retention_max_age_days
            } else {
                vault.retention_max_age_days
            }
            &&& m.protected_checkpoint_ids == if over.protected_checkpoint_ids.len() > 0 {
                over.protected_checkpoint_ids
            } else {
                vault.protected_checkpoint_ids
            }
            &&& m.require_approval_for_zones == if over.require_approval_for_zones.len() > 0 {
                over.require_approval_for_zones
            } else if vault.require_approval_for_zones.len() > 0 {
                vault.require_approval_for_zones
            } else {
                "protected,experimental,ai-generated"@
            }
        }),
        ({
            let m = merged_view(vault, None);
            &&& m.allowed_peer_ids == vault.allowed_peer_ids
            &&& m.blocked_peer_ids == vault.blocked_peer_ids
            &&& m.retention_max_checkpoints == vault.retention_max_checkpoints
            &&& m.retention_max_age_days == vault.retention_max_age_days
            &&& m.protected_checkpoint_ids == vault.protected_checkpoint_ids
            &&& m.require_approval_for_zones == if vault.require_approval_for_zones.len() > 0 {
                vault.require_approval_for_zones
            } else {
                "protected,experimental,ai-generated"@
            }
        }),
{
}

/// The policy in force for a repository, from the vault's policy and the
/// repository's override, if it has one.
pub fn merged_policy(vault_policy: &Policy, repo_policy: Option<&Policy>) -> (res: Policy)
    ensures
        res@ == merged_view(vault_policy@, match repo_policy {
            Some(r) => Some(r@),
            None => None,
        }),
{
    let mut policy = vault_policy.copied();
    if let Some(over) = repo_policy {
        merge_policy(&mut policy, over);
    }
    if policy.require_approval_for_zones.as_str().is_empty() {
        policy.require_approval_for_zones = default_policy().require_approval_for_zones;
    }
    policy
}

/// The policy shown for a vault or repository: the one in force.
pub fn show_policy(vault_policy: &Policy, repo_policy: Option<&Policy>) -> (res: Policy)
    ensures
        res@ == merged_view(vault_policy@, match repo_policy {
            Some(r) => Some(r@),
            None => None,
        }),
{
    merged_policy(vault_policy, repo_policy)
}

/// The policy in force always names some zones that need approval.
pub proof fn lemma_merged_names_approval_zones(vault_policy: PolicyView, repo_policy: Option<PolicyView>)
    ensures
        merged_view(vault_policy, repo_policy).require_approval_for_zones.len() > 0,
{
    reveal_strlit("protected,experimental,ai-generated");
}

/// A field that the repository override sets is the one in force; a field it
/// leaves empty keeps the vault's value.
pub proof fn lemma_override_wins(vault_policy: PolicyView, repo_policy: PolicyView)
    ensures
        repo_policy.blocked_peer_ids.len() > 0 ==> merged_view(vault_policy, Some(repo_policy)).blocked_peer_ids == repo_policy.blocked_peer_ids,
        repo_policy.blocked_peer_ids.len() == 0 ==> merged_view(vault_policy, Some(repo_policy)).blocked_peer_ids == vault_policy.blocked_peer_ids,
        repo_policy.allowed_peer_ids.len() > 0 ==> merged_view(vault_policy, Some(repo_policy)).allowed_peer_ids == repo_policy.allowed_peer_ids,
        repo_policy.allowed_peer_ids.len() == 0 ==> merged_view(vault_policy, Some(repo_policy)).allowed_peer_ids == vault_policy.allowed_peer_ids,
        repo_policy.require_approval_for_zones.len() > 0 ==> merged_view(vault_policy, Some(repo_policy)).require_approval_for_zones == repo_policy.require_approval_for_zones,
        repo_policy.retention_max_checkpoints.len() > 0 ==> merged_view(vault_policy, Some(repo_policy)).retention_max_checkpoints == repo_policy.retention_max_checkpoints,
        repo_policy.retention_max_age_days.len() > 0 ==> merged_view(vault_policy, Some(repo_policy)).retention_max_age_days == repo_policy.retention_max_age_days,
        repo_policy.protected_checkpoint_ids.len() > 0 ==> merged_view(vault_policy, Some(repo_policy)).protected_checkpoint_ids == repo_policy.protected_checkpoint_ids,
{
}

pub open spec fn blocked_peer_message(peer_id: Seq<char>) -> Seq<char> {
    "peer '"@ + peer_id + "' is blocked by vault policy"@
}

pub open spec fn not_allowed_peer_message(peer_id: Seq<char>) -> Seq<char> {
    "peer '"@ + peer_id + "' is not in allowed_peer_ids policy"@
}

/// The error that the policy gives a peer it does not admit, if any.
pub open spec fn peer_refusal(policy: PolicyView, peer_id: Seq<char>) -> Option<Seq<char>> {
    if csv_entries(policy.blocked_peer_ids).contains(peer_id) {
        Some(blocked_peer_message(peer_id))
    } else if policy.allowed_peer_ids.len() > 0 && !csv_entries(policy.allowed_peer_ids).contains(
        peer_id,
    ) {
        Some(not_allowed_peer_message(peer_id))
    } else {
        None
    }
}

/// Admits a peer unless the policy blocks it or lists allowed peers without
/// it. Blocking is checked first.
pub fn enforce_peer_policy(policy: &Policy, peer_id: &str) -> (res: Result<(), AppError>)
    ensures
        csv_entries(policy@.blocked_peer_ids).contains(peer_id@) ==> (res matches Err(e) && e@
            == blocked_peer_message(peer_id@)),
        !csv_entries(policy@.blocked_peer_ids).contains(peer_id@) && policy@.allowed_peer_ids.len()
            > 0 && !csv_entries(policy@.allowed_peer_ids).contains(peer_id@) ==> (res matches Err(e)
            && e@ == not_allowed_peer_message(peer_id@)),
        res is Ok <==> !csv_entries(policy@.blocked_peer_ids).contains(peer_id@) && (
        policy@.allowed_peer_ids.len() == 0 || csv_entries(policy@.allowed_peer_ids).contains(
            peer_id@,
        )),
{
    if contains_csv(policy.blocked_peer_ids.as_str(), peer_id) {
        let mut msg = copy_str("peer '");
        msg.append(peer_id);
        msg.append("' is blocked by vault policy");
        return Err(AppError::from_string(msg));
    }
    if !policy.allowed_peer_ids.as_str().is_empty() && !contains_csv(
        policy.allowed_peer_ids.as_str(),
        peer_id,
    ) {
        let mut msg = copy_str("peer '");
        msg.append(peer_id);
        msg.append("' is not in allowed_peer_ids policy");
        return Err(AppError::from_string(msg));
    }
    Ok(())
}

/// Whether the policy holds actions in `zone` for approval.
pub fn zone_requires_policy_approval(policy: &Policy, zone: &str) -> (res: bool)
    ensures
        res == csv_entries(policy@.require_approval_for_zones).contains(zone@),
{
    contains_csv(policy.require_approval_for_zones.as_str(), zone)
}

/// The names of the policy fields.
pub open spec fn policy_field_names() -> Seq<Seq<char>> {
    seq![
        "require_approval_for_zones"@,
        "allowed_peer_ids"@,
        "blocked_peer_ids"@,
        "retention_max_checkpoints"@,
        "retention_max_age_days"@,
        "protected_checkpoint_ids"@,
    ]
}

/// The policy with the field named `key` set to `value`; `None` when no field
/// has that name.
pub open spec fn with_field(p: PolicyView, key: Seq<char>, value: Seq<char>) -> Option<PolicyView> {
    if key == "require_approval_for_zones"@ {
        Some(PolicyView { require_approval_for_zones: value, ..p })
    } else if key == "allowed_peer_ids"@ {
        Some(PolicyView { allowed_peer_ids: value, ..p })
    } else if key == "blocked_peer_ids"@ {
        Some(PolicyView { blocked_peer_ids: value, ..p })
    } else if key == "retention_max_checkpoints"@ {
        Some(PolicyView { retention_max_checkpoints: value, ..p })
    } else if key == "retention_max_age_days"@ {
        Some(PolicyView { retention_max_age_days: value, ..p })
    } else if key == "protected_checkpoint_ids"@ {
        Some(PolicyView { protected_checkpoint_ids: value, ..p })
    } else {
        None
    }
}

pub open spec fn unknown_policy_field_message(key: Seq<char>) -> Seq<char> {
    "unknown policy field '"@ + key + "'"@
}

/// Sets the field named `key` to `value`; an unknown name is refused and the
/// policy left as it was.
pub fn set_policy_field(policy: &mut Policy, key: &str, value: &str) -> (res: Result<(), AppError>)
    ensures
        match with_field(old(policy)@, key@, value@) {
            Some(p) => res is Ok && final(policy)@ == p,
            None => res matches Err(e) && e@ == unknown_policy_field_message(key@)
                && final(policy)@ == old(policy)@,
        },
{
    if same_text(key, "require_approval_for_zones") {
        policy.require_approval_for_zones = copy_str(value);
    } else if same_text(key, "allowed_peer_ids") {
        policy.allowed_peer_ids = copy_str(value);
    } else if same_text(key, "blocked_peer_ids") {
        policy.blocked_peer_ids = copy_str(value);
    } else if same_text(key, "retention_max_checkpoints") {
        policy.retention_max_checkpoints = copy_str(value);
    } else if same_text(key, "retention_max_age_days") {
        policy.retention_max_age_days = copy_str(value);
    } else if same_text(key, "protected_checkpoint_ids") {
        policy.protected_checkpoint_ids = copy_str(value);
    } else {
        let mut msg = copy_str("unknown policy field '");
        msg.append(key);
        msg.append("'");
        return Err(AppError::from_string(msg));
    }
    Ok(())
}

/// A blocked peer is refused whatever the allowed list says.
pub proof fn lemma_blocked_peer_refused(policy: PolicyView, peer_id: Seq<char>)
    requires
        csv_entries(policy.blocked_peer_ids).contains(peer_id),
    ensures
        !(!csv_entries(policy.blocked_peer_ids).contains(peer_id) && (policy.allowed_peer_ids.len()
            == 0 || csv_entries(policy.allowed_peer_ids).contains(peer_id))),
{
}

/// Loading the stored text of a written policy gives the policy back.
pub proof fn lemma_policy_store_roundtrip(p: PolicyView)
    ensures
        policy_from_record(crate::kv::parse_seq(crate::kv::render_seq(policy_fields(p)))) == p,
{
    reveal_strlit("require_approval_for_zones");
    reveal_strlit("allowed_peer_ids");
    reveal_strlit("blocked_peer_ids");
    reveal_strlit("retention_max_checkpoints");
    reveal_strlit("retention_max_age_days");
    reveal_strlit("protected_checkpoint_ids");
    assert("allowed_peer_ids"@[0] == 'a' && "blocked_peer_ids"@[0] == 'b' && "protected_checkpoint_ids"@[0] == 'p');
    assert("require_approval_for_zones"@[2] == 'q' && "retention_max_checkpoints"@[2] == 't');
    assert("retention_max_age_days"@[2] == 't' && "retention_max_age_days"@[14] == 'a');
    assert("retention_max_checkpoints"@[14] == 'c' && "require_approval_for_zones"@[0] == 'r');
    assert("retention_max_checkpoints"@[0] == 'r' && "retention_max_age_days"@[0] == 'r');
    let f = policy_fields(p);
    assert forall|i: int| 0 <= i < f.len() implies crate::kv::storable_key(#[trigger] f[i].0) by {
    }
    crate::kv::lemma_parse_render(f);
    reveal_with_fuel(crate::kv::kv_lookup, 7);
    assert(f.drop_last() =~= f.take(5));
    assert(f.take(5).drop_last() =~= f.take(4));
    assert(f.take(4).drop_last() =~= f.take(3));
    assert(f.take(3).drop_last() =~= f.take(2));
    assert(f.take(2).drop_last() =~= f.take(1));
    assert(f.take(1).drop_last() =~= f.take(0));
    assert(f.take(1).last() == f[0]);
    assert(f.take(2).last() == f[1]);
    assert(f.take(3).last() == f[2]);
    assert(f.take(4).last() == f[3]);
    assert(f.take(5).last() == f[4]);
    assert(crate::kv::kv_lookup(f, "protected_checkpoint_ids"@) == Some(p.protected_checkpoint_ids));
    assert(crate::kv::kv_lookup(f, "retention_max_age_days"@) == Some(p.retention_max_age_days));
    assert(crate::kv::kv_lookup(f, "retention_max_checkpoints"@) == Some(p.retention_max_checkpoints));
    assert(crate::kv::kv_lookup(f, "blocked_peer_ids"@) == Some(p.blocked_peer_ids));
    assert(crate::kv::kv_lookup(f, "allowed_peer_ids"@) == Some(p.allowed_peer_ids));
    assert(crate::kv::kv_lookup(f, "require_approval_for_zones"@) == Some(p.require_approval_for_zones));
}

/// Setting a known field of a policy, writing it and loading it back gives
/// that field the new value and every other field its old one; an unknown
/// name sets nothing.
pub proof fn lemma_set_then_load(p: PolicyView, key: Seq<char>, value: Seq<char>)
    ensures
        with_field(p, key, value) matches Some(q) ==> {
            let loaded = policy_from_record(crate::kv::parse_seq(crate::kv::render_seq(policy_fields(q))));
            &&& loaded == q
            &&& forall|i: int|
                0 <= i < 6 ==> #[trigger] policy_fields(loaded)[i].1 == if policy_fields(p)[i].0 == key {
                    value
                } else {
                    policy_fields(p)[i].1
                }
        },
        with_field(p, key, value) is None ==> forall|i: int|
            0 <= i < 6 ==> #[trigger] policy_fields(p)[i].0 != key,
{
    reveal_strlit("require_approval_for_zones");
    reveal_strlit("allowed_peer_ids");
    reveal_strlit("blocked_peer_ids");
    reveal_strlit("retention_max_checkpoints");
    reveal_strlit("retention_max_age_days");
    reveal_strlit("protected_checkpoint_ids");
    if let Some(q) = with_field(p, key, value) {
        lemma_policy_store_roundtrip(q);
    }
}

} // verus!
