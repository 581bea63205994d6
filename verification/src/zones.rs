//! Trust zones: what a repository's zone allows of each action.
use vstd::prelude::*;

use crate::error::AppError;
use crate::models::{AuthDecision, Repo, RepoAction};
use crate::text::{copy_str, same_text};

verus! {

/// The trust zones that a repository may be put in.
pub open spec fn trust_zones() -> Seq<Seq<char>> {
    seq![
        "trusted"@,
        "readonly"@,
        "experimental"@,
        "ai-generated"@,
        "protected"@,
        "shared"@,
        "quarantined"@,
    ]
}

/// Whether `zone` is one of the trust zones.
pub fn is_valid_zone(zone: &str) -> (res: bool)
    ensures
        res == trust_zones().contains(zone@),
{
    let ghost z = trust_zones();
    let res = same_text(zone, "trusted") || same_text(zone, "readonly") || same_text(
        zone,
        "experimental",
    ) || same_text(zone, "ai-generated") || same_text(zone, "protected") || same_text(
        zone,
        "shared",
    ) || same_text(zone, "quarantined");
    assert(z[0] == "trusted"@ && z[1] == "readonly"@ && z[2] == "experimental"@ && z[3]
        == "ai-generated"@ && z[4] == "protected"@ && z[5] == "shared"@ && z[6]
        == "quarantined"@);
    if res {
        assert(z.contains(zone@));
    }
    res
}

/// A push into a zone that holds pushes for approval.
pub open spec fn push_with_approval(requires_approval: bool) -> AuthDecision {
    if requires_approval {
        AuthDecision::Allow
    } else {
        AuthDecision::RequiresApproval
    }
}

/// What the zone named `zone` decides of `action`; `None` for an unknown
/// zone.
pub open spec fn zone_decision(
    zone: Seq<char>,
    action: RepoAction,
    requires_approval: bool,
    peer_trusted: bool,
) -> Option<AuthDecision> {
    if zone == "trusted"@ {
        Some(AuthDecision::Allow)
    } else if zone == "readonly"@ {
        Some(
            if action == RepoAction::SyncPush {
                AuthDecision::Deny
            } else {
                AuthDecision::Allow
            },
        )
    } else if zone == "protected"@ || zone == "ai-generated"@ {
        Some(
            if action == RepoAction::SyncPush {
                push_with_approval(requires_approval)
            } else {
                AuthDecision::Allow
            },
        )
    } else if zone == "experimental"@ {
        Some(
            if action == RepoAction::Export {
                AuthDecision::Deny
            } else if action == RepoAction::SyncPush {
                push_with_approval(requires_approval)
            } else {
                AuthDecision::Allow
            },
        )
    } else if zone == "shared"@ {
        Some(
            if action == RepoAction::SyncPush && !peer_trusted {
                AuthDecision::Deny
            } else {
                AuthDecision::Allow
            },
        )
    } else if zone == "quarantined"@ {
        Some(AuthDecision::Deny)
    } else {
        None
    }
}

pub open spec fn unknown_zone_message(zone: Seq<char>) -> Seq<char> {
    "unknown trust zone '"@ + zone + "'"@
}

fn unknown_zone_error(zone: &str) -> (res: AppError)
    ensures
        res@ == unknown_zone_message(zone@),
{
    let mut msg = copy_str("unknown trust zone '");
    msg.append(zone);
    msg.append("'");
    AppError::from_string(msg)
}

/// What the repository's trust zone decides of `action`.
pub fn authorize_repo_action(
    repo: &Repo,
    action: RepoAction,
    requires_approval: bool,
    peer_trusted: bool,
) -> (res: Result<AuthDecision, AppError>)
    ensures
        match zone_decision(repo.trust_zone@, action, requires_approval, peer_trusted) {
            Some(d) => res == Ok::<AuthDecision, AppError>(d),
            None => res matches Err(e) && e@ == unknown_zone_message(repo.trust_zone@),
        },
{
    let zone = repo.trust_zone.as_str();
    let push = action == RepoAction::SyncPush;
    let approval = if requires_approval {
        AuthDecision::Allow
    } else {
        AuthDecision::RequiresApproval
    };
    if same_text(zone, "trusted") {
        Ok(AuthDecision::Allow)
    } else if same_text(zone, "readonly") {
        Ok(
            if push {
                AuthDecision::Deny
            } else {
                AuthDecision::Allow
            },
        )
    } else if same_text(zone, "protected") || same_text(zone, "ai-generated") {
        Ok(
            if push {
                approval
            } else {
                AuthDecision::Allow
            },
        )
    } else if same_text(zone, "experimental") {
        Ok(
            if action == RepoAction::Export {
                AuthDecision::Deny
            } else if push {
                approval
            } else {
                AuthDecision::Allow
            },
        )
    } else if same_text(zone, "shared") {
        Ok(
            if push && !peer_trusted {
                AuthDecision::Deny
            } else {
                AuthDecision::Allow
            },
        )
    } else if same_text(zone, "quarantined") {
        Ok(AuthDecision::Deny)
    } else {
        Err(unknown_zone_error(zone))
    }
}

pub open spec fn approval_message(name: Seq<char>, zone: Seq<char>) -> Seq<char> {
    "repository '"@ + name + "' in zone '"@ + zone
        + "' requires approval; pass --requires-approval"@
}

pub open spec fn blocked_message(name: Seq<char>, zone: Seq<char>) -> Seq<char> {
    "action blocked for repository '"@ + name + "' in trust zone '"@ + zone + "'"@
}

/// The error that refusing `action` on a repository gives, if it is refused.
pub open spec fn refusal(
    name: Seq<char>,
    zone: Seq<char>,
    action: RepoAction,
    requires_approval: bool,
    peer_trusted: bool,
) -> Option<Seq<char>> {
    match zone_decision(zone, action, requires_approval, peer_trusted) {
        Some(AuthDecision::Allow) => None,
        Some(AuthDecision::RequiresApproval) => Some(approval_message(name, zone)),
        Some(_) => Some(blocked_message(name, zone)),
        None => Some(unknown_zone_message(zone)),
    }
}

/// Succeeds exactly when the repository's trust zone allows `action`; the
/// error says whether approval is needed, the action is blocked, or the zone
/// is unknown.
pub fn enforce_repo_action(
    repo: &Repo,
    action: RepoAction,
    requires_approval: bool,
    peer_trusted: bool,
) -> (res: Result<(), AppError>)
    ensures
        res is Ok <==> zone_decision(repo.trust_zone@, action, requires_approval, peer_trusted)
            == Some(AuthDecision::Allow),
        res matches Err(e) ==> e@ == match zone_decision(
            repo.trust_zone@,
            action,
            requires_approval,
            peer_trusted,
        ) {
            Some(AuthDecision::RequiresApproval) => approval_message(
                repo.name@,
                repo.trust_zone@,
            ),
            Some(_) => blocked_message(repo.name@, repo.trust_zone@),
            None => unknown_zone_message(repo.trust_zone@),
        },
{
    match authorize_repo_action(repo, action, requires_approval, peer_trusted) {
        Err(e) => Err(e),
        Ok(AuthDecision::Allow) => Ok(()),
        Ok(AuthDecision::RequiresApproval) => {
            let mut msg = copy_str("repository '");
            msg.append(repo.name.as_str());
            msg.append("' in zone '");
            msg.append(repo.trust_zone.as_str());
            msg.append("' requires approval; pass --requires-approval");
            Err(AppError::from_string(msg))
        },
        Ok(AuthDecision::Deny) => {
            let mut msg = copy_str("action blocked for repository '");
            msg.append(repo.name.as_str());
            msg.append("' in trust zone '");
            msg.append(repo.trust_zone.as_str());
            msg.append("'");
            Err(AppError::from_string(msg))
        },
    }
}

/// A quarantined repository is refused every action.
pub proof fn lemma_quarantined_denies_everything(
    action: RepoAction,
    requires_approval: bool,
    peer_trusted: bool,
)
    ensures
        zone_decision("quarantined"@, action, requires_approval, peer_trusted) == Some(
            AuthDecision::Deny,
        ),
{
    reveal_strlit("quarantined");
    reveal_strlit("trusted");
    reveal_strlit("readonly");
    reveal_strlit("protected");
    reveal_strlit("ai-generated");
    reveal_strlit("experimental");
    reveal_strlit("shared");
    assert("quarantined"@[0] == 'q');
}

/// A trusted repository is allowed every action.
pub proof fn lemma_trusted_allows_everything(
    action: RepoAction,
    requires_approval: bool,
    peer_trusted: bool,
)
    ensures
        zone_decision("trusted"@, action, requires_approval, peer_trusted) == Some(
            AuthDecision::Allow,
        ),
{
}

/// A read-only repository refuses pushes and allows everything else.
pub proof fn lemma_readonly_refuses_only_push(
    action: RepoAction,
    requires_approval: bool,
    peer_trusted: bool,
)
    ensures
        zone_decision("readonly"@, action, requires_approval, peer_trusted) == Some(
            if action == RepoAction::SyncPush {
                AuthDecision::Deny
            } else {
                AuthDecision::Allow
            },
        ),
{
    reveal_strlit("trusted");
    reveal_strlit("readonly");
    assert("trusted"@[0] != "readonly"@[0]);
}

/// Every valid zone gives a decision, and only valid zones do.
pub proof fn lemma_decision_iff_valid_zone(
    zone: Seq<char>,
    action: RepoAction,
    requires_approval: bool,
    peer_trusted: bool,
)
    ensures
        zone_decision(zone, action, requires_approval, peer_trusted) is Some <==> trust_zones().contains(
            zone,
        ),
{
    let z = trust_zones();
    assert(z[0] == "trusted"@ && z[1] == "readonly"@ && z[2] == "experimental"@ && z[3]
        == "ai-generated"@ && z[4] == "protected"@ && z[5] == "shared"@ && z[6]
        == "quarantined"@);
    if z.contains(zone) {
        let i = choose|i: int| 0 <= i < z.len() && z[i] == zone;
        assert(0 <= i < 7);
    }
}

/// Approval turns every push into a held zone (protected, ai-generated,
/// experimental) from held into allowed.
pub proof fn lemma_approval_allows_held_push(zone: Seq<char>, peer_trusted: bool)
    requires
        zone == "protected"@ || zone == "ai-generated"@ || zone == "experimental"@,
    ensures
        zone_decision(zone, RepoAction::SyncPush, true, peer_trusted) == Some(AuthDecision::Allow),
        zone_decision(zone, RepoAction::SyncPush, false, peer_trusted) == Some(
            AuthDecision::RequiresApproval,
        ),
{
    reveal_strlit("trusted");
    reveal_strlit("readonly");
    reveal_strlit("protected");
    reveal_strlit("ai-generated");
    reveal_strlit("experimental");
    assert("trusted"@[0] == 't' && "readonly"@[0] == 'r');
    assert("protected"@[0] == 'p' && "ai-generated"@[0] == 'a' && "experimental"@[0] == 'e');
}

/// In the protected and ai-generated zones every action but a push is
/// allowed; a push is allowed with approval and otherwise waits for it.
pub proof fn lemma_held_zones_allow_all_but_push(
    zone: Seq<char>,
    action: RepoAction,
    requires_approval: bool,
    peer_trusted: bool,
)
    requires
        zone == "protected"@ || zone == "ai-generated"@,
    ensures
        action != RepoAction::SyncPush ==> zone_decision(zone, action, requires_approval, peer_trusted)
            == Some(AuthDecision::Allow),
        action == RepoAction::SyncPush ==> zone_decision(zone, action, requires_approval, peer_trusted)
            == Some(
            if requires_approval {
                AuthDecision::Allow
            } else {
                AuthDecision::RequiresApproval
            },
        ),
{
    reveal_strlit("trusted");
    reveal_strlit("readonly");
    reveal_strlit("protected");
    reveal_strlit("ai-generated");
    assert("trusted"@[0] == 't' && "readonly"@[0] == 'r' && "protected"@[0] == 'p' && "ai-generated"@[0] == 'a');
}

/// In the experimental zone exports are refused, a push is allowed with
/// approval and otherwise waits for it, and everything else is allowed.
pub proof fn lemma_experimental_zone(action: RepoAction, requires_approval: bool, peer_trusted: bool)
    ensures
        zone_decision("experimental"@, action, requires_approval, peer_trusted) == Some(
            if action == RepoAction::Export {
                AuthDecision::Deny
            } else if action == RepoAction::SyncPush && !requires_approval {
                AuthDecision::RequiresApproval
            } else {
                AuthDecision::Allow
            },
        ),
{
    reveal_strlit("trusted");
    reveal_strlit("readonly");
    reveal_strlit("protected");
    reveal_strlit("ai-generated");
    reveal_strlit("experimental");
    assert("trusted"@[0] == 't' && "readonly"@[0] == 'r' && "protected"@[0] == 'p' && "ai-generated"@[0] == 'a'
        && "experimental"@[0] == 'e');
}

/// In the shared zone a push to an untrusted peer is refused and everything
/// else is allowed.
pub proof fn lemma_shared_zone(action: RepoAction, requires_approval: bool, peer_trusted: bool)
    ensures
        zone_decision("shared"@, action, requires_approval, peer_trusted) == Some(
            if action == RepoAction::SyncPush && !peer_trusted {
                AuthDecision::Deny
            } else {
                AuthDecision::Allow
            },
        ),
{
    reveal_strlit("trusted");
    reveal_strlit("readonly");
    reveal_strlit("protected");
    reveal_strlit("ai-generated");
    reveal_strlit("experimental");
    reveal_strlit("shared");
    assert("trusted"@[0] == 't' && "readonly"@[0] == 'r' && "protected"@[0] == 'p' && "ai-generated"@[0] == 'a'
        && "experimental"@[0] == 'e' && "shared"@[0] == 's');
}

} // verus!
