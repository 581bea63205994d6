//! The home directory, vaults and the records kept in them: reading and
//! writing records, finding vaults, repositories, peers and sessions, and
//! listing checkpoints.
use vstd::prelude::*;

use crate::error::AppError;
use crate::kv::{
    field, first_missing, kv_pair, missing_field_message, optional_field, stored_or_empty,
    KvFields, KvRecord,
};
use crate::layout::{join2, join3, join_path, path_join, paths_equal, same_path, vault_layout_dirs, vault_subdirs};
use crate::models::{
    Checkpoint, CheckpointView, Peer, PeerView, Repo, RepoView, Session, SessionView, Vault, VaultView,
};
use crate::policies::{default_policy, policy_record};
use crate::sorting::{sort_stable, stable_sort, views_of, SortKey};
use crate::text::{copy_str, same_text, text_less, text_lt};
use crate::util::{stable_id, stable_id_of};

verus! {

/// The home directory of a gitp2p installation.
#[derive(Clone, Debug)]
pub struct App {
    pub home: String,
}

pub open spec fn not_found_message(what: Seq<char>, reference: Seq<char>, tail: Seq<char>) -> Seq<
    char,
> {
    what + " '"@ + reference + "' "@ + tail
}

fn not_found(what: &str, reference: &str, tail: &str) -> (res: AppError)
    ensures
        res@ == not_found_message(what@, reference@, tail@),
{
    let mut msg = copy_str(what);
    msg.append(" '");
    msg.append(reference);
    msg.append("' ");
    msg.append(tail);
    AppError::from_string(msg)
}

/// The index of the first vault whose id or name is `reference`, or the
/// number of vaults when there is none.
pub open spec fn vault_index(vaults: Seq<VaultView>, reference: Seq<char>) -> int
    decreases vaults.len(),
{
    if vaults.len() == 0 {
        0
    } else if vaults[0].id == reference || vaults[0].name == reference {
        0
    } else {
        1 + vault_index(vaults.drop_first(), reference)
    }
}

/// Looking a vault up by a reference finds the first vault whose id or whose
/// name is the reference, and finds none exactly when no vault has the
/// reference as its id or as its name.
pub proof fn lemma_vault_lookup(vs: Seq<VaultView>, r: Seq<char>)
    ensures
        0 <= vault_index(vs, r) <= vs.len(),
        vault_index(vs, r) < vs.len() ==> vs[vault_index(vs, r)].id == r || vs[vault_index(vs, r)].name == r,
        forall|j: int| 0 <= j < vault_index(vs, r) ==> (#[trigger] vs[j]).id != r && vs[j].name != r,
        vault_index(vs, r) == vs.len() <==> forall|j: int|
            0 <= j < vs.len() ==> (#[trigger] vs[j]).id != r && vs[j].name != r,
    decreases vs.len(),
{
    if vs.len() > 0 && !(vs[0].id == r || vs[0].name == r) {
        let t = vs.drop_first();
        lemma_vault_lookup(t, r);
        assert forall|j: int| 0 <= j < vault_index(vs, r) implies (#[trigger] vs[j]).id != r && vs[j].name != r by {
            if j > 0 {
                assert(vs[j] == t[j - 1]);
            }
        }
        if vault_index(vs, r) < vs.len() {
            assert(vs[vault_index(vs, r)] == t[vault_index(t, r)]);
        } else {
            assert forall|j: int| 0 <= j < vs.len() implies (#[trigger] vs[j]).id != r && vs[j].name != r by {
                if j > 0 {
                    assert(vs[j] == t[j - 1]);
                }
            }
        }
    }
}

/// Looking a peer up finds the first peer whose id is the reference, and
/// finds none exactly when no peer has it as its id.
pub proof fn lemma_peer_lookup(ss: Seq<Peer>, r: Seq<char>)
    ensures
        0 <= peer_index(ss, r) <= ss.len(),
        peer_index(ss, r) < ss.len() ==> ss[peer_index(ss, r)].id@ == r,
        forall|j: int| 0 <= j < peer_index(ss, r) ==> !((#[trigger] ss[j]).id@ == r),
        peer_index(ss, r) >= ss.len() <==> forall|j: int| 0 <= j < ss.len() ==> !((#[trigger] ss[j]).id@ == r),
    decreases ss.len(),
{
    if ss.len() > 0 && !(ss[0].id@ == r) {
        let t = ss.drop_first();
        lemma_peer_lookup(t, r);
        assert forall|j: int| 0 <= j < peer_index(ss, r) implies !((#[trigger] ss[j]).id@ == r) by {
            if j > 0 {
                assert(ss[j] == t[j - 1]);
            }
        }
        if peer_index(ss, r) < ss.len() {
            assert(ss[peer_index(ss, r)] == t[peer_index(t, r)]);
        } else {
            assert forall|j: int| 0 <= j < ss.len() implies !((#[trigger] ss[j]).id@ == r) by {
                if j > 0 {
                    assert(ss[j] == t[j - 1]);
                }
            }
        }
    }
}

pub open spec fn vaults_view(vaults: Seq<Vault>) -> Seq<VaultView> {
    vaults.map_values(|v: Vault| v@)
}

/// The index of the first peer whose id is `reference`, or the number of
/// peers when there is none.
pub open spec fn peer_index(peers: Seq<Peer>, reference: Seq<char>) -> int
    decreases peers.len(),
{
    if peers.len() == 0 {
        0
    } else if peers[0].id@ == reference {
        0
    } else {
        1 + peer_index(peers.drop_first(), reference)
    }
}

impl App {
    /// The installation at `home`.
    pub fn with_home(home: String) -> (res: App)
        ensures
            res.home@ == home@,
    {
        App { home }
    }

    /// Where the vaults live.
    pub fn vaults_dir(&self) -> (res: String)
        ensures
            res@ == path_join(self.home@, "vaults"@),
    {
        join_path(self.home.as_str(), "vaults")
    }

    /// The directories that a home needs: vaults, peers and sessions.
    pub fn home_dirs(&self) -> (res: Vec<String>)
        ensures
            res.deep_view() == seq![
                path_join(self.home@, "vaults"@),
                path_join(self.home@, "peers"@),
                path_join(self.home@, "sessions"@),
            ],
    {
        let res = vec![
            join_path(self.home.as_str(), "vaults"),
            join_path(self.home.as_str(), "peers"),
            join_path(self.home.as_str(), "sessions"),
        ];
        assert(res.deep_view() =~= seq![
            path_join(self.home@, "vaults"@),
            path_join(self.home@, "peers"@),
            path_join(self.home@, "sessions"@),
        ]);
        res
    }

    /// The file of the identity of this installation.
    pub fn identity_path(&self) -> (res: String)
        ensures
            res@ == path_join(self.home@, "identity"@),
    {
        join_path(self.home.as_str(), "identity")
    }

    /// The first vault, in the given order, whose id or name is `reference`.
    pub fn find_vault(&self, vaults: &Vec<Vault>, reference: &str) -> (res: Result<Vault, AppError>)
        ensures
            vault_index(vaults_view(vaults@), reference@) < vaults@.len() ==> (res matches Ok(v)
                && v@ == vaults@[vault_index(vaults_view(vaults@), reference@)]@),
            vault_index(vaults_view(vaults@), reference@) == vaults@.len() ==> (res matches Err(e)
                && e@ == not_found_message("vault"@, reference@, "was not found"@)),
            res matches Ok(v) ==> v@.id == reference@ || v@.name == reference@,
            res is Err <==> forall|j: int|
                0 <= j < vaults@.len() ==> (#[trigger] vaults@[j]).id@ != reference@ && vaults@[j].name@
                    != reference@,
    {
        let ghost vs = vaults_view(vaults@);
        proof {
            lemma_vault_lookup(vs, reference@);
            assert forall|j: int| 0 <= j < vaults@.len() implies ((#[trigger] vaults@[j]).id@ != reference@
                && vaults@[j].name@ != reference@) == (vs[j].id != reference@ && vs[j].name != reference@) by {
            }
        }
        let mut i: usize = 0;
        assert(vs.skip(0) =~= vs);
        while i < vaults.len()
            invariant
                vs == vaults_view(vaults@),
                i <= vaults@.len(),
                vault_index(vs, reference@) == i + vault_index(vs.skip(i as int), reference@),
            decreases vaults.len() - i,
        {
            assert(vs.skip(i as int)[0] == vaults@[i as int]@);
            if same_text(vaults[i].id.as_str(), reference) || same_text(
                vaults[i].name.as_str(),
                reference,
            ) {
                return Ok(vaults[i].copied());
            }
            assert(vs.skip(i as int).drop_first() =~= vs.skip(i + 1));
            i = i + 1;
        }
        Err(not_found("vault", reference, "was not found"))
    }

    /// The known peer whose id is `reference`.
    pub fn find_peer(&self, peers: &Vec<Peer>, reference: &str) -> (res: Result<Peer, AppError>)
        ensures
            peer_index(peers@, reference@) < peers@.len() ==> (res matches Ok(p) && p@
                == peers@[peer_index(peers@, reference@)]@),
            peer_index(peers@, reference@) == peers@.len() ==> (res matches Err(e) && e@
                == not_found_message(
                "peer"@,
                reference@,
                "is not known; run peers discover first"@,
            )),
            res matches Ok(p) ==> p@.id == reference@,
            res is Err <==> forall|j: int| 0 <= j < peers@.len() ==> (#[trigger] peers@[j]).id@ != reference@,
    {
        proof {
            lemma_peer_lookup(peers@, reference@);
        }
        let mut i: usize = 0;
        assert(peers@.skip(0) =~= peers@);
        while i < peers.len()
            invariant
                i <= peers@.len(),
                peer_index(peers@, reference@) == i + peer_index(peers@.skip(i as int), reference@),
            decreases peers.len() - i,
        {
            assert(peers@.skip(i as int)[0] == peers@[i as int]);
            if same_text(peers[i].id.as_str(), reference) {
                return Ok(peers[i].copied());
            }
            assert(peers@.skip(i as int).drop_first() =~= peers@.skip(i + 1));
            i = i + 1;
        }
        Err(not_found("peer", reference, "is not known; run peers discover first"))
    }

    /// The file of the session `id`.
    pub fn session_path(&self, id: &str) -> (res: String)
        ensures
            res@ == path_join(path_join(self.home@, "sessions"@), id@),
    {
        join2(self.home.as_str(), "sessions", id)
    }

    /// The session `id`, given what its file holds, if it exists.
    pub fn find_session(&self, id: &str, stored: Option<Session>) -> (res: Result<
        Session,
        AppError,
    >)
        ensures
            match stored {
                Some(s) => res == Ok::<Session, AppError>(s),
                None => res matches Err(e) && e@ == not_found_message(
                    "session"@,
                    id@,
                    "was not found"@,
                ),
            },
    {
        match stored {
            Some(s) => Ok(s),
            None => Err(not_found("session", id, "was not found")),
        }
    }
}

// ---------------------------------------------------------------------------
// Reading records
// ---------------------------------------------------------------------------

pub open spec fn vault_keys() -> Seq<Seq<char>> {
    seq!["id"@, "name"@, "created_at"@]
}

/// The vault at `path`, from the fields of its metadata file.
pub fn read_vault(path: &str, fields: &KvFields) -> (res: Result<Vault, AppError>)
    ensures
        match first_missing(fields.deep_view(), vault_keys()) {
            None => res matches Ok(v) && v@ == (VaultView {
                id: stored_or_empty(fields.deep_view(), "id"@),
                name: stored_or_empty(fields.deep_view(), "name"@),
                path: path@,
                created_at: stored_or_empty(fields.deep_view(), "created_at"@),
            }),
            Some(k) => res matches Err(e) && e@ == missing_field_message(k),
        },
{
    let ghost m = fields.deep_view();
    let ghost ks = vault_keys();
    proof {
        reveal_with_fuel(first_missing, 8);
    }
    assert(ks[0] == "id"@ && ks[1] == "name"@ && ks[2] == "created_at"@);
    assert(ks.drop_first().drop_first().drop_first().len() == 0);
    let id = field(fields, "id")?;
    let name = field(fields, "name")?;
    let created_at = field(fields, "created_at")?;
    Ok(Vault { id, name, path: copy_str(path), created_at })
}

pub open spec fn repo_keys() -> Seq<Seq<char>> {
    seq!["id"@, "name"@, "path"@, "vault_id"@, "trust_zone"@, "sync_state"@, "created_at"@]
}

pub open spec fn repo_from_record(m: Seq<(Seq<char>, Seq<char>)>) -> RepoView {
    RepoView {
        id: stored_or_empty(m, "id"@),
        name: stored_or_empty(m, "name"@),
        path: stored_or_empty(m, "path"@),
        vault_id: stored_or_empty(m, "vault_id"@),
        trust_zone: stored_or_empty(m, "trust_zone"@),
        sync_state: stored_or_empty(m, "sync_state"@),
        latest_checkpoint: stored_or_empty(m, "latest_checkpoint"@),
        created_at: stored_or_empty(m, "created_at"@),
    }
}

/// The repository that a stored record gives.
pub fn read_repo(fields: &KvFields) -> (res: Result<Repo, AppError>)
    ensures
        match first_missing(fields.deep_view(), repo_keys()) {
            None => res matches Ok(r) && r@ == repo_from_record(fields.deep_view()),
            Some(k) => res matches Err(e) && e@ == missing_field_message(k),
        },
{
    let ghost ks = repo_keys();
    proof {
        reveal_with_fuel(first_missing, 8);
    }
    assert(ks[0] == "id"@ && ks[1] == "name"@ && ks[2] == "path"@ && ks[3] == "vault_id"@ && ks[4]
        == "trust_zone"@ && ks[5] == "sync_state"@ && ks[6] == "created_at"@);
    assert(ks.skip(7).len() == 0);
    assert(ks.drop_first() =~= ks.skip(1));
    assert(ks.skip(1).drop_first() =~= ks.skip(2));
    assert(ks.skip(2).drop_first() =~= ks.skip(3));
    assert(ks.skip(3).drop_first() =~= ks.skip(4));
    assert(ks.skip(4).drop_first() =~= ks.skip(5));
    assert(ks.skip(5).drop_first() =~= ks.skip(6));
    assert(ks.skip(6).drop_first() =~= ks.skip(7));
    let id = field(fields, "id")?;
    let name = field(fields, "name")?;
    let path = field(fields, "path")?;
    let vault_id = field(fields, "vault_id")?;
    let trust_zone = field(fields, "trust_zone")?;
    let sync_state = field(fields, "sync_state")?;
    let latest_checkpoint = optional_field(fields, "latest_checkpoint");
    let created_at = field(fields, "created_at")?;
    Ok(Repo { id, name, path, vault_id, trust_zone, sync_state, latest_checkpoint, created_at })
}

pub open spec fn checkpoint_keys() -> Seq<Seq<char>> {
    seq!["id"@, "repo_id"@, "vault_id"@, "commit"@, "created_at"@, "status"@]
}

pub open spec fn checkpoint_from_record(m: Seq<(Seq<char>, Seq<char>)>) -> CheckpointView {
    CheckpointView {
        id: stored_or_empty(m, "id"@),
        repo_id: stored_or_empty(m, "repo_id"@),
        vault_id: stored_or_empty(m, "vault_id"@),
        commit: stored_or_empty(m, "commit"@),
        parent: stored_or_empty(m, "parent"@),
        created_at: stored_or_empty(m, "created_at"@),
        status: stored_or_empty(m, "status"@),
        signature: stored_or_empty(m, "signature"@),
        signed_by: stored_or_empty(m, "signed_by"@),
        signed_at: stored_or_empty(m, "signed_at"@),
    }
}

/// The checkpoint that a stored record gives.
pub fn read_checkpoint(fields: &KvFields) -> (res: Result<Checkpoint, AppError>)
    ensures
        match first_missing(fields.deep_view(), checkpoint_keys()) {
            None => res matches Ok(c) && c@ == checkpoint_from_record(fields.deep_view()),
            Some(k) => res matches Err(e) && e@ == missing_field_message(k),
        },
{
    let ghost ks = checkpoint_keys();
    proof {
        reveal_with_fuel(first_missing, 8);
    }
    assert(ks[0] == "id"@ && ks[1] == "repo_id"@ && ks[2] == "vault_id"@ && ks[3] == "commit"@
        && ks[4] == "created_at"@ && ks[5] == "status"@);
    assert(ks.skip(6).len() == 0);
    assert(ks.drop_first() =~= ks.skip(1));
    assert(ks.skip(1).drop_first() =~= ks.skip(2));
    assert(ks.skip(2).drop_first() =~= ks.skip(3));
    assert(ks.skip(3).drop_first() =~= ks.skip(4));
    assert(ks.skip(4).drop_first() =~= ks.skip(5));
    assert(ks.skip(5).drop_first() =~= ks.skip(6));
    let id = field(fields, "id")?;
    let repo_id = field(fields, "repo_id")?;
    let vault_id = field(fields, "vault_id")?;
    let commit = field(fields, "commit")?;
    let parent = optional_field(fields, "parent");
    let created_at = field(fields, "created_at")?;
    let status = field(fields, "status")?;
    let signature = optional_field(fields, "signature");
    let signed_by = optional_field(fields, "signed_by");
    let signed_at = optional_field(fields, "signed_at");
    Ok(
        Checkpoint {
            id,
            repo_id,
            vault_id,
            commit,
            parent,
            created_at,
            status,
            signature,
            signed_by,
            signed_at,
        },
    )
}

pub open spec fn session_keys() -> Seq<Seq<char>> {
    seq!["id"@, "peer_id"@, "repo_id"@, "checkpoint_id"@, "direction"@, "state"@, "created_at"@]
}

pub open spec fn session_from_record(m: Seq<(Seq<char>, Seq<char>)>) -> SessionView {
    SessionView {
        id: stored_or_empty(m, "id"@),
        peer_id: stored_or_empty(m, "peer_id"@),
        repo_id: stored_or_empty(m, "repo_id"@),
        checkpoint_id: stored_or_empty(m, "checkpoint_id"@),
        direction: stored_or_empty(m, "direction"@),
        state: stored_or_empty(m, "state"@),
        encrypted: stored_or_empty(m, "encrypted"@),
        created_at: stored_or_empty(m, "created_at"@),
        phase: stored_or_empty(m, "phase"@),
        transfer_artifact: stored_or_empty(m, "transfer_artifact"@),
        bytes_transferred: stored_or_empty(m, "bytes_transferred"@),
        transfer_offset: stored_or_empty(m, "transfer_offset"@),
        signature: stored_or_empty(m, "signature"@),
        signed_by: stored_or_empty(m, "signed_by"@),
        signed_at: stored_or_empty(m, "signed_at"@),
    }
}

/// The session that a stored record gives.
pub fn read_session(fields: &KvFields) -> (res: Result<Session, AppError>)
    ensures
        match first_missing(fields.deep_view(), session_keys()) {
            None => res matches Ok(s) && s@ == session_from_record(fields.deep_view()),
            Some(k) => res matches Err(e) && e@ == missing_field_message(k),
        },
{
    let ghost ks = session_keys();
    proof {
        reveal_with_fuel(first_missing, 8);
    }
    assert(ks[0] == "id"@ && ks[1] == "peer_id"@ && ks[2] == "repo_id"@ && ks[3]
        == "checkpoint_id"@ && ks[4] == "direction"@ && ks[5] == "state"@ && ks[6]
        == "created_at"@);
    assert(ks.skip(7).len() == 0);
    assert(ks.drop_first() =~= ks.skip(1));
    assert(ks.skip(1).drop_first() =~= ks.skip(2));
    assert(ks.skip(2).drop_first() =~= ks.skip(3));
    assert(ks.skip(3).drop_first() =~= ks.skip(4));
    assert(ks.skip(4).drop_first() =~= ks.skip(5));
    assert(ks.skip(5).drop_first() =~= ks.skip(6));
    assert(ks.skip(6).drop_first() =~= ks.skip(7));
    let id = field(fields, "id")?;
    let peer_id = field(fields, "peer_id")?;
    let repo_id = field(fields, "repo_id")?;
    let checkpoint_id = field(fields, "checkpoint_id")?;
    let direction = field(fields, "direction")?;
    let state = field(fields, "state")?;
    let encrypted = optional_field(fields, "encrypted");
    let created_at = field(fields, "created_at")?;
    let phase = optional_field(fields, "phase");
    let transfer_artifact = optional_field(fields, "transfer_artifact");
    let bytes_transferred = optional_field(fields, "bytes_transferred");
    let transfer_offset = optional_field(fields, "transfer_offset");
    let signature = optional_field(fields, "signature");
    let signed_by = optional_field(fields, "signed_by");
    let signed_at = optional_field(fields, "signed_at");
    Ok(
        Session {
            id,
            peer_id,
            repo_id,
            checkpoint_id,
            direction,
            state,
            encrypted,
            created_at,
            phase,
            transfer_artifact,
            bytes_transferred,
            transfer_offset,
            signature,
            signed_by,
            signed_at,
        },
    )
}

// ---------------------------------------------------------------------------
// Writing records
// ---------------------------------------------------------------------------

pub open spec fn repo_fields(r: RepoView) -> Seq<(Seq<char>, Seq<char>)> {
    seq![
        ("id"@, r.id),
        ("name"@, r.name),
        ("path"@, r.path),
        ("vault_id"@, r.vault_id),
        ("trust_zone"@, r.trust_zone),
        ("sync_state"@, r.sync_state),
        ("latest_checkpoint"@, r.latest_checkpoint),
        ("created_at"@, r.created_at),
    ]
}

/// The file that stores a repository in its vault, and its fields.
pub fn write_repo(vault: &Vault, repo: &Repo) -> (res: KvRecord)
    ensures
        res.path@ == path_join(path_join(path_join(vault.path@, "metadata"@), "repos"@), repo.id@),
        res.fields.deep_view() == repo_fields(repo@),
{
    let fields = vec![
        kv_pair("id", repo.id.as_str()),
        kv_pair("name", repo.name.as_str()),
        kv_pair("path", repo.path.as_str()),
        kv_pair("vault_id", repo.vault_id.as_str()),
        kv_pair("trust_zone", repo.trust_zone.as_str()),
        kv_pair("sync_state", repo.sync_state.as_str()),
        kv_pair("latest_checkpoint", repo.latest_checkpoint.as_str()),
        kv_pair("created_at", repo.created_at.as_str()),
    ];
    assert(fields.deep_view() =~= repo_fields(repo@));
    KvRecord { path: join3(vault.path.as_str(), "metadata", "repos", repo.id.as_str()), fields }
}

/// Registers a repository that arrived from elsewhere: the repository and the
/// record that stores it.
pub fn register_imported_repo(vault: &Vault, repo: Repo) -> (res: (Repo, KvRecord))
    ensures
        res.0@ == repo@,
        res.1.path@ == path_join(path_join(path_join(vault.path@, "metadata"@), "repos"@), repo.id@),
        res.1.fields.deep_view() == repo_fields(repo@),
{
    let record = write_repo(vault, &repo);
    (repo, record)
}

pub open spec fn checkpoint_fields(c: CheckpointView) -> Seq<(Seq<char>, Seq<char>)> {
    seq![
        ("id"@, c.id),
        ("repo_id"@, c.repo_id),
        ("vault_id"@, c.vault_id),
        ("commit"@, c.commit),
        ("parent"@, c.parent),
        ("created_at"@, c.created_at),
        ("status"@, c.status),
        ("signature"@, c.signature),
        ("signed_by"@, c.signed_by),
        ("signed_at"@, c.signed_at),
    ]
}

/// The file of the checkpoint `id` in a vault.
pub fn checkpoint_path(vault: &Vault, id: &str) -> (res: String)
    ensures
        res@ == path_join(path_join(path_join(vault.path@, "metadata"@), "checkpoints"@), id@),
{
    join3(vault.path.as_str(), "metadata", "checkpoints", id)
}

/// The record that stores a new checkpoint. Checkpoints are immutable: when
/// its file already exists the write is refused.
pub fn write_checkpoint(vault: &Vault, checkpoint: &Checkpoint, path_exists: bool) -> (res: Result<
    KvRecord,
    AppError,
>)
    ensures
        path_exists ==> (res matches Err(e) && e@
            == "checkpoint id collision; refusing to overwrite immutable metadata"@),
        !path_exists ==> (res matches Ok(r) && r.path@ == path_join(
            path_join(path_join(vault.path@, "metadata"@), "checkpoints"@),
            checkpoint.id@,
        ) && r.fields.deep_view() == checkpoint_fields(checkpoint@)),
{
    if path_exists {
        return Err(AppError::new("checkpoint id collision; refusing to overwrite immutable metadata"));
    }
    let fields = vec![
        kv_pair("id", checkpoint.id.as_str()),
        kv_pair("repo_id", checkpoint.repo_id.as_str()),
        kv_pair("vault_id", checkpoint.vault_id.as_str()),
        kv_pair("commit", checkpoint.commit.as_str()),
        kv_pair("parent", checkpoint.parent.as_str()),
        kv_pair("created_at", checkpoint.created_at.as_str()),
        kv_pair("status", checkpoint.status.as_str()),
        kv_pair("signature", checkpoint.signature.as_str()),
        kv_pair("signed_by", checkpoint.signed_by.as_str()),
        kv_pair("signed_at", checkpoint.signed_at.as_str()),
    ];
    assert(fields.deep_view() =~= checkpoint_fields(checkpoint@));
    Ok(KvRecord { path: checkpoint_path(vault, checkpoint.id.as_str()), fields })
}

pub open spec fn session_fields(s: SessionView) -> Seq<(Seq<char>, Seq<char>)> {
    seq![
        ("id"@, s.id),
        ("peer_id"@, s.peer_id),
        ("repo_id"@, s.repo_id),
        ("checkpoint_id"@, s.checkpoint_id),
        ("direction"@, s.direction),
        ("state"@, s.state),
        ("encrypted"@, s.encrypted),
        ("created_at"@, s.created_at),
        ("phase"@, s.phase),
        ("transfer_artifact"@, s.transfer_artifact),
        ("bytes_transferred"@, s.bytes_transferred),
        ("transfer_offset"@, s.transfer_offset),
        ("signature"@, s.signature),
        ("signed_by"@, s.signed_by),
        ("signed_at"@, s.signed_at),
    ]
}

/// The file that stores a session under a home, and its fields.
pub fn write_session(app: &App, session: &Session) -> (res: KvRecord)
    ensures
        res.path@ == path_join(path_join(app.home@, "sessions"@), session.id@),
        res.fields.deep_view() == session_fields(session@),
{
    let fields = vec![
        kv_pair("id", session.id.as_str()),
        kv_pair("peer_id", session.peer_id.as_str()),
        kv_pair("repo_id", session.repo_id.as_str()),
        kv_pair("checkpoint_id", session.checkpoint_id.as_str()),
        kv_pair("direction", session.direction.as_str()),
        kv_pair("state", session.state.as_str()),
        kv_pair("encrypted", session.encrypted.as_str()),
        kv_pair("created_at", session.created_at.as_str()),
        kv_pair("phase", session.phase.as_str()),
        kv_pair("transfer_artifact", session.transfer_artifact.as_str()),
        kv_pair("bytes_transferred", session.bytes_transferred.as_str()),
        kv_pair("transfer_offset", session.transfer_offset.as_str()),
        kv_pair("signature", session.signature.as_str()),
        kv_pair("signed_by", session.signed_by.as_str()),
        kv_pair("signed_at", session.signed_at.as_str()),
    ];
    assert(fields.deep_view() =~= session_fields(session@));
    KvRecord { path: app.session_path(session.id.as_str()), fields }
}

// ---------------------------------------------------------------------------
// Reading back what was written
// ---------------------------------------------------------------------------

/// Reading the stored text of a repository gives the repository back.
pub proof fn lemma_repo_store_roundtrip(r: RepoView)
    ensures
        first_missing(crate::kv::parse_seq(crate::kv::render_seq(repo_fields(r))), repo_keys()) is None,
        repo_from_record(crate::kv::parse_seq(crate::kv::render_seq(repo_fields(r)))) == r,
{
    reveal_strlit("id");
    reveal_strlit("name");
    reveal_strlit("path");
    reveal_strlit("vault_id");
    reveal_strlit("trust_zone");
    reveal_strlit("sync_state");
    reveal_strlit("latest_checkpoint");
    reveal_strlit("created_at");
    assert("sync_state"@[0] == 's' && "trust_zone"@[0] == 't' && "created_at"@[0] == 'c');
    assert("vault_id"@[0] == 'v' && "path"@[0] == 'p' && "name"@[0] == 'n' && "id"@[0] == 'i');
    let f = repo_fields(r);
    assert forall|i: int| 0 <= i < f.len() implies crate::kv::storable_key(#[trigger] f[i].0) by {
    }
    crate::kv::lemma_parse_render(f);
    reveal_with_fuel(crate::kv::kv_lookup, 9);
    reveal_with_fuel(first_missing, 8);
    let ks = repo_keys();
    assert(ks.drop_first() =~= ks.skip(1));
    assert(ks.skip(1).drop_first() =~= ks.skip(2));
    assert(ks.skip(2).drop_first() =~= ks.skip(3));
    assert(ks.skip(3).drop_first() =~= ks.skip(4));
    assert(ks.skip(4).drop_first() =~= ks.skip(5));
    assert(ks.skip(5).drop_first() =~= ks.skip(6));
    assert(ks.skip(6).drop_first() =~= ks.skip(7));
    assert(f.drop_last() =~= f.take(7));
    assert(f.take(7).drop_last() =~= f.take(6));
    assert(f.take(6).drop_last() =~= f.take(5));
    assert(f.take(5).drop_last() =~= f.take(4));
    assert(f.take(4).drop_last() =~= f.take(3));
    assert(f.take(3).drop_last() =~= f.take(2));
    assert(f.take(2).drop_last() =~= f.take(1));
    assert(f.take(1).drop_last() =~= f.take(0));
    assert(f.take(1).last() == f[0]);
    assert(f.take(2).last() == f[1]);
    assert(f.take(3).last() == f[2]);
    assert(f.take(4).last() == f[3]);
    assert(f.take(5).last() == f[4]);
    assert(f.take(6).last() == f[5]);
    assert(f.take(7).last() == f[6]);
    assert(crate::kv::kv_lookup(f, "created_at"@) == Some(r.created_at));
    assert(crate::kv::kv_lookup(f, "latest_checkpoint"@) == Some(r.latest_checkpoint));
    assert(crate::kv::kv_lookup(f, "sync_state"@) == Some(r.sync_state));
    assert(crate::kv::kv_lookup(f, "trust_zone"@) == Some(r.trust_zone));
    assert(crate::kv::kv_lookup(f, "vault_id"@) == Some(r.vault_id));
    assert(crate::kv::kv_lookup(f, "path"@) == Some(r.path));
    assert(crate::kv::kv_lookup(f, "name"@) == Some(r.name));
    assert(crate::kv::kv_lookup(f, "id"@) == Some(r.id));
}

/// The metadata record of a new replica vault.
pub open spec fn replica_metadata(id: Seq<char>, name: Seq<char>, created_at: Seq<char>) -> Seq<
    (Seq<char>, Seq<char>),
> {
    seq![
        ("id"@, id),
        ("name"@, name),
        ("created_at"@, created_at),
        ("trust_status"@, "shared-replica"@),
    ]
}

/// Reading back the metadata that `ensure_remote_vault` writes for a new
/// replica, at its path, gives the replica vault it returned; so a second
/// call over the written store (`stored` is that vault) gives the same vault,
/// with the same id, name and creation time.
pub proof fn lemma_remote_vault_reads_back(id: Seq<char>, name: Seq<char>, path: Seq<char>, created_at: Seq<char>)
    ensures
        ({
            let f = crate::kv::parse_seq(crate::kv::render_seq(replica_metadata(id, name, created_at)));
            &&& first_missing(f, vault_keys()) is None
            &&& (VaultView {
                id: stored_or_empty(f, "id"@),
                name: stored_or_empty(f, "name"@),
                path,
                created_at: stored_or_empty(f, "created_at"@),
            }) == (VaultView { id, name, path, created_at })
        }),
{
    reveal_strlit("id");
    reveal_strlit("name");
    reveal_strlit("created_at");
    reveal_strlit("trust_status");
    assert("id"@[0] == 'i' && "name"@[0] == 'n' && "created_at"@[0] == 'c' && "trust_status"@[0] == 't');
    let f = replica_metadata(id, name, created_at);
    assert forall|i: int| 0 <= i < f.len() implies crate::kv::storable_key(#[trigger] f[i].0) by {
    }
    crate::kv::lemma_parse_render(f);
    reveal_with_fuel(crate::kv::kv_lookup, 5);
    reveal_with_fuel(first_missing, 5);
    let ks = vault_keys();
    assert(ks.drop_first() =~= ks.skip(1));
    assert(ks.skip(1).drop_first() =~= ks.skip(2));
    assert(f.drop_last() =~= f.take(3));
    assert(f.take(3).drop_last() =~= f.take(2));
    assert(f.take(2).drop_last() =~= f.take(1));
    assert(f.take(1).drop_last() =~= f.take(0));
    assert(f.take(1).last() == f[0]);
    assert(f.take(2).last() == f[1]);
    assert(f.take(3).last() == f[2]);
    assert(crate::kv::kv_lookup(f, "created_at"@) == Some(created_at));
    assert(crate::kv::kv_lookup(f, "name"@) == Some(name));
    assert(crate::kv::kv_lookup(f, "id"@) == Some(id));
}

/// Reading the stored text of a checkpoint gives it back.
pub proof fn lemma_checkpoint_store_roundtrip(r: CheckpointView)
    ensures
        first_missing(crate::kv::parse_seq(crate::kv::render_seq(checkpoint_fields(r))), checkpoint_keys()) is None,
        checkpoint_from_record(crate::kv::parse_seq(crate::kv::render_seq(checkpoint_fields(r)))) == r,
{
    reveal_strlit("id");
    reveal_strlit("repo_id");
    reveal_strlit("vault_id");
    reveal_strlit("commit");
    reveal_strlit("parent");
    reveal_strlit("created_at");
    reveal_strlit("status");
    reveal_strlit("signature");
    reveal_strlit("signed_by");
    reveal_strlit("signed_at");
    assert("commit"@[0] == 'c');
    assert("parent"@[0] == 'p');
    assert("signature"@[4] == 'a');
    assert("signed_at"@[4] == 'e');
    assert("signed_at"@[7] == 'a');
    assert("signed_by"@[4] == 'e');
    assert("signed_by"@[7] == 'b');
    assert("status"@[0] == 's');
    let f = checkpoint_fields(r);
    assert forall|i: int| 0 <= i < f.len() implies crate::kv::storable_key(#[trigger] f[i].0) by {
    }
    crate::kv::lemma_parse_render(f);
    reveal_with_fuel(crate::kv::kv_lookup, 11);
    reveal_with_fuel(first_missing, 7);
    let ks = checkpoint_keys();
    assert(ks.drop_first() =~= ks.skip(1));
    assert(ks.skip(1).drop_first() =~= ks.skip(2));
    assert(ks.skip(2).drop_first() =~= ks.skip(3));
    assert(ks.skip(3).drop_first() =~= ks.skip(4));
    assert(ks.skip(4).drop_first() =~= ks.skip(5));
    assert(ks.skip(5).drop_first() =~= ks.skip(6));
    assert(f.drop_last() =~= f.take(9));
    assert(f.take(9).drop_last() =~= f.take(8));
    assert(f.take(8).drop_last() =~= f.take(7));
    assert(f.take(7).drop_last() =~= f.take(6));
    assert(f.take(6).drop_last() =~= f.take(5));
    assert(f.take(5).drop_last() =~= f.take(4));
    assert(f.take(4).drop_last() =~= f.take(3));
    assert(f.take(3).drop_last() =~= f.take(2));
    assert(f.take(2).drop_last() =~= f.take(1));
    assert(f.take(1).drop_last() =~= f.take(0));
    assert(f.take(1).last() == f[0]);
    assert(f.take(2).last() == f[1]);
    assert(f.take(3).last() == f[2]);
    assert(f.take(4).last() == f[3]);
    assert(f.take(5).last() == f[4]);
    assert(f.take(6).last() == f[5]);
    assert(f.take(7).last() == f[6]);
    assert(f.take(8).last() == f[7]);
    assert(f.take(9).last() == f[8]);
    assert(crate::kv::kv_lookup(f, "signed_at"@) == Some(r.signed_at));
    assert(crate::kv::kv_lookup(f, "signed_by"@) == Some(r.signed_by));
    assert(crate::kv::kv_lookup(f, "signature"@) == Some(r.signature));
    assert(crate::kv::kv_lookup(f, "status"@) == Some(r.status));
    assert(crate::kv::kv_lookup(f, "created_at"@) == Some(r.created_at));
    assert(crate::kv::kv_lookup(f, "parent"@) == Some(r.parent));
    assert(crate::kv::kv_lookup(f, "commit"@) == Some(r.commit));
    assert(crate::kv::kv_lookup(f, "vault_id"@) == Some(r.vault_id));
    assert(crate::kv::kv_lookup(f, "repo_id"@) == Some(r.repo_id));
    assert(crate::kv::kv_lookup(f, "id"@) == Some(r.id));
}

/// Reading the stored text of a session gives it back.
pub proof fn lemma_session_store_roundtrip(r: SessionView)
    ensures
        first_missing(crate::kv::parse_seq(crate::kv::render_seq(session_fields(r))), session_keys()) is None,
        session_from_record(crate::kv::parse_seq(crate::kv::render_seq(session_fields(r)))) == r,
{
    reveal_strlit("id");
    reveal_strlit("peer_id");
    reveal_strlit("repo_id");
    reveal_strlit("checkpoint_id");
    reveal_strlit("direction");
    reveal_strlit("state");
    reveal_strlit("encrypted");
    reveal_strlit("created_at");
    reveal_strlit("phase");
    reveal_strlit("transfer_artifact");
    reveal_strlit("bytes_transferred");
    reveal_strlit("transfer_offset");
    reveal_strlit("signature");
    reveal_strlit("signed_by");
    reveal_strlit("signed_at");
    assert("bytes_transferred"@[0] == 'b');
    assert("direction"@[0] == 'd');
    assert("encrypted"@[0] == 'e');
    assert("peer_id"@[0] == 'p');
    assert("phase"@[0] == 'p');
    assert("repo_id"@[0] == 'r');
    assert("signature"@[0] == 's');
    assert("signature"@[4] == 'a');
    assert("signed_at"@[0] == 's');
    assert("signed_at"@[4] == 'e');
    assert("signed_at"@[7] == 'a');
    assert("signed_by"@[0] == 's');
    assert("signed_by"@[4] == 'e');
    assert("signed_by"@[7] == 'b');
    assert("state"@[0] == 's');
    assert("transfer_artifact"@[0] == 't');
    let f = session_fields(r);
    assert forall|i: int| 0 <= i < f.len() implies crate::kv::storable_key(#[trigger] f[i].0) by {
    }
    crate::kv::lemma_parse_render(f);
    reveal_with_fuel(crate::kv::kv_lookup, 16);
    reveal_with_fuel(first_missing, 8);
    let ks = session_keys();
    assert(ks.drop_first() =~= ks.skip(1));
    assert(ks.skip(1).drop_first() =~= ks.skip(2));
    assert(ks.skip(2).drop_first() =~= ks.skip(3));
    assert(ks.skip(3).drop_first() =~= ks.skip(4));
    assert(ks.skip(4).drop_first() =~= ks.skip(5));
    assert(ks.skip(5).drop_first() =~= ks.skip(6));
    assert(ks.skip(6).drop_first() =~= ks.skip(7));
    assert(f.drop_last() =~= f.take(14));
    assert(f.take(14).drop_last() =~= f.take(13));
    assert(f.take(13).drop_last() =~= f.take(12));
    assert(f.take(12).drop_last() =~= f.take(11));
    assert(f.take(11).drop_last() =~= f.take(10));
    assert(f.take(10).drop_last() =~= f.take(9));
    assert(f.take(9).drop_last() =~= f.take(8));
    assert(f.take(8).drop_last() =~= f.take(7));
    assert(f.take(7).drop_last() =~= f.take(6));
    assert(f.take(6).drop_last() =~= f.take(5));
    assert(f.take(5).drop_last() =~= f.take(4));
    assert(f.take(4).drop_last() =~= f.take(3));
    assert(f.take(3).drop_last() =~= f.take(2));
    assert(f.take(2).drop_last() =~= f.take(1));
    assert(f.take(1).drop_last() =~= f.take(0));
    assert(f.take(1).last() == f[0]);
    assert(f.take(2).last() == f[1]);
    assert(f.take(3).last() == f[2]);
    assert(f.take(4).last() == f[3]);
    assert(f.take(5).last() == f[4]);
    assert(f.take(6).last() == f[5]);
    assert(f.take(7).last() == f[6]);
    assert(f.take(8).last() == f[7]);
    assert(f.take(9).last() == f[8]);
    assert(f.take(10).last() == f[9]);
    assert(f.take(11).last() == f[10]);
    assert(f.take(12).last() == f[11]);
    assert(f.take(13).last() == f[12]);
    assert(f.take(14).last() == f[13]);
    assert(crate::kv::kv_lookup(f, "signed_at"@) == Some(r.signed_at));
    assert(crate::kv::kv_lookup(f, "signed_by"@) == Some(r.signed_by));
    assert(crate::kv::kv_lookup(f, "signature"@) == Some(r.signature));
    assert(crate::kv::kv_lookup(f, "transfer_offset"@) == Some(r.transfer_offset));
    assert(crate::kv::kv_lookup(f, "bytes_transferred"@) == Some(r.bytes_transferred));
    assert(crate::kv::kv_lookup(f, "transfer_artifact"@) == Some(r.transfer_artifact));
    assert(crate::kv::kv_lookup(f, "phase"@) == Some(r.phase));
    assert(crate::kv::kv_lookup(f, "created_at"@) == Some(r.created_at));
    assert(crate::kv::kv_lookup(f, "encrypted"@) == Some(r.encrypted));
    assert(crate::kv::kv_lookup(f, "state"@) == Some(r.state));
    assert(crate::kv::kv_lookup(f, "direction"@) == Some(r.direction));
    assert(crate::kv::kv_lookup(f, "checkpoint_id"@) == Some(r.checkpoint_id));
    assert(crate::kv::kv_lookup(f, "repo_id"@) == Some(r.repo_id));
    assert(crate::kv::kv_lookup(f, "peer_id"@) == Some(r.peer_id));
    assert(crate::kv::kv_lookup(f, "id"@) == Some(r.id));
}

// ---------------------------------------------------------------------------
// Listing vaults, repositories, peers and sessions
// ---------------------------------------------------------------------------

impl SortKey for Vault {
    /// Vaults are listed by name.
    open spec fn key_before(a: VaultView, b: VaultView) -> bool {
        text_lt(a.name, b.name)
    }

    proof fn lemma_before_irreflexive(a: VaultView) {
        crate::text::lemma_text_lt_irreflexive(a.name);
    }

    proof fn lemma_before_transitive(a: VaultView, b: VaultView, c: VaultView) {
        crate::text::lemma_text_lt_transitive(a.name, b.name, c.name);
    }

    fn is_before(&self, other: &Self) -> (res: bool) {
        text_less(self.name.as_str(), other.name.as_str())
    }
}

impl SortKey for Repo {
    /// Repositories are listed by name, then by path.
    open spec fn key_before(a: RepoView, b: RepoView) -> bool {
        text_lt(a.name, b.name) || (a.name == b.name && text_lt(a.path, b.path))
    }

    proof fn lemma_before_irreflexive(a: RepoView) {
        crate::text::lemma_text_lt_irreflexive(a.name);
        crate::text::lemma_text_lt_irreflexive(a.path);
    }

    proof fn lemma_before_transitive(a: RepoView, b: RepoView, c: RepoView) {
        if text_lt(a.name, b.name) && text_lt(b.name, c.name) {
            crate::text::lemma_text_lt_transitive(a.name, b.name, c.name);
        }
        if a.name == b.name && b.name == c.name && text_lt(a.path, b.path) && text_lt(b.path, c.path) {
            crate::text::lemma_text_lt_transitive(a.path, b.path, c.path);
        }
    }

    fn is_before(&self, other: &Self) -> (res: bool) {
        text_less(self.name.as_str(), other.name.as_str()) || (same_text(
            self.name.as_str(),
            other.name.as_str(),
        ) && text_less(self.path.as_str(), other.path.as_str()))
    }
}

impl SortKey for Peer {
    /// Peers are listed by id.
    open spec fn key_before(a: PeerView, b: PeerView) -> bool {
        text_lt(a.id, b.id)
    }

    proof fn lemma_before_irreflexive(a: PeerView) {
        crate::text::lemma_text_lt_irreflexive(a.id);
    }

    proof fn lemma_before_transitive(a: PeerView, b: PeerView, c: PeerView) {
        crate::text::lemma_text_lt_transitive(a.id, b.id, c.id);
    }

    fn is_before(&self, other: &Self) -> (res: bool) {
        text_less(self.id.as_str(), other.id.as_str())
    }
}

impl SortKey for Session {
    /// Sessions are listed by creation time, compared as text.
    open spec fn key_before(a: SessionView, b: SessionView) -> bool {
        text_lt(a.created_at, b.created_at)
    }

    proof fn lemma_before_irreflexive(a: SessionView) {
        crate::text::lemma_text_lt_irreflexive(a.created_at);
    }

    proof fn lemma_before_transitive(a: SessionView, b: SessionView, c: SessionView) {
        crate::text::lemma_text_lt_transitive(a.created_at, b.created_at, c.created_at);
    }

    fn is_before(&self, other: &Self) -> (res: bool) {
        text_less(self.created_at.as_str(), other.created_at.as_str())
    }
}

/// A repository that `reference` names: by id, by name or by path (compared
/// as paths).
pub open spec fn repo_matches(r: RepoView, reference: Seq<char>) -> bool {
    r.id == reference || r.name == reference || same_path(r.path, reference)
}

/// The index of the first repository that `reference` names, or the number
/// of repositories.
pub open spec fn repo_index(rs: Seq<RepoView>, reference: Seq<char>) -> int
    decreases rs.len(),
{
    if rs.len() == 0 {
        0
    } else if repo_matches(rs[0], reference) {
        0
    } else {
        1 + repo_index(rs.drop_first(), reference)
    }
}

/// The index of the first repository whose working tree is `dir`, or the
/// number of repositories.
pub open spec fn repo_at_index(rs: Seq<RepoView>, dir: Seq<char>) -> int
    decreases rs.len(),
{
    if rs.len() == 0 {
        0
    } else if same_path(rs[0].path, dir) {
        0
    } else {
        1 + repo_at_index(rs.drop_first(), dir)
    }
}

/// The index of the first located checkpoint whose id is `reference`, or the
/// number of them.
pub open spec fn located_index(found: Seq<(VaultView, CheckpointView)>, reference: Seq<char>) -> int
    decreases found.len(),
{
    if found.len() == 0 {
        0
    } else if found[0].1.id == reference {
        0
    } else {
        1 + located_index(found.drop_first(), reference)
    }
}

pub open spec fn text_opt(o: Option<&str>) -> Option<Seq<char>> {
    match o {
        Some(s) => Some(s@),
        None => None,
    }
}

/// The repository that `reference` names, or without one the repository at
/// `cwd`; the error message when there is none.
/// Looking a repository up by a reference finds the first repository whose
/// id or name is the reference or whose path is the reference as a path, and
/// finds none exactly when no repository is such.
pub proof fn lemma_repo_reference_lookup(ss: Seq<RepoView>, r: Seq<char>)
    ensures
        0 <= repo_index(ss, r) <= ss.len(),
        repo_index(ss, r) < ss.len() ==> (ss[repo_index(ss, r)].id == r || ss[repo_index(ss, r)].name == r || same_path(ss[repo_index(ss, r)].path, r)),
        forall|j: int| 0 <= j < repo_index(ss, r) ==> !((#[trigger] ss[j]).id == r || ss[j].name == r || same_path(ss[j].path, r)),
        repo_index(ss, r) >= ss.len() <==> forall|j: int| 0 <= j < ss.len() ==> !((#[trigger] ss[j]).id == r || ss[j].name == r || same_path(ss[j].path, r)),
    decreases ss.len(),
{
    if ss.len() > 0 && !(ss[0].id == r || ss[0].name == r || same_path(ss[0].path, r)) {
        let t = ss.drop_first();
        lemma_repo_reference_lookup(t, r);
        assert forall|j: int| 0 <= j < repo_index(ss, r) implies !((#[trigger] ss[j]).id == r || ss[j].name == r || same_path(ss[j].path, r)) by {
            if j > 0 {
                assert(ss[j] == t[j - 1]);
            }
        }
        if repo_index(ss, r) < ss.len() {
            assert(ss[repo_index(ss, r)] == t[repo_index(t, r)]);
        } else {
            assert forall|j: int| 0 <= j < ss.len() implies !((#[trigger] ss[j]).id == r || ss[j].name == r || same_path(ss[j].path, r)) by {
                if j > 0 {
                    assert(ss[j] == t[j - 1]);
                }
            }
        }
    }
}

/// Looking a repository up by the current directory finds the first one
/// whose working tree is that directory as a path, and finds none exactly
/// when none is.
pub proof fn lemma_repo_directory_lookup(ss: Seq<RepoView>, r: Seq<char>)
    ensures
        0 <= repo_at_index(ss, r) <= ss.len(),
        repo_at_index(ss, r) < ss.len() ==> same_path(ss[repo_at_index(ss, r)].path, r),
        forall|j: int| 0 <= j < repo_at_index(ss, r) ==> !(same_path((#[trigger] ss[j]).path, r)),
        repo_at_index(ss, r) >= ss.len() <==> forall|j: int| 0 <= j < ss.len() ==> !(same_path((#[trigger] ss[j]).path, r)),
    decreases ss.len(),
{
    if ss.len() > 0 && !(same_path(ss[0].path, r)) {
        let t = ss.drop_first();
        lemma_repo_directory_lookup(t, r);
        assert forall|j: int| 0 <= j < repo_at_index(ss, r) implies !(same_path((#[trigger] ss[j]).path, r)) by {
            if j > 0 {
                assert(ss[j] == t[j - 1]);
            }
        }
        if repo_at_index(ss, r) < ss.len() {
            assert(ss[repo_at_index(ss, r)] == t[repo_at_index(t, r)]);
        } else {
            assert forall|j: int| 0 <= j < ss.len() implies !(same_path((#[trigger] ss[j]).path, r)) by {
                if j > 0 {
                    assert(ss[j] == t[j - 1]);
                }
            }
        }
    }
}

pub open spec fn repo_lookup(rs: Seq<RepoView>, reference: Option<Seq<char>>, cwd: Seq<char>) -> Result<
    RepoView,
    Seq<char>,
> {
    match reference {
        Some(r) => if repo_index(rs, r) < rs.len() {
            Ok(rs[repo_index(rs, r)])
        } else {
            Err(not_found_message("repository"@, r, "was not registered"@))
        },
        None => if repo_at_index(rs, cwd) < rs.len() {
            Ok(rs[repo_at_index(rs, cwd)])
        } else {
            Err(current_dir_message())
        },
    }
}

pub open spec fn current_dir_message() -> Seq<char> {
    "current directory is not a registered repository; pass a repository name or id"@
}

impl App {
    /// The vaults, listed by name.
    pub fn all_vaults(&self, vaults: Vec<Vault>) -> (res: Vec<Vault>)
        ensures
            views_of(res@) == stable_sort::<Vault>(views_of(vaults@)),
    {
        sort_stable(vaults)
    }

    /// The repositories, listed by name and then by path.
    pub fn all_repos(&self, repos: Vec<Repo>) -> (res: Vec<Repo>)
        ensures
            views_of(res@) == stable_sort::<Repo>(views_of(repos@)),
    {
        sort_stable(repos)
    }

    /// The known peers, listed by id.
    pub fn all_peers(&self, peers: Vec<Peer>) -> (res: Vec<Peer>)
        ensures
            views_of(res@) == stable_sort::<Peer>(views_of(peers@)),
    {
        sort_stable(peers)
    }

    /// The sessions, listed by creation time.
    pub fn all_sessions(&self, sessions: Vec<Session>) -> (res: Vec<Session>)
        ensures
            views_of(res@) == stable_sort::<Session>(views_of(sessions@)),
    {
        sort_stable(sessions)
    }

    /// The repository that `reference` names among `repos` (in their listed
    /// order), or without a reference the one whose working tree is the
    /// current directory `cwd`.
    pub fn find_repo(&self, repos: &Vec<Repo>, reference: Option<&str>, cwd: &str) -> (res: Result<
        Repo,
        AppError,
    >)
        ensures
            match res {
                Ok(found) => repo_lookup(views_of(repos@), text_opt(reference), cwd@) == Ok::<
                    RepoView,
                    Seq<char>,
                >(found@),
                Err(e) => repo_lookup(views_of(repos@), text_opt(reference), cwd@) == Err::<
                    RepoView,
                    Seq<char>,
                >(e@),
            },
            match reference {
                Some(r) => (res matches Ok(f) ==> f@.id == r@ || f@.name == r@ || same_path(f@.path, r@))
                    && (res is Err <==> forall|j: int|
                    0 <= j < repos@.len() ==> !((#[trigger] repos@[j])@.id == r@ || repos@[j]@.name == r@
                        || same_path(repos@[j]@.path, r@))),
                None => (res matches Ok(f) ==> same_path(f@.path, cwd@)) && (res is Err <==> forall|j: int|
                    0 <= j < repos@.len() ==> !same_path((#[trigger] repos@[j])@.path, cwd@)),
            },
    {
        let ghost rs = views_of(repos@);
        proof {
            assert(rs.len() == repos@.len());
            assert forall|j: int| 0 <= j < repos@.len() implies (#[trigger] repos@[j])@ == rs[j] by {
            }
            match reference {
                Some(r) => {
                    lemma_repo_reference_lookup(rs, r@);
                },
                None => {
                    lemma_repo_directory_lookup(rs, cwd@);
                },
            }
        }
        let mut i: usize = 0;
        assert(rs.skip(0) =~= rs);
        match reference {
            Some(r) => {
                while i < repos.len()
                    invariant
                        i <= rs.len(),
                        rs == views_of(repos@),
                        reference == Some(r),
                        repo_index(rs, r@) == i + repo_index(rs.skip(i as int), r@),
                    decreases repos.len() - i,
                {
                    assert(rs.skip(i as int)[0] == repos@[i as int]@);
                    let c = &repos[i];
                    if same_text(c.id.as_str(), r) || same_text(c.name.as_str(), r) || paths_equal(
                        c.path.as_str(),
                        r,
                    ) {
                        assert(repo_index(rs.skip(i as int), r@) == 0);
                        assert(repo_index(rs, r@) == i);
                        assert(rs[i as int] == repos@[i as int]@);
                        assert(text_opt(reference) == Some(r@));
                        let found = c.copied();
                        assert(repo_lookup(rs, text_opt(reference), cwd@) == Ok::<RepoView, Seq<char>>(found@));
                        return Ok(found);
                    }
                    assert(rs.skip(i as int).drop_first() =~= rs.skip(i + 1));
                    i = i + 1;
                }
                Err(not_found("repository", r, "was not registered"))
            },
            None => {
                while i < repos.len()
                    invariant
                        i <= rs.len(),
                        rs == views_of(repos@),
                        reference is None,
                        repo_at_index(rs, cwd@) == i + repo_at_index(rs.skip(i as int), cwd@),
                    decreases repos.len() - i,
                {
                    assert(rs.skip(i as int)[0] == repos@[i as int]@);
                    if paths_equal(repos[i].path.as_str(), cwd) {
                        assert(repo_at_index(rs.skip(i as int), cwd@) == 0);
                        assert(repo_at_index(rs, cwd@) == i);
                        assert(rs[i as int] == repos@[i as int]@);
                        let found = repos[i].copied();
                        assert(repo_lookup(rs, text_opt(reference), cwd@) == Ok::<RepoView, Seq<char>>(found@));
                        return Ok(found);
                    }
                    assert(rs.skip(i as int).drop_first() =~= rs.skip(i + 1));
                    i = i + 1;
                }
                Err(AppError::new(
                    "current directory is not a registered repository; pass a repository name or id",
                ))
            },
        }
    }

    /// The checkpoint `reference` among the checkpoints found in the vaults
    /// (each with its vault, in order), with its vault and its repository.
    pub fn find_checkpoint(
        &self,
        found: &Vec<(Vault, Checkpoint)>,
        repos: &Vec<Repo>,
        reference: &str,
    ) -> (res: Result<(Vault, Repo, Checkpoint), AppError>)
        ensures
            ({
                let fs = views_of(found@);
                let k = located_index(fs, reference@);
                if k < fs.len() {
                    match repo_lookup(views_of(repos@), Some(fs[k].1.repo_id), Seq::<char>::empty()) {
                        Ok(r) => res matches Ok(t) && t.0@ == fs[k].0 && t.1@ == r && t.2@ == fs[k].1,
                        Err(m) => res matches Err(e) && e@ == m,
                    }
                } else {
                    res matches Err(e) && e@ == not_found_message(
                        "checkpoint"@,
                        reference@,
                        "was not found"@,
                    )
                }
            }),
    {
        let ghost fs = views_of(found@);
        let mut i: usize = 0;
        assert(fs.skip(0) =~= fs);
        while i < found.len()
            invariant
                i <= fs.len(),
                fs == views_of(found@),
                located_index(fs, reference@) == i + located_index(fs.skip(i as int), reference@),
            decreases found.len() - i,
        {
            assert(fs.skip(i as int)[0] == found@[i as int]@);
            if same_text(found[i].1.id.as_str(), reference) {
                assert(located_index(fs.skip(i as int), reference@) == 0);
                assert(located_index(fs, reference@) == i);
                assert(fs[i as int] == (found@[i as int].0@, found@[i as int].1@));
                let cp = found[i].1.copied();
                let repo = self.find_repo(repos, Some(cp.repo_id.as_str()), "")?;
                let vault = found[i].0.copied();
                return Ok((vault, repo, cp));
            }
            assert(fs.skip(i as int).drop_first() =~= fs.skip(i + 1));
            i = i + 1;
        }
        Err(not_found("checkpoint", reference, "was not found"))
    }
}

impl SortKey for Checkpoint {
    /// Checkpoints are listed by creation time, compared as text.
    open spec fn key_before(a: CheckpointView, b: CheckpointView) -> bool {
        text_lt(a.created_at, b.created_at)
    }

    proof fn lemma_before_irreflexive(a: CheckpointView) {
        crate::text::lemma_text_lt_irreflexive(a.created_at);
    }

    proof fn lemma_before_transitive(a: CheckpointView, b: CheckpointView, c: CheckpointView) {
        crate::text::lemma_text_lt_transitive(a.created_at, b.created_at, c.created_at);
    }

    fn is_before(&self, other: &Self) -> (res: bool) {
        text_less(self.created_at.as_str(), other.created_at.as_str())
    }
}

/// The checkpoints of a vault, sorted by creation time.
pub fn checkpoints_for_vault(checkpoints: Vec<Checkpoint>) -> (res: Vec<Checkpoint>)
    ensures
        views_of(res@) == stable_sort::<Checkpoint>(views_of(checkpoints@)),
{
    sort_stable(checkpoints)
}

/// The checkpoints of the repository `repo_id` among `cps`, in order.
pub open spec fn of_repo(cps: Seq<CheckpointView>, repo_id: Seq<char>) -> Seq<CheckpointView>
    decreases cps.len(),
{
    if cps.len() == 0 {
        Seq::<CheckpointView>::empty()
    } else if cps.last().repo_id == repo_id {
        of_repo(cps.drop_last(), repo_id).push(cps.last())
    } else {
        of_repo(cps.drop_last(), repo_id)
    }
}

/// The checkpoints of a repository among `all`, sorted by creation time.
pub open spec fn repo_history(all: Seq<CheckpointView>, repo_id: Seq<char>) -> Seq<CheckpointView> {
    stable_sort::<Checkpoint>(of_repo(all, repo_id))
}

proof fn lemma_of_repo_facts(cps: Seq<CheckpointView>, repo_id: Seq<char>)
    ensures
        forall|k: int| 0 <= k < of_repo(cps, repo_id).len() ==> (#[trigger] of_repo(cps, repo_id)[k]).repo_id
            == repo_id,
        of_repo(cps, repo_id).len() == 0 <==> forall|i: int| 0 <= i < cps.len() ==> (#[trigger] cps[i]).repo_id
            != repo_id,
    decreases cps.len(),
{
    if cps.len() > 0 {
        let q = cps.drop_last();
        lemma_of_repo_facts(q, repo_id);
        if of_repo(cps, repo_id).len() == 0 {
            assert forall|i: int| 0 <= i < cps.len() implies (#[trigger] cps[i]).repo_id != repo_id by {
                if i < cps.len() - 1 {
                    assert(cps[i] == q[i]);
                }
            }
        } else if cps.last().repo_id != repo_id {
            let i = choose|i: int| 0 <= i < q.len() && (#[trigger] q[i]).repo_id == repo_id;
            assert(cps[i] == q[i]);
        }
    }
}

/// Every checkpoint in a repository's history is of that repository, and the
/// history is empty exactly when no checkpoint is.
pub proof fn lemma_repo_history_members(all: Seq<CheckpointView>, repo_id: Seq<char>)
    ensures
        forall|k: int| 0 <= k < repo_history(all, repo_id).len() ==> (#[trigger] repo_history(all, repo_id)[k]).repo_id
            == repo_id,
        repo_history(all, repo_id).len() == 0 <==> forall|i: int| 0 <= i < all.len() ==> (#[trigger] all[i]).repo_id
            != repo_id,
{
    broadcast use vstd::seq_lib::group_to_multiset_ensures;
    lemma_of_repo_facts(all, repo_id);
    crate::sorting::lemma_stable_sort_permutes::<Checkpoint>(of_repo(all, repo_id));
    let h = repo_history(all, repo_id);
    let o = of_repo(all, repo_id);
    assert forall|k: int| 0 <= k < h.len() implies (#[trigger] h[k]).repo_id == repo_id by {
        assert(h.contains(h[k]));
        assert(o.to_multiset().count(h[k]) > 0);
        assert(o.contains(h[k]));
        let j = choose|j: int| 0 <= j < o.len() && o[j] == h[k];
        assert(o[j].repo_id == repo_id);
    }
}

/// The checkpoints of a repository, out of all checkpoints of all vaults,
/// sorted by creation time.
pub fn checkpoints_for_repo(all: Vec<Checkpoint>, repo_id: &str) -> (res: Vec<Checkpoint>)
    ensures
        views_of(res@) == repo_history(views_of(all@), repo_id@),
{
    let ghost orig = views_of(all@);
    let mut input = all;
    let mut mine: Vec<Checkpoint> = Vec::new();
    let ghost mut k: int = 0;
    assert(orig.skip(0) =~= orig);
    assert(views_of(mine@) =~= of_repo(orig.take(0), repo_id@));
    while input.len() > 0
        invariant
            0 <= k <= orig.len(),
            views_of(input@) == orig.skip(k),
            views_of(mine@) == of_repo(orig.take(k), repo_id@),
        decreases input.len(),
    {
        let ghost before_input = input@;
        let c = input.remove(0);
        proof {
            assert(views_of(input@) =~= views_of(before_input).skip(1));
            assert(orig.skip(k).skip(1) =~= orig.skip(k + 1));
            assert(orig.take(k + 1).drop_last() =~= orig.take(k));
            assert(views_of(before_input)[0] == c@);
            assert(orig.skip(k)[0] == orig[k]);
            assert(orig.take(k + 1).last() == c@);
        }
        let ghost before_mine = mine@;
        if same_text(c.repo_id.as_str(), repo_id) {
            mine.push(c);
            assert(views_of(mine@) =~= views_of(before_mine).push(c@));
        }
        proof {
            k = k + 1;
        }
    }
    assert(orig.take(orig.len() as int) =~= orig);
    sort_stable(mine)
}

/// The most recent checkpoint of a repository: the last in creation order.
pub fn latest_checkpoint(all: Vec<Checkpoint>, repo_id: &str) -> (res: Result<Checkpoint, AppError>)
    ensures
        repo_history(views_of(all@), repo_id@).len() > 0 ==> (res matches Ok(c) && c@
            == repo_history(views_of(all@), repo_id@).last()),
        repo_history(views_of(all@), repo_id@).len() == 0 ==> (res matches Err(e) && e@
            == "repository has no checkpoints"@),
        res matches Ok(c) ==> c@.repo_id == repo_id@,
        res is Err <==> forall|i: int| 0 <= i < all@.len() ==> (#[trigger] all@[i])@.repo_id != repo_id@,
{
    proof {
        lemma_repo_history_members(views_of(all@), repo_id@);
        assert forall|i: int| 0 <= i < all@.len() implies ((#[trigger] all@[i])@.repo_id != repo_id@) == (
        views_of(all@)[i].repo_id != repo_id@) by {
        }
    }
    let mut sorted = checkpoints_for_repo(all, repo_id);
    let ghost before = sorted@;
    match sorted.pop() {
        Some(c) => {
            assert(views_of(before).last() == c@);
            Ok(c)
        },
        None => Err(AppError::new("repository has no checkpoints")),
    }
}

// ---------------------------------------------------------------------------
// Registering and removing repositories
// ---------------------------------------------------------------------------

/// The final name among the segments of a path: the last one that is
/// neither empty nor `.`; none when that is `..` or there is none.
pub open spec fn last_name(segs: Seq<Seq<char>>) -> Option<Seq<char>>
    decreases segs.len(),
{
    if segs.len() == 0 {
        None
    } else if segs.last().len() == 0 || segs.last() == "."@ {
        last_name(segs.drop_last())
    } else if segs.last() == ".."@ {
        None
    } else {
        Some(segs.last())
    }
}

/// The final name of a path, as `Path::file_name` gives it.
pub open spec fn file_name_of(path: Seq<char>) -> Option<Seq<char>> {
    last_name(crate::text::split_seq(path, '/'))
}

/// The final name of `path`.
pub fn file_name(path: &str) -> (res: Option<String>)
    ensures
        match res {
            Some(n) => file_name_of(path@) == Some(n@),
            None => file_name_of(path@) is None,
        },
{
    let segs = crate::text::split_on(path, '/');
    let ghost ss = segs.deep_view();
    let mut i = segs.len();
    assert(ss.take(i as int) =~= ss);
    while i > 0
        invariant
            i <= ss.len(),
            ss == segs.deep_view(),
            ss == crate::text::split_seq(path@, '/'),
            last_name(ss) == last_name(ss.take(i as int)),
        decreases i,
    {
        let seg = segs[i - 1].as_str();
        proof {
            assert(ss.take(i as int).last() == seg@);
            assert(ss.take(i as int).drop_last() =~= ss.take(i - 1));
        }
        if seg.is_empty() || same_text(seg, ".") {
            i = i - 1;
        } else if same_text(seg, "..") {
            assert(last_name(ss.take(i as int)) is None);
            return None;
        } else {
            let n = copy_str(seg);
            assert(last_name(ss.take(i as int)) == Some(n@));
            return Some(n);
        }
    }
    assert(ss.take(0) =~= Seq::<Seq<char>>::empty());
    None
}

/// The id of the repository whose working tree is at `path`.
pub open spec fn repo_id_of(path: Seq<char>) -> Seq<char> {
    "repo-"@ + stable_id_of(path)
}

/// Whether any of `repos` has the id `id`.
pub open spec fn has_repo_id(repos: Seq<Repo>, id: Seq<char>) -> bool {
    exists|i: int| 0 <= i < repos.len() && #[trigger] repos[i].id@ == id
}

fn holds_repo_id(repos: &Vec<Repo>, id: &str) -> (res: bool)
    ensures
        res == has_repo_id(repos@, id@),
{
    let mut i: usize = 0;
    while i < repos.len()
        invariant
            i <= repos@.len(),
            forall|j: int| 0 <= j < i ==> #[trigger] repos@[j].id@ != id@,
        decreases repos.len() - i,
    {
        if same_text(repos[i].id.as_str(), id) {
            assert(repos@[i as int].id@ == id@);
            return true;
        }
        i = i + 1;
    }
    false
}

/// Registers the working tree at `repo_path` (the canonical path, or the
/// error of finding it) in `vault` with the trust zone `zone`, at `now`:
/// the zone must be known, the path a git repository (`git_check`), with a
/// final name, and not registered among `repos` yet. Gives the repository
/// and its record.
pub fn add_repo(
    vault: &Vault,
    repos: &Vec<Repo>,
    repo_path: Result<String, AppError>,
    zone: &str,
    now: &str,
    git_check: Result<(), AppError>,
) -> (res: Result<(Repo, KvRecord), AppError>)
    ensures
        !crate::zones::trust_zones().contains(zone@) ==> (res matches Err(e) && e@
            == "invalid trust zone '"@ + zone@ + "'"@),
        crate::zones::trust_zones().contains(zone@) ==> match repo_path {
            Err(pe) => res matches Err(e) && e@ == pe@,
            Ok(p) => match git_check {
                Err(ge) => res matches Err(e) && e@ == ge@,
                Ok(_) => match file_name_of(p@) {
                    None => res matches Err(e) && e@ == "repository path has no final name"@,
                    Some(name) => if has_repo_id(repos@, repo_id_of(p@)) {
                        res matches Err(e) && e@ == "repository '"@ + p@ + "' is already registered"@
                    } else {
                        res matches Ok(r) && r.0@ == (RepoView {
                            id: repo_id_of(p@),
                            name,
                            path: p@,
                            vault_id: vault.id@,
                            trust_zone: zone@,
                            sync_state: "registered"@,
                            latest_checkpoint: Seq::<char>::empty(),
                            created_at: now@,
                        }) && r.1.path@ == path_join(
                            path_join(path_join(vault.path@, "metadata"@), "repos"@),
                            repo_id_of(p@),
                        ) && r.1.fields.deep_view() == repo_fields(r.0@)
                    },
                },
            },
        },
{
    if !crate::zones::is_valid_zone(zone) {
        let mut msg = copy_str("invalid trust zone '");
        msg.append(zone);
        msg.append("'");
        return Err(AppError::from_string(msg));
    }
    let path = repo_path?;
    git_check?;
    let name = match file_name(path.as_str()) {
        Some(n) => n,
        None => return Err(AppError::new("repository path has no final name")),
    };
    let mut id = copy_str("repo-");
    let h = stable_id(path.as_str());
    id.append(h.as_str());
    if holds_repo_id(repos, id.as_str()) {
        let mut msg = copy_str("repository '");
        msg.append(path.as_str());
        msg.append("' is already registered");
        return Err(AppError::from_string(msg));
    }
    let repo = Repo {
        id,
        name,
        path,
        vault_id: vault.id.clone(),
        trust_zone: copy_str(zone),
        sync_state: copy_str("registered"),
        latest_checkpoint: String::new(),
        created_at: copy_str(now),
    };
    let record = write_repo(vault, &repo);
    Ok((repo, record))
}

/// The record file to remove to unregister `repo` from its vault (found
/// among `vaults`); refused without `yes`. The working tree is kept.
pub fn remove_repo(app: &App, vaults: &Vec<Vault>, repo: &Repo, yes: bool) -> (res: Result<
    String,
    AppError,
>)
    ensures
        !yes ==> (res matches Err(e) && e@
            == "repository removal requires --yes; repository contents are preserved"@),
        yes && vault_index(vaults_view(vaults@), repo.vault_id@) < vaults@.len() ==> (res matches Ok(
            p,
        ) && p@ == path_join(
            path_join(
                path_join(vaults@[vault_index(vaults_view(vaults@), repo.vault_id@)].path@, "metadata"@),
                "repos"@,
            ),
            repo.id@,
        )),
        yes && vault_index(vaults_view(vaults@), repo.vault_id@) == vaults@.len() ==> (res matches Err(
            e,
        ) && e@ == not_found_message("vault"@, repo.vault_id@, "was not found"@)),
{
    if !yes {
        return Err(AppError::new("repository removal requires --yes; repository contents are preserved"));
    }
    let vault = app.find_vault(vaults, repo.vault_id.as_str())?;
    Ok(join3(vault.path.as_str(), "metadata", "repos", repo.id.as_str()))
}

/// The vault to delete, whose directory goes with all its checkpoints;
/// refused without `yes`.
pub fn delete_vault(app: &App, vaults: &Vec<Vault>, reference: &str, yes: bool) -> (res: Result<
    Vault,
    AppError,
>)
    ensures
        !yes ==> (res matches Err(e) && e@
            == "vault deletion requires --yes because checkpoints will be removed"@),
        yes && vault_index(vaults_view(vaults@), reference@) < vaults@.len() ==> (res matches Ok(v)
            && v@ == vaults@[vault_index(vaults_view(vaults@), reference@)]@),
        yes && vault_index(vaults_view(vaults@), reference@) == vaults@.len() ==> (res matches Err(
            e,
        ) && e@ == not_found_message("vault"@, reference@, "was not found"@)),
{
    if !yes {
        return Err(AppError::new("vault deletion requires --yes because checkpoints will be removed"));
    }
    app.find_vault(vaults, reference)
}

// ---------------------------------------------------------------------------
// Creating vaults
// ---------------------------------------------------------------------------

/// What creating a vault writes: the vault, the directories it needs, its
/// metadata record and its policy record.
#[derive(Debug)]
pub struct VaultPlan {
    pub vault: Vault,
    pub dirs: Vec<String>,
    pub metadata: KvRecord,
    pub policy: Option<KvRecord>,
}

/// The directory of the vault named `name`.
pub fn vault_path_for(app: &App, name: &str) -> (res: String)
    ensures
        res@ == path_join(path_join(app.home@, "vaults"@), "vault-"@ + stable_id_of(name@)),
{
    let id = crate::identity::vault_id(name);
    let dir = app.vaults_dir();
    join_path(dir.as_str(), id.as_str())
}

fn metadata_record(path: &str, id: &str, name: &str, created_at: &str, trust_status: &str) -> (res: KvRecord)
    ensures
        res.path@ == path_join(path_join(path@, "metadata"@), "vault"@),
        res.fields.deep_view() == seq![
            ("id"@, id@),
            ("name"@, name@),
            ("created_at"@, created_at@),
            ("trust_status"@, trust_status@),
        ],
{
    let fields = vec![
        kv_pair("id", id),
        kv_pair("name", name),
        kv_pair("created_at", created_at),
        kv_pair("trust_status", trust_status),
    ];
    assert(fields.deep_view() =~= seq![
        ("id"@, id@),
        ("name"@, name@),
        ("created_at"@, created_at@),
        ("trust_status"@, trust_status@),
    ]);
    KvRecord { path: join2(path, "metadata", "vault"), fields }
}

fn default_policy_record(path: &str) -> (res: KvRecord)
    ensures
        res.path@ == path_join(path_join(path@, "policies"@), "default.policy"@),
        res.fields.deep_view() == crate::models::policy_fields(
            crate::policies::default_policy_view(),
        ),
{
    let p = default_policy();
    KvRecord { path: join2(path, "policies", "default.policy"), fields: policy_record(&p) }
}

/// Creates the vault named `name` at time `now`, unless its directory
/// exists: a vault `vault-<stable id of name>` under the vaults directory,
/// with every vault subdirectory, metadata marking it locally trusted, and
/// the default policy.
pub fn create_vault(app: &App, name: &str, now: &str, path_exists: bool) -> (res: Result<
    VaultPlan,
    AppError,
>)
    ensures
        path_exists ==> (res matches Err(e) && e@ == "vault '"@ + name@ + "' already exists"@),
        !path_exists ==> (res matches Ok(plan) && {
            let id = "vault-"@ + stable_id_of(name@);
            let path = path_join(path_join(app.home@, "vaults"@), id);
            &&& plan.vault@ == (VaultView { id, name: name@, path, created_at: now@ })
            &&& plan.dirs.deep_view() == Seq::new(
                vault_subdirs().len(),
                |i: int| path_join(path, vault_subdirs()[i]),
            )
            &&& plan.metadata.path@ == path_join(path_join(path, "metadata"@), "vault"@)
            &&& plan.metadata.fields.deep_view() == seq![
                ("id"@, id),
                ("name"@, name@),
                ("created_at"@, now@),
                ("trust_status"@, "local-trusted"@),
            ]
            &&& plan.policy matches Some(p) && p.path@ == path_join(
                path_join(path, "policies"@),
                "default.policy"@,
            ) && p.fields.deep_view() == crate::models::policy_fields(
                crate::policies::default_policy_view(),
            )
        }),
{
    if path_exists {
        let mut msg = copy_str("vault '");
        msg.append(name);
        msg.append("' already exists");
        return Err(AppError::from_string(msg));
    }
    let id = crate::identity::vault_id(name);
    let path = vault_path_for(app, name);
    let dirs = vault_layout_dirs(path.as_str());
    let metadata = metadata_record(path.as_str(), id.as_str(), name, now, "local-trusted");
    let policy = default_policy_record(path.as_str());
    let vault = Vault { id, name: copy_str(name), path, created_at: copy_str(now) };
    Ok(VaultPlan { vault, dirs, metadata, policy: Some(policy) })
}

/// Makes room under a remote home for a replica of `source`. `stored` is
/// `None` when the replica directory does not exist yet, else what reading
/// its vault record gave. A new replica directory gets every vault
/// subdirectory, metadata marking it a shared replica created at `now`, and
/// the default policy, and the replica is the vault so written; an existing
/// one only gets its replication and synchronization directories, and the
/// replica is its stored vault.
pub fn ensure_remote_vault(
    remote_app: &App,
    source: &Vault,
    stored: Option<Result<Vault, AppError>>,
    now: &str,
) -> (res: Result<VaultPlan, AppError>)
    ensures
        ({
            let path = path_join(path_join(remote_app.home@, "vaults"@), source.id@);
            match stored {
                None => res matches Ok(plan) && {
                    &&& plan.vault@ == (VaultView {
                        id: source.id@,
                        name: source.name@,
                        path,
                        created_at: now@,
                    })
                    &&& plan.metadata.path@ == path_join(path_join(path, "metadata"@), "vault"@)
                    &&& plan.dirs.deep_view() == Seq::new(
                        vault_subdirs().len(),
                        |i: int| path_join(path, vault_subdirs()[i]),
                    )
                    &&& plan.metadata.fields.deep_view() == replica_metadata(source.id@, source.name@, now@)
                    &&& plan.policy matches Some(p) && p.fields.deep_view()
                        == crate::models::policy_fields(crate::policies::default_policy_view())
                },
                Some(Err(e)) => res matches Err(f) && f@ == e@,
                Some(Ok(v)) => res matches Ok(plan) && {
                    &&& plan.vault@ == v@
                    &&& plan.dirs.deep_view() == seq![
                        path_join(path, "replication"@),
                        path_join(path, "synchronization"@),
                    ]
                    &&& plan.metadata.path@ == path_join(path_join(path, "metadata"@), "vault"@)
                    &&& plan.metadata.fields@.len() == 0
                    &&& plan.policy is None
                },
            }
        }),
{
    let dir = remote_app.vaults_dir();
    let path = join_path(dir.as_str(), source.id.as_str());
    match stored {
        None => {
            let dirs = vault_layout_dirs(path.as_str());
            let metadata = metadata_record(
                path.as_str(),
                source.id.as_str(),
                source.name.as_str(),
                now,
                "shared-replica",
            );
            let policy = default_policy_record(path.as_str());
            let vault = Vault {
                id: source.id.clone(),
                name: source.name.clone(),
                path,
                created_at: copy_str(now),
            };
            Ok(VaultPlan { vault, dirs, metadata, policy: Some(policy) })
        },
        Some(Err(e)) => Err(e),
        Some(Ok(vault)) => {
            let dirs = vec![
                join_path(path.as_str(), "replication"),
                join_path(path.as_str(), "synchronization"),
            ];
            let ghost d = dirs.deep_view();
            assert(d =~= seq![path_join(path@, "replication"@), path_join(path@, "synchronization"@)]);
            let metadata = KvRecord { path: join2(path.as_str(), "metadata", "vault"), fields: Vec::new() };
            Ok(VaultPlan { vault, dirs, metadata, policy: None })
        },
    }
}

} // verus!
