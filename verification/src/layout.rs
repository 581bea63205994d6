//! Where gitp2p keeps things: paths under the home directory, a vault, and
//! the federation tree. Paths are strings joined as `Path::join` joins them
//! on Unix.
use vstd::prelude::*;

use crate::kv::{kv_pair, KvFields, KvRecord};
use crate::models::{Repo, Vault};
use crate::text::{chars_of, copy_str, lemma_split_len, same_text, split_on, split_seq};

verus! {

/// `base` joined with `part` as `Path::join` does on Unix: an absolute
/// `part` replaces `base`; otherwise a `/` separates them unless `base` is
/// empty or already ends with one.
pub open spec fn path_join(base: Seq<char>, part: Seq<char>) -> Seq<char> {
    if part.len() > 0 && part[0] == '/' {
        part
    } else if base.len() == 0 {
        part
    } else if base.last() == '/' {
        base + part
    } else {
        base + seq!['/'] + part
    }
}

/// `base` joined with `part`.
pub fn join_path(base: &str, part: &str) -> (res: String)
    ensures
        res@ == path_join(base@, part@),
{
    let p = chars_of(part);
    if p.len() > 0 && p[0] == '/' {
        return copy_str(part);
    }
    let b = chars_of(base);
    if b.len() == 0 {
        return copy_str(part);
    }
    let mut res = copy_str(base);
    proof {
        reveal_strlit("/");
    }
    assert(b@.last() == b@[b@.len() - 1]);
    if b[b.len() - 1] != '/' {
        res.append("/");
    }
    res.append(part);
    res
}

pub open spec fn federation_root_of(home: Seq<char>) -> Seq<char> {
    path_join(home, "federation"@)
}

/// The root of the federation tree.
pub fn federation_root(home: &str) -> (res: String)
    ensures
        res@ == federation_root_of(home@),
{
    join_path(home, "federation")
}

/// Where federation domains are stored.
pub fn domains_dir(home: &str) -> (res: String)
    ensures
        res@ == path_join(federation_root_of(home@), "domains"@),
{
    let root = federation_root(home);
    join_path(root.as_str(), "domains")
}

pub open spec fn gateways_dir_of(home: Seq<char>) -> Seq<char> {
    path_join(federation_root_of(home), "gateways"@)
}

/// Where gateways are stored.
pub fn gateways_dir(home: &str) -> (res: String)
    ensures
        res@ == gateways_dir_of(home@),
{
    let root = federation_root(home);
    join_path(root.as_str(), "gateways")
}

pub open spec fn peering_dir_of(home: Seq<char>) -> Seq<char> {
    path_join(federation_root_of(home), "peering"@)
}

/// Where peerings are stored.
pub fn peering_dir(home: &str) -> (res: String)
    ensures
        res@ == peering_dir_of(home@),
{
    let root = federation_root(home);
    join_path(root.as_str(), "peering")
}

/// Where trust delegations are stored.
pub fn delegations_dir(home: &str) -> (res: String)
    ensures
        res@ == path_join(federation_root_of(home@), "delegations"@),
{
    let root = federation_root(home);
    join_path(root.as_str(), "delegations")
}

pub open spec fn discovery_root_of(home: Seq<char>) -> Seq<char> {
    path_join(home, "discovery"@)
}

/// The root of the discovery cache.
pub fn discovery_root(home: &str) -> (res: String)
    ensures
        res@ == discovery_root_of(home@),
{
    join_path(home, "discovery")
}

/// Where global routes are stored.
pub fn global_routing_dir(home: &str) -> (res: String)
    ensures
        res@ == path_join(path_join(home@, "routing"@), "global"@),
{
    let routing = join_path(home, "routing");
    join_path(routing.as_str(), "global")
}

/// The directories that the federation tree needs, in the order in which
/// they are created.
pub fn federation_layout_dirs(home: &str) -> (res: Vec<String>)
    ensures
        res.deep_view() == seq![
            path_join(federation_root_of(home@), "domains"@),
            gateways_dir_of(home@),
            peering_dir_of(home@),
            path_join(federation_root_of(home@), "delegations"@),
            path_join(discovery_root_of(home@), "domains"@),
            path_join(discovery_root_of(home@), "gateways"@),
            path_join(discovery_root_of(home@), "vaults"@),
            path_join(discovery_root_of(home@), "replicas"@),
            path_join(path_join(home@, "routing"@), "global"@),
        ],
{
    let disc = discovery_root(home);
    let res = vec![
        domains_dir(home),
        gateways_dir(home),
        peering_dir(home),
        delegations_dir(home),
        join_path(disc.as_str(), "domains"),
        join_path(disc.as_str(), "gateways"),
        join_path(disc.as_str(), "vaults"),
        join_path(disc.as_str(), "replicas"),
        global_routing_dir(home),
    ];
    assert(res.deep_view() =~= seq![
        path_join(federation_root_of(home@), "domains"@),
        gateways_dir_of(home@),
        peering_dir_of(home@),
        path_join(federation_root_of(home@), "delegations"@),
        path_join(discovery_root_of(home@), "domains"@),
        path_join(discovery_root_of(home@), "gateways"@),
        path_join(discovery_root_of(home@), "vaults"@),
        path_join(discovery_root_of(home@), "replicas"@),
        path_join(path_join(home@, "routing"@), "global"@),
    ]);
    res
}

/// The exchange directory of a gateway.
pub fn exchange_dir(home: &str, gateway_id: &str) -> (res: String)
    ensures
        res@ == path_join(path_join(gateways_dir_of(home@), gateway_id@), "exchange"@),
{
    let gws = gateways_dir(home);
    let gw = join_path(gws.as_str(), gateway_id);
    join_path(gw.as_str(), "exchange")
}

/// A manifest that a gateway exchanges: the directory to create for its
/// kind, and the record of the manifest `name` there, whose fields are
/// `fields` followed by the time `updated_at` of the write.
pub fn write_exchange_manifest(
    home: &str,
    gateway_id: &str,
    kind: &str,
    name: &str,
    fields: &KvFields,
    updated_at: &str,
) -> (res: (String, KvRecord))
    ensures
        res.0@ == path_join(path_join(path_join(gateways_dir_of(home@), gateway_id@), "exchange"@), kind@),
        res.1.path@ == path_join(res.0@, name@),
        res.1.fields.deep_view() == fields.deep_view().push(("updated_at"@, updated_at@)),
{
    let ex = exchange_dir(home, gateway_id);
    let dir = join_path(ex.as_str(), kind);
    let path = join_path(dir.as_str(), name);
    let mut all: KvFields = Vec::new();
    let mut i: usize = 0;
    while i < fields.len()
        invariant
            i <= fields@.len(),
            all.deep_view() == fields.deep_view().take(i as int),
        decreases fields.len() - i,
    {
        let pair = kv_pair(fields[i].0.as_str(), fields[i].1.as_str());
        let ghost before = all.deep_view();
        assert(fields.deep_view()[i as int] == (fields@[i as int].0@, fields@[i as int].1@));
        all.push(pair);
        assert(all.deep_view() =~= before.push((pair.0@, pair.1@)));
        assert(all.deep_view() =~= fields.deep_view().take(i + 1));
        i = i + 1;
    }
    assert(fields.deep_view().take(fields@.len() as int) =~= fields.deep_view());
    let ghost before = all.deep_view();
    all.push(kv_pair("updated_at", updated_at));
    assert(all.deep_view() =~= before.push(("updated_at"@, updated_at@)));
    (dir, KvRecord { path, fields: all })
}

/// Where the TLS material of the local peer lives.
pub fn tls_dir(home: &str) -> (res: String)
    ensures
        res@ == path_join(home@, "tls"@),
{
    join_path(home, "tls")
}

/// The subdirectories that every vault holds, in the order of creation.
pub open spec fn vault_subdirs() -> Seq<Seq<char>> {
    seq![
        "metadata/repos"@,
        "metadata/checkpoints"@,
        "repositories"@,
        "checkpoints"@,
        "replication"@,
        "synchronization"@,
        "trust"@,
        "bundles"@,
        "policies/repos"@,
        "logs"@,
    ]
}

/// The directories that a vault at `vault_path` needs.
pub fn vault_layout_dirs(vault_path: &str) -> (res: Vec<String>)
    ensures
        res.deep_view() == Seq::new(
            vault_subdirs().len(),
            |i: int| path_join(vault_path@, vault_subdirs()[i]),
        ),
{
    let res = vec![
        join_path(vault_path, "metadata/repos"),
        join_path(vault_path, "metadata/checkpoints"),
        join_path(vault_path, "repositories"),
        join_path(vault_path, "checkpoints"),
        join_path(vault_path, "replication"),
        join_path(vault_path, "synchronization"),
        join_path(vault_path, "trust"),
        join_path(vault_path, "bundles"),
        join_path(vault_path, "policies/repos"),
        join_path(vault_path, "logs"),
    ];
    assert(res.deep_view() =~= Seq::new(
        vault_subdirs().len(),
        |i: int| path_join(vault_path@, vault_subdirs()[i]),
    ));
    res
}

/// `base`/`a`/`b`.
pub fn join2(base: &str, a: &str, b: &str) -> (res: String)
    ensures
        res@ == path_join(path_join(base@, a@), b@),
{
    let mid = join_path(base, a);
    join_path(mid.as_str(), b)
}

/// `base`/`a`/`b`/`c`.
pub fn join3(base: &str, a: &str, b: &str, c: &str) -> (res: String)
    ensures
        res@ == path_join(path_join(path_join(base@, a@), b@), c@),
{
    let mid = join2(base, a, b);
    join_path(mid.as_str(), c)
}

/// The bare mirror of a repository inside its vault.
pub fn mirror_path(vault: &Vault, repo: &Repo) -> (res: String)
    ensures
        res@ == path_join(path_join(vault.path@, "repositories"@), repo.id@ + ".git"@),
{
    let mut name = copy_str(repo.id.as_str());
    name.append(".git");
    join2(vault.path.as_str(), "repositories", name.as_str())
}

// ---------------------------------------------------------------------------
// Comparing paths
// ---------------------------------------------------------------------------

/// The pieces of a path that are components: all but empty pieces (from
/// repeated or trailing separators) and `.`.
pub open spec fn normal_parts(ps: Seq<Seq<char>>) -> Seq<Seq<char>>
    decreases ps.len(),
{
    if ps.len() == 0 {
        Seq::<Seq<char>>::empty()
    } else {
        let prev = normal_parts(ps.drop_last());
        if ps.last().len() == 0 || ps.last() == "."@ {
            prev
        } else {
            prev.push(ps.last())
        }
    }
}

/// Whether the path `p` starts at the root.
pub open spec fn path_has_root(p: Seq<char>) -> bool {
    p.len() > 0 && p[0] == '/'
}

/// Whether the path `p` starts with the component `.`.
pub open spec fn path_starts_here(p: Seq<char>) -> bool {
    split_seq(p, '/')[0] == "."@
}

/// Whether `a` and `b` name the same path as `Path` equality decides it on
/// Unix: both or neither start at the root, both or neither start with `.`,
/// and their other components are the same in order; repeated and trailing
/// separators and `.` components after the first do not count.
pub open spec fn same_path(a: Seq<char>, b: Seq<char>) -> bool {
    &&& path_has_root(a) == path_has_root(b)
    &&& path_starts_here(a) == path_starts_here(b)
    &&& normal_parts(split_seq(a, '/')) == normal_parts(split_seq(b, '/'))
}

fn components_of(p: &str) -> (res: Vec<String>)
    ensures
        res.deep_view() == normal_parts(split_seq(p@, '/')),
{
    let pieces = split_on(p, '/');
    let ghost ps = pieces.deep_view();
    let mut res: Vec<String> = Vec::new();
    let mut i: usize = 0;
    assert(ps.take(0) =~= Seq::<Seq<char>>::empty());
    while i < pieces.len()
        invariant
            i <= pieces@.len(),
            ps == pieces.deep_view(),
            res.deep_view() == normal_parts(ps.take(i as int)),
        decreases pieces.len() - i,
    {
        proof {
            assert(ps.take(i + 1).drop_last() =~= ps.take(i as int));
            assert(ps.take(i + 1).last() == pieces@[i as int]@);
        }
        let piece = pieces[i].as_str();
        if !piece.is_empty() && !same_text(piece, ".") {
            let ghost before = res.deep_view();
            res.push(copy_str(piece));
            assert(res.deep_view() =~= before.push(piece@));
        }
        i = i + 1;
    }
    assert(ps.take(ps.len() as int) =~= ps);
    res
}

fn same_texts(a: &Vec<String>, b: &Vec<String>) -> (res: bool)
    ensures
        res == (a.deep_view() == b.deep_view()),
{
    if a.len() != b.len() {
        assert(a.deep_view().len() != b.deep_view().len());
        return false;
    }
    let mut i: usize = 0;
    while i < a.len()
        invariant
            i <= a@.len(),
            a@.len() == b@.len(),
            forall|k: int| 0 <= k < i ==> a@[k]@ == b@[k]@,
        decreases a.len() - i,
    {
        if !same_text(a[i].as_str(), b[i].as_str()) {
            assert(a.deep_view()[i as int] != b.deep_view()[i as int]);
            return false;
        }
        i = i + 1;
    }
    assert(a.deep_view() =~= b.deep_view());
    true
}

fn path_facts(p: &str) -> (res: (bool, bool))
    ensures
        res.0 == path_has_root(p@),
        res.1 == path_starts_here(p@),
{
    let chars = chars_of(p);
    let root = chars.len() > 0 && chars[0] == '/';
    let pieces = split_on(p, '/');
    proof {
        lemma_split_len(p@, '/');
    }
    let here = same_text(pieces[0].as_str(), ".");
    (root, here)
}

/// Whether `a` and `b` name the same path, compared by components.
pub fn paths_equal(a: &str, b: &str) -> (res: bool)
    ensures
        res == same_path(a@, b@),
{
    let (ra, ha) = path_facts(a);
    let (rb, hb) = path_facts(b);
    if ra != rb || ha != hb {
        return false;
    }
    let ca = components_of(a);
    let cb = components_of(b);
    same_texts(&ca, &cb)
}

} // verus!
