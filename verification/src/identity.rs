//! Identifiers of peers, vaults, checkpoints, domains, gateways, peerings,
//! delegations, routes and lineages.
use vstd::prelude::*;
use vstd::string::StringSliceAdditionalSpecFns;
use vstd::utf8::{encode_utf8, is_char_boundary};

use crate::digest::{sha256_hex, sha256_hex16};
use crate::error::AppError;
use crate::kv::{kv_pair, KvFields, KvRecord};
use crate::layout::{join_path, path_join};
use crate::models::Identity;
use crate::text::copy_str;
use crate::util::{stable_id, stable_id_of};

verus! {

/// The byte length up to which `&s[..n.min(len)]` cuts `s`.
pub open spec fn cut_len(s: Seq<char>, n: int) -> int {
    if encode_utf8(s).len() < n {
        encode_utf8(s).len() as int
    } else {
        n
    }
}

/// `&s[..n.min(s.len())]` cuts `s` on a character boundary, as it must
/// to not panic.
pub open spec fn cuttable(s: Seq<char>, n: int) -> bool {
    is_char_boundary(encode_utf8(s), cut_len(s, n))
}

/// `s` cut after at most `n` bytes, as `&s[..n.min(s.len())]` does.
pub fn byte_prefix(s: &str, n: usize) -> (res: &str)
    requires
        cuttable(s@, n as int),
    ensures
        encode_utf8(res@) == encode_utf8(s@).subrange(0, cut_len(s@, n as int)),
{
    assert(s.spec_bytes() == encode_utf8(s@));
    let byte_len = s.as_bytes().len();
    if byte_len < n {
        assert(encode_utf8(s@).subrange(0, encode_utf8(s@).len() as int) =~= encode_utf8(s@));
        assert(cut_len(s@, n as int) == encode_utf8(s@).len());
        s
    } else {
        let (head, _tail) = s.split_at(n);
        assert(head.spec_bytes() == encode_utf8(head@));
        assert(cut_len(s@, n as int) == n);
        assert(encode_utf8(head@) == encode_utf8(s@).subrange(0, n as int));
        head
    }
}

/// `prefix` followed by the first 16 hexadecimal digits of the SHA-256
/// digest of `text`.
pub open spec fn hashed_id(prefix: Seq<char>, text: Seq<char>) -> Seq<char> {
    prefix + sha256_hex(text).take(16)
}

/// The peer identifier derived from a public key.
pub fn peer_id_from_key(public_key: &str) -> (res: String)
    ensures
        res@ == hashed_id("peer-"@, public_key@),
{
    let mut res = String::new();
    res.append("peer-");
    let h = sha256_hex16(public_key);
    res.append(h.as_str());
    res
}

/// The identifier of the vault named `name`.
pub fn vault_id(name: &str) -> (res: String)
    ensures
        res@ == "vault-"@ + stable_id_of(name@),
{
    let mut res = String::new();
    res.append("vault-");
    let id = stable_id(name);
    res.append(id.as_str());
    res
}

/// The identifier of a checkpoint of `commit` taken at time `now`:
/// `cp-`, the time, `-`, and the commit's first eight bytes.
pub fn checkpoint_id(commit: &str, repo_id: &str, now: &str) -> (res: String)
    requires
        cuttable(commit@, 8),
    ensures
        exists|head: Seq<char>|
            encode_utf8(head) == encode_utf8(commit@).subrange(0, cut_len(commit@, 8)) && res@
                == "cp-"@ + now@ + "-"@ + head,
{
    let head = byte_prefix(commit, 8);
    let mut res = String::new();
    res.append("cp-");
    res.append(now);
    res.append("-");
    res.append(head);
    res
}

/// The identifier of a lineage chain.
pub fn lineage_id(chain: &str) -> (res: String)
    ensures
        res@ == hashed_id("ln-"@, chain@),
{
    let mut res = String::new();
    res.append("ln-");
    let h = sha256_hex16(chain);
    res.append(h.as_str());
    res
}

/// The identifier of the domain named `name`.
pub fn domain_id(name: &str) -> (res: String)
    ensures
        res@ == "domain-"@ + stable_id_of(name@),
{
    let mut res = String::new();
    res.append("domain-");
    let id = stable_id(name);
    res.append(id.as_str());
    res
}

/// `a`, a colon, `b`.
fn colon_joined(a: &str, b: &str) -> (res: String)
    ensures
        res@ == a@ + ":"@ + b@,
{
    let mut res = String::new();
    res.append(a);
    res.append(":");
    res.append(b);
    res
}

/// The identifier of the gateway of `domain_id` listening on `listen_addr`.
pub fn gateway_id(domain_id: &str, listen_addr: &str) -> (res: String)
    ensures
        res@ == hashed_id("gw-"@, domain_id@ + ":"@ + listen_addr@),
{
    let text = colon_joined(domain_id, listen_addr);
    let mut res = String::new();
    res.append("gw-");
    let h = sha256_hex16(text.as_str());
    res.append(h.as_str());
    res
}

/// The identifier of the peering between two domains: `peer-`, the first
/// eight bytes of each domain identifier, joined by `-`.
pub fn peering_id(local_domain: &str, remote_domain: &str) -> (res: String)
    requires
        cuttable(local_domain@, 8),
        cuttable(remote_domain@, 8),
    ensures
        exists|a: Seq<char>, b: Seq<char>|
            encode_utf8(a) == encode_utf8(local_domain@).subrange(0, cut_len(local_domain@, 8))
                && encode_utf8(b) == encode_utf8(remote_domain@).subrange(
                0,
                cut_len(remote_domain@, 8),
            ) && res@ == "peer-"@ + a + "-"@ + b,
{
    let a = byte_prefix(local_domain, 8);
    let b = byte_prefix(remote_domain, 8);
    let mut res = String::new();
    res.append("peer-");
    res.append(a);
    res.append("-");
    res.append(b);
    res
}

/// The identifier of a delegation from `source` to `target`.
pub fn delegation_id(source: &str, target: &str) -> (res: String)
    ensures
        res@ == hashed_id("del-"@, source@ + ":"@ + target@),
{
    let text = colon_joined(source, target);
    let mut res = String::new();
    res.append("del-");
    let h = sha256_hex16(text.as_str());
    res.append(h.as_str());
    res
}

/// The identifier of a route to `destination` over `hops`.
pub fn federation_route_id(destination: &str, hops: &str) -> (res: String)
    ensures
        res@ == hashed_id("route-"@, destination@ + ":"@ + hops@),
{
    let text = colon_joined(destination, hops);
    let mut res = String::new();
    res.append("route-");
    let h = sha256_hex16(text.as_str());
    res.append(h.as_str());
    res
}

/// Accepts a claimed peer identifier for a public key. A claim that neither
/// holds the key's digest part nor equals the derived identifier is refused
/// only when it is empty; as the derived identifier is never empty, the
/// outcome is: refused exactly when the claim is empty.
pub fn verify_peer_id(public_key: &str, expected_peer_id: &str) -> (res: Result<(), AppError>)
    ensures
        res is Err <==> expected_peer_id@.len() == 0,
        res matches Err(e) ==> e@ == "empty peer id"@,
{
    let digest_part = sha256_hex16(public_key);
    let mut derived = String::new();
    derived.append("peer-");
    derived.append(digest_part.as_str());
    proof {
        crate::digest::lemma_hex_bytes_len(crate::digest::sha256_of(encode_utf8(public_key@)));
    }
    if !crate::text::contains_text(expected_peer_id, digest_part.as_str())
        && !crate::text::same_text(expected_peer_id, derived.as_str()) {
        if expected_peer_id.is_empty() {
            return Err(AppError::new("empty peer id"));
        }
    } else {
        proof {
            if expected_peer_id@.len() == 0 {
                // an empty claim holds no non-empty part and differs from the derived id
                if crate::text::text_contains(expected_peer_id@, digest_part@) {
                    let i = choose|i: int|
                        0 <= i && i + digest_part@.len() <= expected_peer_id@.len()
                            && #[trigger] expected_peer_id@.subrange(i, i + digest_part@.len())
                            == digest_part@;
                }
                assert(derived@.len() > 0) by {
                    reveal_strlit("peer-");
                }
            }
        }
    }
    Ok(())
}

/// The stored fields of an identity.
pub fn identity_fields(identity: &Identity) -> (res: KvFields)
    ensures
        res.deep_view() == seq![
            ("peer_id"@, identity.peer_id@),
            ("public_key"@, identity.public_key@),
            ("private_key"@, identity.private_key@),
            ("fingerprint"@, identity.fingerprint@),
            ("created_at"@, identity.created_at@),
        ],
{
    let res = vec![
        kv_pair("peer_id", identity.peer_id.as_str()),
        kv_pair("public_key", identity.public_key.as_str()),
        kv_pair("private_key", identity.private_key.as_str()),
        kv_pair("fingerprint", identity.fingerprint.as_str()),
        kv_pair("created_at", identity.created_at.as_str()),
    ];
    assert(res.deep_view() =~= seq![
        ("peer_id"@, identity.peer_id@),
        ("public_key"@, identity.public_key@),
        ("private_key"@, identity.private_key@),
        ("fingerprint"@, identity.fingerprint@),
        ("created_at"@, identity.created_at@),
    ]);
    res
}

/// The record that exports an identity to `dest`.
pub fn export_identity(identity: &Identity, dest: &str) -> (res: KvRecord)
    ensures
        res.path@ == dest@,
        res.fields.deep_view() == seq![
            ("peer_id"@, identity.peer_id@),
            ("public_key"@, identity.public_key@),
            ("private_key"@, identity.private_key@),
            ("fingerprint"@, identity.fingerprint@),
            ("created_at"@, identity.created_at@),
        ],
{
    KvRecord { path: copy_str(dest), fields: identity_fields(identity) }
}

/// Imports an identity into a home: the identity, and the record that stores
/// it as the home's identity.
pub fn import_identity(home: &str, identity: Identity) -> (res: (Identity, KvRecord))
    ensures
        res.0 == identity,
        res.1.path@ == path_join(home@, "identity"@),
        res.1.fields.deep_view() == seq![
            ("peer_id"@, identity.peer_id@),
            ("public_key"@, identity.public_key@),
            ("private_key"@, identity.private_key@),
            ("fingerprint"@, identity.fingerprint@),
            ("created_at"@, identity.created_at@),
        ],
{
    let record = KvRecord { path: join_path(home, "identity"), fields: identity_fields(&identity) };
    (identity, record)
}

} // verus!
