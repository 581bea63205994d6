//! Peer records and the trust graph: which peers the local peer trusts,
//! propagating trust to a peer and requesting it.
use vstd::prelude::*;

use crate::error::AppError;
use crate::kv::{
    field, first_missing, kv_pair, missing_field_message, optional_field, stored_or_empty, KvFields,
    KvRecord,
};
use crate::layout::{join2, path_join};
use crate::models::{Peer, PeerView};
use crate::sorting::views_of;
use crate::text::{copy_str, decimal, decimal_string, parse_unsigned, parse_unsigned_exec, same_text};

verus! {

// ---------------------------------------------------------------------------
// Peer records
// ---------------------------------------------------------------------------

/// The fields that store a peer.
pub open spec fn peer_fields(p: PeerView) -> Seq<(Seq<char>, Seq<char>)> {
    seq![
        ("id"@, p.id),
        ("public_key"@, p.public_key),
        ("home"@, p.home),
        ("trust_state"@, p.trust_state),
        ("capabilities"@, p.capabilities),
        ("vaults"@, p.vaults),
        ("discovered_at"@, p.discovered_at),
        ("listen_port"@, decimal(p.listen_port as nat)),
    ]
}

/// The record that stores a peer under a home.
pub fn write_peer(home: &str, peer: &Peer) -> (res: KvRecord)
    ensures
        res.path@ == path_join(path_join(home@, "peers"@), peer.id@),
        res.fields.deep_view() == peer_fields(peer@),
{
    let port = decimal_string(peer.listen_port as u64);
    let fields = vec![
        kv_pair("id", peer.id.as_str()),
        kv_pair("public_key", peer.public_key.as_str()),
        kv_pair("home", peer.home.as_str()),
        kv_pair("trust_state", peer.trust_state.as_str()),
        kv_pair("capabilities", peer.capabilities.as_str()),
        kv_pair("vaults", peer.vaults.as_str()),
        kv_pair("discovered_at", peer.discovered_at.as_str()),
        kv_pair("listen_port", port.as_str()),
    ];
    assert(fields.deep_view() =~= peer_fields(peer@));
    KvRecord { path: join2(home, "peers", peer.id.as_str()), fields }
}

pub open spec fn peer_keys() -> Seq<Seq<char>> {
    seq!["id"@, "public_key"@, "home"@, "trust_state"@]
}

/// The port that a stored value gives: its number, or 0 when it is missing
/// or not a port number.
pub open spec fn stored_port(v: Seq<char>) -> u16 {
    match parse_unsigned(v, u16::MAX as int) {
        Some(n) => n as u16,
        None => 0,
    }
}

/// The peer that a stored record gives.
pub open spec fn peer_from_record(m: Seq<(Seq<char>, Seq<char>)>) -> PeerView {
    PeerView {
        id: stored_or_empty(m, "id"@),
        public_key: stored_or_empty(m, "public_key"@),
        home: stored_or_empty(m, "home"@),
        trust_state: stored_or_empty(m, "trust_state"@),
        capabilities: stored_or_empty(m, "capabilities"@),
        vaults: stored_or_empty(m, "vaults"@),
        discovered_at: stored_or_empty(m, "discovered_at"@),
        listen_port: stored_port(stored_or_empty(m, "listen_port"@)),
    }
}

/// The peer that a stored record gives; its id, key, home and trust state
/// are required.
pub fn read_peer(fields: &KvFields) -> (res: Result<Peer, AppError>)
    ensures
        match first_missing(fields.deep_view(), peer_keys()) {
            None => res matches Ok(p) && p@ == peer_from_record(fields.deep_view()),
            Some(k) => res matches Err(e) && e@ == missing_field_message(k),
        },
{
    let ghost ks = peer_keys();
    proof {
        reveal_with_fuel(first_missing, 5);
    }
    assert(ks[0] == "id"@ && ks[1] == "public_key"@ && ks[2] == "home"@ && ks[3] == "trust_state"@);
    assert(ks.skip(4).len() == 0);
    assert(ks.drop_first() =~= ks.skip(1));
    assert(ks.skip(1).drop_first() =~= ks.skip(2));
    assert(ks.skip(2).drop_first() =~= ks.skip(3));
    assert(ks.skip(3).drop_first() =~= ks.skip(4));
    let id = field(fields, "id")?;
    let public_key = field(fields, "public_key")?;
    let home = field(fields, "home")?;
    let trust_state = field(fields, "trust_state")?;
    let capabilities = optional_field(fields, "capabilities");
    let vaults = optional_field(fields, "vaults");
    let discovered_at = optional_field(fields, "discovered_at");
    let port_text = optional_field(fields, "listen_port");
    let listen_port: u16 = match parse_unsigned_exec(port_text.as_str(), 65535) {
        Some(n) => n as u16,
        None => 0,
    };
    Ok(Peer { id, public_key, home, trust_state, capabilities, vaults, discovered_at, listen_port })
}

/// Reading the stored text of a peer gives the peer back.
pub proof fn lemma_peer_store_roundtrip(r: PeerView)
    ensures
        first_missing(crate::kv::parse_seq(crate::kv::render_seq(peer_fields(r))), peer_keys()) is None,
        peer_from_record(crate::kv::parse_seq(crate::kv::render_seq(peer_fields(r)))) == r,
{
    reveal_strlit("id");
    reveal_strlit("public_key");
    reveal_strlit("home");
    reveal_strlit("trust_state");
    reveal_strlit("capabilities");
    reveal_strlit("vaults");
    reveal_strlit("discovered_at");
    reveal_strlit("listen_port");
    assert("id"@[0] == 'i' && "public_key"@[0] == 'p' && "home"@[0] == 'h' && "trust_state"@[0] == 't');
    assert("capabilities"@[0] == 'c' && "vaults"@[0] == 'v' && "discovered_at"@[0] == 'd' && "listen_port"@[0] == 'l');
    let f = peer_fields(r);
    assert forall|i: int| 0 <= i < f.len() implies crate::kv::storable_key(#[trigger] f[i].0) by {
    }
    crate::kv::lemma_parse_render(f);
    reveal_with_fuel(crate::kv::kv_lookup, 9);
    reveal_with_fuel(first_missing, 6);
    let ks = peer_keys();
    assert(ks.drop_first() =~= ks.skip(1));
    assert(ks.skip(1).drop_first() =~= ks.skip(2));
    assert(ks.skip(2).drop_first() =~= ks.skip(3));
    assert(ks.skip(3).drop_first() =~= ks.skip(4));
    assert(f.drop_last() =~= f.take(7));
    assert(f.take(7).drop_last() =~= f.take(6));
    assert(f.take(6).drop_last() =~= f.take(5));
    assert(f.take(5).drop_last() =~= f.take(4));
    assert(f.take(4).drop_last() =~= f.take(3));
    assert(f.take(3).drop_last() =~= f.take(2));
    assert(f.take(2).drop_last() =~= f.take(1));
    assert(f.take(1).drop_last() =~= f.take(0));
    assert(f.take(1).last() == f[0]);
    assert(f.take(2).last() == f[1]);
    assert(f.take(3).last() == f[2]);
    assert(f.take(4).last() == f[3]);
    assert(f.take(5).last() == f[4]);
    assert(f.take(6).last() == f[5]);
    assert(f.take(7).last() == f[6]);
    assert(crate::kv::kv_lookup(f, "listen_port"@) == Some(decimal(r.listen_port as nat)));
    assert(crate::kv::kv_lookup(f, "discovered_at"@) == Some(r.discovered_at));
    assert(crate::kv::kv_lookup(f, "vaults"@) == Some(r.vaults));
    assert(crate::kv::kv_lookup(f, "capabilities"@) == Some(r.capabilities));
    assert(crate::kv::kv_lookup(f, "trust_state"@) == Some(r.trust_state));
    assert(crate::kv::kv_lookup(f, "home"@) == Some(r.home));
    assert(crate::kv::kv_lookup(f, "public_key"@) == Some(r.public_key));
    assert(crate::kv::kv_lookup(f, "id"@) == Some(r.id));
    crate::text::lemma_decimal_parses(r.listen_port as nat, u16::MAX as int);
}

// ---------------------------------------------------------------------------
// The trust graph
// ---------------------------------------------------------------------------

/// A peer in the local peer's trust graph: trusted, or trusted read-only.
pub open spec fn in_trust_graph(p: PeerView) -> bool {
    p.trust_state == "trusted"@ || p.trust_state == "readonly"@
}

/// The ids that the local peer trusts, each once, in the order in which they
/// first occur.
pub open spec fn graph_peers(ps: Seq<PeerView>) -> Seq<Seq<char>>
    decreases ps.len(),
{
    if ps.len() == 0 {
        Seq::<Seq<char>>::empty()
    } else {
        let prev = graph_peers(ps.drop_last());
        if in_trust_graph(ps.last()) && !prev.contains(ps.last().id) {
            prev.push(ps.last().id)
        } else {
            prev
        }
    }
}

/// The trust graph names each peer once.
pub proof fn lemma_graph_peers_distinct(ps: Seq<PeerView>)
    ensures
        graph_peers(ps).no_duplicates(),
    decreases ps.len(),
{
    if ps.len() > 0 {
        lemma_graph_peers_distinct(ps.drop_last());
    }
}

/// The trust graph names exactly the trusted and read-only peers.
pub proof fn lemma_graph_peers_members(ps: Seq<PeerView>, id: Seq<char>)
    ensures
        graph_peers(ps).contains(id) <==> exists|i: int|
            0 <= i < ps.len() && in_trust_graph(#[trigger] ps[i]) && ps[i].id == id,
    decreases ps.len(),
{
    if ps.len() > 0 {
        let q = ps.drop_last();
        let prev = graph_peers(q);
        lemma_graph_peers_members(q, id);
        let x = ps.last();
        assert(ps[ps.len() - 1] == x);
        if prev.contains(id) {
            let k = choose|k: int| 0 <= k < prev.len() && prev[k] == id;
            if in_trust_graph(x) && !prev.contains(x.id) {
                assert(prev.push(x.id)[k] == id);
            }
            let i = choose|i: int| 0 <= i < q.len() && in_trust_graph(#[trigger] q[i]) && q[i].id == id;
            assert(ps[i] == q[i]);
        } else {
            if exists|i: int| 0 <= i < ps.len() && in_trust_graph(#[trigger] ps[i]) && ps[i].id == id {
                let i = choose|i: int| 0 <= i < ps.len() && in_trust_graph(#[trigger] ps[i]) && ps[i].id == id;
                if i < q.len() {
                    assert(q[i] == ps[i]);
                }
                assert(i == ps.len() - 1);
                assert(prev.push(x.id)[prev.len() as int] == id);
            }
            if graph_peers(ps).contains(id) {
                let k = choose|k: int| 0 <= k < graph_peers(ps).len() && graph_peers(ps)[k] == id;
                if k < prev.len() {
                    assert(graph_peers(ps)[k] == prev[k]);
                }
            }
        }
    }
}

fn holds_text(v: &Vec<String>, s: &str) -> (res: bool)
    ensures
        res == v.deep_view().contains(s@),
{
    let mut i: usize = 0;
    while i < v.len()
        invariant
            i <= v@.len(),
            forall|j: int| 0 <= j < i ==> v.deep_view()[j] != s@,
        decreases v.len() - i,
    {
        if same_text(v[i].as_str(), s) {
            assert(v.deep_view()[i as int] == s@);
            return true;
        }
        i = i + 1;
    }
    false
}

/// The peers that the local peer trusts: the trusted and read-only peers
/// among `peers`, each once.
pub fn trust_graph(peers: &Vec<Peer>) -> (res: Vec<String>)
    ensures
        res.deep_view() == graph_peers(views_of(peers@)),
        res.deep_view().no_duplicates(),
{
    let ghost ps = views_of(peers@);
    let mut ids: Vec<String> = Vec::new();
    let mut i: usize = 0;
    assert(ps.take(0) =~= Seq::<PeerView>::empty());
    assert(ids.deep_view() =~= graph_peers(ps.take(0)));
    while i < peers.len()
        invariant
            i <= ps.len(),
            ps == views_of(peers@),
            ids.deep_view() == graph_peers(ps.take(i as int)),
        decreases peers.len() - i,
    {
        proof {
            assert(ps.take(i + 1).drop_last() =~= ps.take(i as int));
            assert(ps.take(i + 1).last() == peers@[i as int]@);
        }
        let p = &peers[i];
        let member = same_text(p.trust_state.as_str(), "trusted") || same_text(
            p.trust_state.as_str(),
            "readonly",
        );
        if member && !holds_text(&ids, p.id.as_str()) {
            let ghost before = ids.deep_view();
            ids.push(p.id.clone());
            assert(ids.deep_view() =~= before.push(p.id@));
        }
        i = i + 1;
    }
    assert(ps.take(ps.len() as int) =~= ps);
    proof {
        lemma_graph_peers_distinct(ps);
    }
    ids
}

/// The edges from `from` to each of `tos`, a line each.
pub open spec fn edge_lines(from: Seq<char>, tos: Seq<Seq<char>>) -> Seq<char>
    decreases tos.len(),
{
    if tos.len() == 0 {
        Seq::<char>::empty()
    } else {
        edge_lines(from, tos.drop_last()) + "  "@ + from + " -> "@ + tos.last() + "\n"@
    }
}

/// The trust graph as text: a header, then an edge from the local peer to
/// each peer it trusts.
pub fn format_trust_graph(local_peer_id: &str, peers: &Vec<Peer>) -> (res: String)
    ensures
        res@ == "trust-graph:\n"@ + edge_lines(local_peer_id@, graph_peers(views_of(peers@))),
{
    let ids = trust_graph(peers);
    let ghost tos = ids.deep_view();
    let mut out = copy_str("trust-graph:\n");
    let ghost head = out@;
    let mut i: usize = 0;
    assert(tos.take(0) =~= Seq::<Seq<char>>::empty());
    assert(out@ =~= head + edge_lines(local_peer_id@, tos.take(0)));
    while i < ids.len()
        invariant
            i <= tos.len(),
            tos == ids.deep_view(),
            out@ == head + edge_lines(local_peer_id@, tos.take(i as int)),
        decreases ids.len() - i,
    {
        proof {
            assert(tos.take(i + 1).drop_last() =~= tos.take(i as int));
            assert(tos.take(i + 1).last() == ids@[i as int]@);
        }
        out.append("  ");
        out.append(local_peer_id);
        out.append(" -> ");
        out.append(ids[i].as_str());
        out.append("\n");
        assert(out@ =~= head + edge_lines(local_peer_id@, tos.take(i + 1)));
        i = i + 1;
    }
    assert(tos.take(tos.len() as int) =~= tos);
    out
}

// ---------------------------------------------------------------------------
// Propagating and requesting trust
// ---------------------------------------------------------------------------

/// The trust state a peer has after trust is propagated to it: an untrusted
/// peer becomes pending, any other keeps its state.
pub open spec fn propagated_state(state: Seq<char>) -> Seq<char> {
    if state == "untrusted"@ {
        "pending"@
    } else {
        state
    }
}

/// Propagates trust from `from` to the peer `to`, whose record gave `peer`:
/// the peer as it is to be stored, and the trust-graph record written at
/// `updated_at`.
pub fn propagate_trust(home: &str, from: &str, to: &str, peer: Peer, updated_at: &str) -> (res: (
    Peer,
    KvRecord,
))
    ensures
        res.0@ == (PeerView { trust_state: propagated_state(peer.trust_state@), ..peer@ }),
        res.1.path@ == path_join(path_join(home@, "trust-graph"@), from@ + "-"@ + to@),
        res.1.fields.deep_view() == seq![
            ("from"@, from@),
            ("to"@, to@),
            ("state"@, propagated_state(peer.trust_state@)),
            ("updated_at"@, updated_at@),
        ],
{
    let mut peer = peer;
    if same_text(peer.trust_state.as_str(), "untrusted") {
        peer.trust_state = copy_str("pending");
    }
    let mut name = copy_str(from);
    name.append("-");
    name.append(to);
    let fields = vec![
        kv_pair("from", from),
        kv_pair("to", to),
        kv_pair("state", peer.trust_state.as_str()),
        kv_pair("updated_at", updated_at),
    ];
    let ghost st = peer.trust_state@;
    assert(fields.deep_view() =~= seq![
        ("from"@, from@),
        ("to"@, to@),
        ("state"@, st),
        ("updated_at"@, updated_at@),
    ]);
    let record = KvRecord { path: join2(home, "trust-graph", name.as_str()), fields };
    (peer, record)
}

/// The record of a pending request for the trust of `peer`, made at
/// `requested_at`.
pub fn request_trust(home: &str, peer: &Peer, requested_at: &str) -> (res: KvRecord)
    ensures
        res.path@ == path_join(path_join(home@, "trust-requests"@), peer.id@),
        res.fields.deep_view() == seq![
            ("peer_id"@, peer.id@),
            ("public_key"@, peer.public_key@),
            ("state"@, "pending"@),
            ("requested_at"@, requested_at@),
        ],
{
    let fields = vec![
        kv_pair("peer_id", peer.id.as_str()),
        kv_pair("public_key", peer.public_key.as_str()),
        kv_pair("state", "pending"),
        kv_pair("requested_at", requested_at),
    ];
    assert(fields.deep_view() =~= seq![
        ("peer_id"@, peer.id@),
        ("public_key"@, peer.public_key@),
        ("state"@, "pending"@),
        ("requested_at"@, requested_at@),
    ]);
    KvRecord { path: join2(home, "trust-requests", peer.id.as_str()), fields }
}

} // verus!
