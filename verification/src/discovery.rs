//! Discovery of federation domains, gateways, vaults and replicas: what is
//! known locally together with what peerings, gateway exchanges and
//! replication records add, listed once per id in id order, with the cache
//! entries that record each discovery.
use vstd::prelude::*;

use crate::kv::{kv_pair, optional_field, stored_or_empty, KvFields, KvRecord};
use crate::layout::{discovery_root, discovery_root_of, join_path, path_join};
use crate::models::{
    FederationDomain, FederationDomainView, Gateway, GatewayView, Peering, PeeringView, Vault,
};
use crate::sorting::{
    sort_unique, sorted_unique, strictly_sorted, views_of, DedupKey, OrderedKey, SortKey,
};
use crate::text::{copy_str, lemma_text_lt_irreflexive, lemma_text_lt_transitive, same_text, text_less, text_lt};

verus! {

/// Something discovered: its id, its kind and where it was found.
#[derive(Clone, Debug)]
pub struct DiscoveryEntry {
    pub id: String,
    pub kind: String,
    pub source: String,
}

pub struct DiscoveryEntryView {
    pub id: Seq<char>,
    pub kind: Seq<char>,
    pub source: Seq<char>,
}

impl View for DiscoveryEntry {
    type V = DiscoveryEntryView;

    open spec fn view(&self) -> DiscoveryEntryView {
        DiscoveryEntryView { id: self.id@, kind: self.kind@, source: self.source@ }
    }
}

pub open spec fn entry_of(id: Seq<char>, kind: Seq<char>, source: Seq<char>) -> DiscoveryEntryView {
    DiscoveryEntryView { id, kind, source }
}

fn new_entry(id: &str, kind: &str, source: &str) -> (res: DiscoveryEntry)
    ensures
        res@ == entry_of(id@, kind@, source@),
{
    DiscoveryEntry { id: copy_str(id), kind: copy_str(kind), source: copy_str(source) }
}

impl SortKey for DiscoveryEntry {
    /// Entries are listed by id.
    open spec fn key_before(a: DiscoveryEntryView, b: DiscoveryEntryView) -> bool {
        text_lt(a.id, b.id)
    }

    proof fn lemma_before_irreflexive(a: DiscoveryEntryView) {
        lemma_text_lt_irreflexive(a.id);
    }

    proof fn lemma_before_transitive(a: DiscoveryEntryView, b: DiscoveryEntryView, c: DiscoveryEntryView) {
        lemma_text_lt_transitive(a.id, b.id, c.id);
    }

    fn is_before(&self, other: &Self) -> (res: bool) {
        text_less(self.id.as_str(), other.id.as_str())
    }
}

impl DedupKey for DiscoveryEntry {
    /// Entries with one id are one discovery.
    open spec fn key_same(a: DiscoveryEntryView, b: DiscoveryEntryView) -> bool {
        a.id == b.id
    }

    fn is_same(&self, other: &Self) -> (res: bool) {
        same_text(self.id.as_str(), other.id.as_str())
    }
}

impl OrderedKey for DiscoveryEntry {
    open spec fn order_key(a: DiscoveryEntryView) -> Seq<char> {
        a.id
    }

    proof fn lemma_order_key(a: DiscoveryEntryView, b: DiscoveryEntryView) {
    }
}

impl SortKey for FederationDomain {
    /// Domains are listed by id.
    open spec fn key_before(a: FederationDomainView, b: FederationDomainView) -> bool {
        text_lt(a.id, b.id)
    }

    proof fn lemma_before_irreflexive(a: FederationDomainView) {
        lemma_text_lt_irreflexive(a.id);
    }

    proof fn lemma_before_transitive(a: FederationDomainView, b: FederationDomainView, c: FederationDomainView) {
        lemma_text_lt_transitive(a.id, b.id, c.id);
    }

    fn is_before(&self, other: &Self) -> (res: bool) {
        text_less(self.id.as_str(), other.id.as_str())
    }
}

impl DedupKey for FederationDomain {
    /// Domains with one id are one domain.
    open spec fn key_same(a: FederationDomainView, b: FederationDomainView) -> bool {
        a.id == b.id
    }

    fn is_same(&self, other: &Self) -> (res: bool) {
        same_text(self.id.as_str(), other.id.as_str())
    }
}

impl OrderedKey for FederationDomain {
    open spec fn order_key(a: FederationDomainView) -> Seq<char> {
        a.id
    }

    proof fn lemma_order_key(a: FederationDomainView, b: FederationDomainView) {
    }
}

impl SortKey for Gateway {
    /// Gateways are listed by id.
    open spec fn key_before(a: GatewayView, b: GatewayView) -> bool {
        text_lt(a.id, b.id)
    }

    proof fn lemma_before_irreflexive(a: GatewayView) {
        lemma_text_lt_irreflexive(a.id);
    }

    proof fn lemma_before_transitive(a: GatewayView, b: GatewayView, c: GatewayView) {
        lemma_text_lt_transitive(a.id, b.id, c.id);
    }

    fn is_before(&self, other: &Self) -> (res: bool) {
        text_less(self.id.as_str(), other.id.as_str())
    }
}

impl DedupKey for Gateway {
    /// Gateways with one id are one gateway.
    open spec fn key_same(a: GatewayView, b: GatewayView) -> bool {
        a.id == b.id
    }

    fn is_same(&self, other: &Self) -> (res: bool) {
        same_text(self.id.as_str(), other.id.as_str())
    }
}

impl OrderedKey for Gateway {
    open spec fn order_key(a: GatewayView) -> Seq<char> {
        a.id
    }

    proof fn lemma_order_key(a: GatewayView, b: GatewayView) {
    }
}

/// What a discovery found, and the cache entries to record for it, in the
/// order in which they are written.
#[derive(Debug)]
pub struct Discovered<T> {
    pub found: Vec<T>,
    pub cache: Vec<DiscoveryEntry>,
}

// ---------------------------------------------------------------------------
// The discovery cache
// ---------------------------------------------------------------------------

/// The file that caches the discovery of `id` of the kind `kind`.
pub open spec fn cache_path_of(home: Seq<char>, kind: Seq<char>, id: Seq<char>) -> Seq<char> {
    path_join(path_join(discovery_root_of(home), kind), id)
}

/// The record that caches `entry`, discovered at `discovered_at`.
pub fn cache_record(home: &str, entry: &DiscoveryEntry, discovered_at: &str) -> (res: KvRecord)
    ensures
        res.path@ == cache_path_of(home@, entry.kind@, entry.id@),
        res.fields.deep_view() == seq![
            ("id"@, entry.id@),
            ("kind"@, entry.kind@),
            ("source"@, entry.source@),
            ("discovered_at"@, discovered_at@),
        ],
{
    let root = discovery_root(home);
    let dir = join_path(root.as_str(), entry.kind.as_str());
    let path = join_path(dir.as_str(), entry.id.as_str());
    let fields = vec![
        kv_pair("id", entry.id.as_str()),
        kv_pair("kind", entry.kind.as_str()),
        kv_pair("source", entry.source.as_str()),
        kv_pair("discovered_at", discovered_at),
    ];
    assert(fields.deep_view() =~= seq![
        ("id"@, entry.id@),
        ("kind"@, entry.kind@),
        ("source"@, entry.source@),
        ("discovered_at"@, discovered_at@),
    ]);
    KvRecord { path, fields }
}

/// The entry that a cache record holds; a missing field reads as empty.
pub fn entry_from_cache(fields: &KvFields) -> (res: DiscoveryEntry)
    ensures
        res@ == entry_of(
            stored_or_empty(fields.deep_view(), "id"@),
            stored_or_empty(fields.deep_view(), "kind"@),
            stored_or_empty(fields.deep_view(), "source"@),
        ),
{
    DiscoveryEntry {
        id: optional_field(fields, "id"),
        kind: optional_field(fields, "kind"),
        source: optional_field(fields, "source"),
    }
}

// ---------------------------------------------------------------------------
// Domains
// ---------------------------------------------------------------------------

/// A peering in use.
pub open spec fn is_active(p: PeeringView) -> bool {
    p.state == "active"@
}

/// The remote domain that an active peering makes known.
pub open spec fn peered_domain(p: PeeringView) -> FederationDomainView {
    FederationDomainView {
        id: p.remote_domain_id,
        name: p.remote_domain_id,
        owner_peer_id: Seq::<char>::empty(),
        trust_policy: "remote"@,
        routing_policy: "gateway"@,
        peering_policy: "peered"@,
        created_at: p.created_at,
        signature: p.signature,
        signed_by: p.signed_by,
        signed_at: p.signed_at,
    }
}

/// The remote domains of the active peerings, in order.
pub open spec fn peered_domains(ps: Seq<PeeringView>) -> Seq<FederationDomainView>
    decreases ps.len(),
{
    if ps.len() == 0 {
        Seq::<FederationDomainView>::empty()
    } else if is_active(ps.last()) {
        peered_domains(ps.drop_last()).push(peered_domain(ps.last()))
    } else {
        peered_domains(ps.drop_last())
    }
}

/// The cache entries for the remote domains of the active peerings.
pub open spec fn peered_domain_cache(ps: Seq<PeeringView>) -> Seq<DiscoveryEntryView>
    decreases ps.len(),
{
    if ps.len() == 0 {
        Seq::<DiscoveryEntryView>::empty()
    } else if is_active(ps.last()) {
        peered_domain_cache(ps.drop_last()).push(
            entry_of(ps.last().remote_domain_id, "domains"@, "peering"@),
        )
    } else {
        peered_domain_cache(ps.drop_last())
    }
}

fn domain_of_peering(p: &Peering) -> (res: FederationDomain)
    ensures
        res@ == peered_domain(p@),
{
    FederationDomain {
        id: p.remote_domain_id.clone(),
        name: p.remote_domain_id.clone(),
        owner_peer_id: String::new(),
        trust_policy: copy_str("remote"),
        routing_policy: copy_str("gateway"),
        peering_policy: copy_str("peered"),
        created_at: p.created_at.clone(),
        signature: p.signature.clone(),
        signed_by: p.signed_by.clone(),
        signed_at: p.signed_at.clone(),
    }
}

/// The known domains together with the remote domains of the active
/// peerings, once per id in id order.
pub fn discover_domains(local: Vec<FederationDomain>, peerings: &Vec<Peering>) -> (res: Discovered<
    FederationDomain,
>)
    ensures
        views_of(res.found@) == sorted_unique::<FederationDomain>(
            views_of(local@) + peered_domains(views_of(peerings@)),
        ),
        strictly_sorted::<FederationDomain>(views_of(res.found@)),
        views_of(res.cache@) == peered_domain_cache(views_of(peerings@)),
{
    let ghost ps = views_of(peerings@);
    let ghost base = views_of(local@);
    let mut all = local;
    let mut cache: Vec<DiscoveryEntry> = Vec::new();
    let mut i: usize = 0;
    assert(ps.take(0) =~= Seq::<PeeringView>::empty());
    assert(views_of(all@) =~= base + peered_domains(ps.take(0)));
    assert(views_of(cache@) =~= peered_domain_cache(ps.take(0)));
    while i < peerings.len()
        invariant
            i <= peerings@.len(),
            ps == views_of(peerings@),
            views_of(all@) == base + peered_domains(ps.take(i as int)),
            views_of(cache@) == peered_domain_cache(ps.take(i as int)),
        decreases peerings.len() - i,
    {
        proof {
            assert(ps.take(i + 1).drop_last() =~= ps.take(i as int));
            assert(ps.take(i + 1).last() == peerings@[i as int]@);
        }
        if same_text(peerings[i].state.as_str(), "active") {
            let d = domain_of_peering(&peerings[i]);
            let e = new_entry(peerings[i].remote_domain_id.as_str(), "domains", "peering");
            let ghost before_all = all@;
            let ghost before_cache = cache@;
            all.push(d);
            cache.push(e);
            assert(views_of(all@) =~= views_of(before_all).push(d@));
            assert(views_of(cache@) =~= views_of(before_cache).push(e@));
        }
        i = i + 1;
    }
    assert(ps.take(peerings@.len() as int) =~= ps);
    let found = sort_unique(all);
    Discovered { found, cache }
}

/// A known domain is always among the discovered domains unless an earlier
/// known domain has its id: a peered domain with the same id never replaces
/// it.
pub proof fn lemma_known_domain_found(local: Seq<FederationDomainView>, peerings: Seq<PeeringView>, i: int)
    requires
        0 <= i < local.len(),
        forall|j: int| 0 <= j < i ==> (#[trigger] local[j]).id != local[i].id,
    ensures
        sorted_unique::<FederationDomain>(local + peered_domains(peerings)).contains(local[i]),
{
    let s = local + peered_domains(peerings);
    assert(s[i] == local[i]);
    assert forall|j: int| 0 <= j < i implies FederationDomain::order_key(#[trigger] s[j])
        != FederationDomain::order_key(s[i]) by {
        assert(s[j] == local[j]);
    }
    crate::sorting::lemma_sorted_unique_keeps_first::<FederationDomain>(s, i);
}

// ---------------------------------------------------------------------------
// Vaults
// ---------------------------------------------------------------------------

/// The entries for the local vaults.
pub open spec fn vault_entries(vs: Seq<Vault>) -> Seq<DiscoveryEntryView>
    decreases vs.len(),
{
    if vs.len() == 0 {
        Seq::<DiscoveryEntryView>::empty()
    } else {
        vault_entries(vs.drop_last()).push(entry_of(vs.last().id@, "vault"@, "local"@))
    }
}

/// The cache entries for the local vaults.
pub open spec fn vault_cache(vs: Seq<Vault>) -> Seq<DiscoveryEntryView>
    decreases vs.len(),
{
    if vs.len() == 0 {
        Seq::<DiscoveryEntryView>::empty()
    } else {
        vault_cache(vs.drop_last()).push(entry_of(vs.last().id@, "vaults"@, "local"@))
    }
}

/// The local vaults together with the vaults cached by earlier discoveries,
/// once per id in id order; a local vault wins over a cached one.
pub fn discover_vaults(vaults: &Vec<Vault>, cached: Vec<DiscoveryEntry>) -> (res: Discovered<
    DiscoveryEntry,
>)
    ensures
        views_of(res.found@) == sorted_unique::<DiscoveryEntry>(
            vault_entries(vaults@) + views_of(cached@),
        ),
        strictly_sorted::<DiscoveryEntry>(views_of(res.found@)),
        views_of(res.cache@) == vault_cache(vaults@),
{
    let mut entries: Vec<DiscoveryEntry> = Vec::new();
    let mut cache: Vec<DiscoveryEntry> = Vec::new();
    let mut i: usize = 0;
    assert(vaults@.take(0) =~= Seq::<Vault>::empty());
    assert(views_of(entries@) =~= vault_entries(vaults@.take(0)));
    assert(views_of(cache@) =~= vault_cache(vaults@.take(0)));
    while i < vaults.len()
        invariant
            i <= vaults@.len(),
            views_of(entries@) == vault_entries(vaults@.take(i as int)),
            views_of(cache@) == vault_cache(vaults@.take(i as int)),
        decreases vaults.len() - i,
    {
        proof {
            assert(vaults@.take(i + 1).drop_last() =~= vaults@.take(i as int));
            assert(vaults@.take(i + 1).last() == vaults@[i as int]);
        }
        let e = new_entry(vaults[i].id.as_str(), "vault", "local");
        let c = new_entry(vaults[i].id.as_str(), "vaults", "local");
        let ghost before_entries = entries@;
        let ghost before_cache = cache@;
        entries.push(e);
        cache.push(c);
        assert(views_of(entries@) =~= views_of(before_entries).push(e@));
        assert(views_of(cache@) =~= views_of(before_cache).push(c@));
        i = i + 1;
    }
    assert(vaults@.take(vaults@.len() as int) =~= vaults@);
    let ghost local = entries@;
    let mut rest = cached;
    let ghost rest_before = rest@;
    entries.append(&mut rest);
    assert(views_of(entries@) =~= views_of(local) + views_of(rest_before));
    let found = sort_unique(entries);
    Discovered { found, cache }
}

proof fn lemma_vault_entries_index(vs: Seq<Vault>, i: int)
    requires
        0 <= i < vs.len(),
    ensures
        vault_entries(vs).len() == vs.len(),
        vault_entries(vs)[i] == entry_of(vs[i].id@, "vault"@, "local"@),
    decreases vs.len(),
{
    if i < vs.len() - 1 {
        lemma_vault_entries_index(vs.drop_last(), i);
    } else if vs.len() > 1 {
        lemma_vault_entries_index(vs.drop_last(), 0);
    } else {
        assert(vault_entries(vs.drop_last()) == Seq::<DiscoveryEntryView>::empty());
    }
}

/// A local vault is always among the discovered vaults unless an earlier
/// local vault has its id: a cached entry with the same id never replaces it.
pub proof fn lemma_local_vault_found(vaults: Seq<Vault>, cached: Seq<DiscoveryEntryView>, i: int)
    requires
        0 <= i < vaults.len(),
        forall|j: int| 0 <= j < i ==> (#[trigger] vaults[j]).id@ != vaults[i].id@,
    ensures
        sorted_unique::<DiscoveryEntry>(vault_entries(vaults) + cached).contains(
            entry_of(vaults[i].id@, "vault"@, "local"@),
        ),
{
    let s = vault_entries(vaults) + cached;
    lemma_vault_entries_index(vaults, i);
    assert forall|j: int| 0 <= j < i implies DiscoveryEntry::order_key(#[trigger] s[j])
        != DiscoveryEntry::order_key(s[i]) by {
        lemma_vault_entries_index(vaults, j);
        assert(vaults[j].id@ != vaults[i].id@);
    }
    crate::sorting::lemma_sorted_unique_keeps_first::<DiscoveryEntry>(s, i);
}

// ---------------------------------------------------------------------------
// Gateways
// ---------------------------------------------------------------------------

/// The remote gateway ids exchanged by the local gateway at `i`; none where
/// nothing was read for it.
pub open spec fn remotes_at(ex: Seq<Seq<Seq<char>>>, i: int) -> Seq<Seq<char>> {
    if 0 <= i < ex.len() {
        ex[i]
    } else {
        Seq::<Seq<char>>::empty()
    }
}

/// A remote gateway learned from an exchange at `now`.
pub open spec fn exchanged_gateway(id: Seq<char>, now: Seq<char>) -> GatewayView {
    GatewayView {
        id,
        domain_id: "remote"@,
        listen_addr: "0.0.0.0"@,
        listen_port: 8443,
        state: "discovered"@,
        created_at: now,
        signature: Seq::<char>::empty(),
        signed_by: Seq::<char>::empty(),
        signed_at: Seq::<char>::empty(),
    }
}

/// The gateways that the non-empty ids among `rs` name.
pub open spec fn exchanged_gateways(rs: Seq<Seq<char>>, now: Seq<char>) -> Seq<GatewayView>
    decreases rs.len(),
{
    if rs.len() == 0 {
        Seq::<GatewayView>::empty()
    } else if rs.last().len() > 0 {
        exchanged_gateways(rs.drop_last(), now).push(exchanged_gateway(rs.last(), now))
    } else {
        exchanged_gateways(rs.drop_last(), now)
    }
}

/// The cache entries for the non-empty ids among `rs`.
pub open spec fn exchange_cache(rs: Seq<Seq<char>>) -> Seq<DiscoveryEntryView>
    decreases rs.len(),
{
    if rs.len() == 0 {
        Seq::<DiscoveryEntryView>::empty()
    } else if rs.last().len() > 0 {
        exchange_cache(rs.drop_last()).push(entry_of(rs.last(), "gateways"@, "exchange"@))
    } else {
        exchange_cache(rs.drop_last())
    }
}

/// The remote gateways learned from the exchanges of the gateways `gs`.
pub open spec fn gateway_discoveries(gs: Seq<GatewayView>, ex: Seq<Seq<Seq<char>>>, now: Seq<char>) -> Seq<
    GatewayView,
>
    decreases gs.len(),
{
    if gs.len() == 0 {
        Seq::<GatewayView>::empty()
    } else {
        gateway_discoveries(gs.drop_last(), ex, now) + exchanged_gateways(
            remotes_at(ex, gs.len() - 1),
            now,
        )
    }
}

/// The cache entries of a gateway discovery: each local gateway, then what
/// its exchange named.
pub open spec fn gateway_cache(gs: Seq<GatewayView>, ex: Seq<Seq<Seq<char>>>) -> Seq<DiscoveryEntryView>
    decreases gs.len(),
{
    if gs.len() == 0 {
        Seq::<DiscoveryEntryView>::empty()
    } else {
        gateway_cache(gs.drop_last(), ex).push(entry_of(gs.last().id, "gateways"@, "local"@))
            + exchange_cache(remotes_at(ex, gs.len() - 1))
    }
}

fn exchanged_gateway_at(id: &str, now: &str) -> (res: Gateway)
    ensures
        res@ == exchanged_gateway(id@, now@),
{
    Gateway {
        id: copy_str(id),
        domain_id: copy_str("remote"),
        listen_addr: copy_str("0.0.0.0"),
        listen_port: 8443,
        state: copy_str("discovered"),
        created_at: copy_str(now),
        signature: String::new(),
        signed_by: String::new(),
        signed_at: String::new(),
    }
}

/// The local gateways together with the remote gateways that their exchanges
/// named (`exchanged[i]` for the gateway at `i`), once per id in id order; a
/// local gateway wins over a remote one. Remote gateways are dated `now`.
pub fn discover_gateways(local: Vec<Gateway>, exchanged: &Vec<Vec<String>>, now: &str) -> (res:
    Discovered<Gateway>)
    ensures
        views_of(res.found@) == sorted_unique::<Gateway>(
            views_of(local@) + gateway_discoveries(views_of(local@), exchanged.deep_view(), now@),
        ),
        strictly_sorted::<Gateway>(views_of(res.found@)),
        views_of(res.cache@) == gateway_cache(views_of(local@), exchanged.deep_view()),
{
    let ghost gs = views_of(local@);
    let ghost ex = exchanged.deep_view();
    let mut discovered: Vec<Gateway> = Vec::new();
    let mut cache: Vec<DiscoveryEntry> = Vec::new();
    let mut i: usize = 0;
    assert(gs.take(0) =~= Seq::<GatewayView>::empty());
    assert(views_of(discovered@) =~= gateway_discoveries(gs.take(0), ex, now@));
    assert(views_of(cache@) =~= gateway_cache(gs.take(0), ex));
    while i < local.len()
        invariant
            i <= local@.len(),
            gs == views_of(local@),
            ex == exchanged.deep_view(),
            views_of(discovered@) == gateway_discoveries(gs.take(i as int), ex, now@),
            views_of(cache@) == gateway_cache(gs.take(i as int), ex),
        decreases local.len() - i,
    {
        proof {
            assert(gs.take(i + 1).drop_last() =~= gs.take(i as int));
            assert(gs.take(i + 1).last() == local@[i as int]@);
        }
        let c = new_entry(local[i].id.as_str(), "gateways", "local");
        let ghost cache0 = cache@;
        cache.push(c);
        assert(views_of(cache@) =~= views_of(cache0).push(c@));
        let ghost found0 = views_of(discovered@);
        let ghost cache1 = views_of(cache@);
        let ghost rs = remotes_at(ex, i as int);
        if i < exchanged.len() {
            let remotes = &exchanged[i];
            assert(remotes.deep_view() == rs);
            let mut j: usize = 0;
            assert(rs.take(0) =~= Seq::<Seq<char>>::empty());
            assert(views_of(discovered@) =~= found0 + exchanged_gateways(rs.take(0), now@));
            assert(views_of(cache@) =~= cache1 + exchange_cache(rs.take(0)));
            while j < remotes.len()
                invariant
                    j <= rs.len(),
                    rs == remotes.deep_view(),
                    views_of(discovered@) == found0 + exchanged_gateways(rs.take(j as int), now@),
                    views_of(cache@) == cache1 + exchange_cache(rs.take(j as int)),
                decreases remotes.len() - j,
            {
                proof {
                    assert(rs.take(j + 1).drop_last() =~= rs.take(j as int));
                    assert(rs.take(j + 1).last() == remotes@[j as int]@);
                }
                let remote = remotes[j].as_str();
                if !remote.is_empty() {
                    let g = exchanged_gateway_at(remote, now);
                    let e = new_entry(remote, "gateways", "exchange");
                    let ghost d0 = discovered@;
                    let ghost c0 = cache@;
                    discovered.push(g);
                    cache.push(e);
                    assert(views_of(discovered@) =~= views_of(d0).push(g@));
                    assert(views_of(cache@) =~= views_of(c0).push(e@));
                }
                j = j + 1;
            }
            assert(rs.take(rs.len() as int) =~= rs);
        } else {
            assert(rs =~= Seq::<Seq<char>>::empty());
            assert(views_of(discovered@) =~= found0 + exchanged_gateways(rs, now@));
            assert(views_of(cache@) =~= cache1 + exchange_cache(rs));
        }
        i = i + 1;
    }
    assert(gs.take(local@.len() as int) =~= gs);
    let mut all = local;
    let ghost all0 = all@;
    let ghost disc0 = discovered@;
    all.append(&mut discovered);
    assert(views_of(all@) =~= views_of(all0) + views_of(disc0));
    let found = sort_unique(all);
    Discovered { found, cache }
}

/// A local gateway is always among the discovered gateways unless an earlier
/// local gateway has its id: a remote gateway with the same id never
/// replaces it.
pub proof fn lemma_local_gateway_found(
    local: Seq<GatewayView>,
    ex: Seq<Seq<Seq<char>>>,
    now: Seq<char>,
    i: int,
)
    requires
        0 <= i < local.len(),
        forall|j: int| 0 <= j < i ==> (#[trigger] local[j]).id != local[i].id,
    ensures
        sorted_unique::<Gateway>(local + gateway_discoveries(local, ex, now)).contains(local[i]),
{
    let s = local + gateway_discoveries(local, ex, now);
    assert(s[i] == local[i]);
    assert forall|j: int| 0 <= j < i implies Gateway::order_key(#[trigger] s[j]) != Gateway::order_key(
        s[i],
    ) by {
        assert(s[j] == local[j]);
    }
    crate::sorting::lemma_sorted_unique_keeps_first::<Gateway>(s, i);
}

// ---------------------------------------------------------------------------
// Replicas
// ---------------------------------------------------------------------------

/// The text view of an optional text.
pub open spec fn text_option(o: Option<&str>) -> Option<Seq<char>> {
    match o {
        Some(s) => Some(s@),
        None => None,
    }
}

/// A replication record that belongs to the asked repository, if one was
/// asked.
pub open spec fn record_wanted(m: Seq<(Seq<char>, Seq<char>)>, repo_id: Option<Seq<char>>) -> bool {
    match repo_id {
        Some(r) => r == stored_or_empty(m, "repo_id"@),
        None => true,
    }
}

/// The id of the replica that a replication record describes:
/// `<peer>-<repo>-<checkpoint>`.
pub open spec fn replica_id(m: Seq<(Seq<char>, Seq<char>)>) -> Seq<char> {
    stored_or_empty(m, "peer_id"@) + "-"@ + stored_or_empty(m, "repo_id"@) + "-"@
        + stored_or_empty(m, "checkpoint_id"@)
}

/// The replica entries of the wanted replication records, with `kind`.
pub open spec fn record_replicas(
    ms: Seq<Seq<(Seq<char>, Seq<char>)>>,
    repo_id: Option<Seq<char>>,
    kind: Seq<char>,
) -> Seq<DiscoveryEntryView>
    decreases ms.len(),
{
    if ms.len() == 0 {
        Seq::<DiscoveryEntryView>::empty()
    } else if record_wanted(ms.last(), repo_id) {
        record_replicas(ms.drop_last(), repo_id, kind).push(
            entry_of(replica_id(ms.last()), kind, stored_or_empty(ms.last(), "peer_id"@)),
        )
    } else {
        record_replicas(ms.drop_last(), repo_id, kind)
    }
}

/// The id of the replica that an active peering offers:
/// `<remote domain>-<repo>`, with `any` for no repository.
pub open spec fn remote_replica_id(p: PeeringView, repo_id: Option<Seq<char>>) -> Seq<char> {
    p.remote_domain_id + "-"@ + match repo_id {
        Some(r) => r,
        None => "any"@,
    }
}

/// The replica entries that the active peerings offer.
pub open spec fn peered_replicas(ps: Seq<PeeringView>, repo_id: Option<Seq<char>>) -> Seq<
    DiscoveryEntryView,
>
    decreases ps.len(),
{
    if ps.len() == 0 {
        Seq::<DiscoveryEntryView>::empty()
    } else if is_active(ps.last()) {
        peered_replicas(ps.drop_last(), repo_id).push(
            entry_of(remote_replica_id(ps.last(), repo_id), "replica"@, ps.last().remote_domain_id),
        )
    } else {
        peered_replicas(ps.drop_last(), repo_id)
    }
}

/// The cache entries for the replicas that the active peerings offer.
pub open spec fn peered_replica_cache(ps: Seq<PeeringView>, repo_id: Option<Seq<char>>) -> Seq<
    DiscoveryEntryView,
>
    decreases ps.len(),
{
    if ps.len() == 0 {
        Seq::<DiscoveryEntryView>::empty()
    } else if is_active(ps.last()) {
        peered_replica_cache(ps.drop_last(), repo_id).push(
            entry_of(remote_replica_id(ps.last(), repo_id), "replicas"@, "remote-domain"@),
        )
    } else {
        peered_replica_cache(ps.drop_last(), repo_id)
    }
}

fn replica_id_of(m: &KvFields) -> (res: String)
    ensures
        res@ == replica_id(m.deep_view()),
{
    let mut id = optional_field(m, "peer_id");
    id.append("-");
    let rid = optional_field(m, "repo_id");
    id.append(rid.as_str());
    id.append("-");
    let cp = optional_field(m, "checkpoint_id");
    id.append(cp.as_str());
    id
}

/// The replicas of the repository `repo_id` (or of all repositories): those
/// that the replication records of the vaults describe, then those that the
/// active peerings offer, once per id in id order.
pub fn discover_replicas(records: &Vec<KvFields>, peerings: &Vec<Peering>, repo_id: Option<&str>) -> (res:
    Discovered<DiscoveryEntry>)
    ensures
        views_of(res.found@) == sorted_unique::<DiscoveryEntry>(
            record_replicas(records.deep_view(), text_option(repo_id), "replica"@) + peered_replicas(
                views_of(peerings@),
                text_option(repo_id),
            ),
        ),
        strictly_sorted::<DiscoveryEntry>(views_of(res.found@)),
        views_of(res.cache@) == record_replicas(records.deep_view(), text_option(repo_id), "replicas"@)
            + peered_replica_cache(views_of(peerings@), text_option(repo_id)),
{
    let ghost ms = records.deep_view();
    let ghost r = text_option(repo_id);
    let mut entries: Vec<DiscoveryEntry> = Vec::new();
    let mut cache: Vec<DiscoveryEntry> = Vec::new();
    let mut i: usize = 0;
    assert(ms.take(0) =~= Seq::<Seq<(Seq<char>, Seq<char>)>>::empty());
    assert(views_of(entries@) =~= record_replicas(ms.take(0), r, "replica"@));
    assert(views_of(cache@) =~= record_replicas(ms.take(0), r, "replicas"@));
    while i < records.len()
        invariant
            i <= ms.len(),
            ms == records.deep_view(),
            r == text_option(repo_id),
            views_of(entries@) == record_replicas(ms.take(i as int), r, "replica"@),
            views_of(cache@) == record_replicas(ms.take(i as int), r, "replicas"@),
        decreases records.len() - i,
    {
        proof {
            assert(ms.take(i + 1).drop_last() =~= ms.take(i as int));
            assert(ms.take(i + 1).last() == records@[i as int].deep_view());
        }
        let m = &records[i];
        let rid = optional_field(m, "repo_id");
        let wanted = match repo_id {
            Some(want) => same_text(want, rid.as_str()),
            None => true,
        };
        if wanted {
            let id = replica_id_of(m);
            let peer = optional_field(m, "peer_id");
            let e = new_entry(id.as_str(), "replica", peer.as_str());
            let c = new_entry(id.as_str(), "replicas", peer.as_str());
            let ghost e0 = entries@;
            let ghost c0 = cache@;
            entries.push(e);
            cache.push(c);
            assert(views_of(entries@) =~= views_of(e0).push(e@));
            assert(views_of(cache@) =~= views_of(c0).push(c@));
        }
        i = i + 1;
    }
    assert(ms.take(ms.len() as int) =~= ms);
    let ghost ps = views_of(peerings@);
    let ghost entries0 = views_of(entries@);
    let ghost cache0 = views_of(cache@);
    let mut k: usize = 0;
    assert(ps.take(0) =~= Seq::<PeeringView>::empty());
    assert(views_of(entries@) =~= entries0 + peered_replicas(ps.take(0), r));
    assert(views_of(cache@) =~= cache0 + peered_replica_cache(ps.take(0), r));
    while k < peerings.len()
        invariant
            k <= ps.len(),
            ps == views_of(peerings@),
            r == text_option(repo_id),
            views_of(entries@) == entries0 + peered_replicas(ps.take(k as int), r),
            views_of(cache@) == cache0 + peered_replica_cache(ps.take(k as int), r),
        decreases peerings.len() - k,
    {
        proof {
            assert(ps.take(k + 1).drop_last() =~= ps.take(k as int));
            assert(ps.take(k + 1).last() == peerings@[k as int]@);
        }
        let p = &peerings[k];
        if same_text(p.state.as_str(), "active") {
            let mut id = p.remote_domain_id.clone();
            id.append("-");
            match repo_id {
                Some(want) => id.append(want),
                None => id.append("any"),
            }
            let e = new_entry(id.as_str(), "replica", p.remote_domain_id.as_str());
            let c = new_entry(id.as_str(), "replicas", "remote-domain");
            let ghost e0 = entries@;
            let ghost c0 = cache@;
            entries.push(e);
            cache.push(c);
            assert(views_of(entries@) =~= views_of(e0).push(e@));
            assert(views_of(cache@) =~= views_of(c0).push(c@));
        }
        k = k + 1;
    }
    assert(ps.take(ps.len() as int) =~= ps);
    let found = sort_unique(entries);
    Discovered { found, cache }
}

} // verus!
