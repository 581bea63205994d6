//! Peerings between federation domains: their signed payload, records, and
//! lookup, revocation and listing.
use vstd::prelude::*;
use vstd::utf8::encode_utf8;

use crate::error::AppError;
use crate::kv::{field, first_missing, kv_pair, missing_field_message, optional_field, stored_or_empty, KvFields, KvRecord};
use crate::layout::{join_path, path_join, peering_dir, peering_dir_of};
use crate::identity::{cut_len, cuttable, peering_id};
use crate::models::{Gateway, Identity, Peering, PeeringView};
use crate::signing::{check_outcome, record_signature_failure, verify_bytes};
use crate::text::{copy_str, same_text};

verus! {

pub open spec fn peering_payload_of(p: PeeringView) -> Seq<char> {
    "peering:"@ + p.local_domain_id + ":"@ + p.remote_domain_id + ":"@ + p.local_gateway_id + ":"@
        + p.remote_gateway_id
}

/// The text signed for a peering: its two domains and two gateways.
pub fn peering_payload(peering: &Peering) -> (res: String)
    ensures
        res@ == peering_payload_of(peering@),
{
    let mut s = copy_str("peering:");
    s.append(peering.local_domain_id.as_str());
    s.append(":");
    s.append(peering.remote_domain_id.as_str());
    s.append(":");
    s.append(peering.local_gateway_id.as_str());
    s.append(":");
    s.append(peering.remote_gateway_id.as_str());
    s
}

/// The file of a peering under a home.
pub fn peering_path(home: &str, peering: &Peering) -> (res: String)
    ensures
        res@ == path_join(peering_dir_of(home@), peering.id@),
{
    let dir = peering_dir(home);
    join_path(dir.as_str(), peering.id.as_str())
}

pub open spec fn peering_keys() -> Seq<Seq<char>> {
    seq![
        "id"@,
        "local_domain_id"@,
        "remote_domain_id"@,
        "local_gateway_id"@,
        "remote_gateway_id"@,
        "created_at"@,
    ]
}

pub open spec fn peering_from_record(m: Seq<(Seq<char>, Seq<char>)>) -> PeeringView {
    PeeringView {
        id: stored_or_empty(m, "id"@),
        local_domain_id: stored_or_empty(m, "local_domain_id"@),
        remote_domain_id: stored_or_empty(m, "remote_domain_id"@),
        local_gateway_id: stored_or_empty(m, "local_gateway_id"@),
        remote_gateway_id: stored_or_empty(m, "remote_gateway_id"@),
        state: stored_or_empty(m, "state"@),
        created_at: stored_or_empty(m, "created_at"@),
        signature: stored_or_empty(m, "signature"@),
        signed_by: stored_or_empty(m, "signed_by"@),
        signed_at: stored_or_empty(m, "signed_at"@),
    }
}

/// The peering that a stored record gives.
pub fn read_peering(fields: &KvFields) -> (res: Result<Peering, AppError>)
    ensures
        match first_missing(fields.deep_view(), peering_keys()) {
            None => res matches Ok(p) && p@ == peering_from_record(fields.deep_view()),
            Some(k) => res matches Err(e) && e@ == missing_field_message(k),
        },
{
    let ghost ks = peering_keys();
    proof {
        reveal_with_fuel(first_missing, 7);
    }
    assert(ks.drop_first() =~= ks.skip(1));
    assert(ks.skip(1).drop_first() =~= ks.skip(2));
    assert(ks.skip(2).drop_first() =~= ks.skip(3));
    assert(ks.skip(3).drop_first() =~= ks.skip(4));
    assert(ks.skip(4).drop_first() =~= ks.skip(5));
    assert(ks.skip(5).drop_first() =~= ks.skip(6));
    let id = field(fields, "id")?;
    let local_domain_id = field(fields, "local_domain_id")?;
    let remote_domain_id = field(fields, "remote_domain_id")?;
    let local_gateway_id = field(fields, "local_gateway_id")?;
    let remote_gateway_id = field(fields, "remote_gateway_id")?;
    let state = optional_field(fields, "state");
    let created_at = field(fields, "created_at")?;
    let signature = optional_field(fields, "signature");
    let signed_by = optional_field(fields, "signed_by");
    let signed_at = optional_field(fields, "signed_at");
    Ok(
        Peering {
            id,
            local_domain_id,
            remote_domain_id,
            local_gateway_id,
            remote_gateway_id,
            state,
            created_at,
            signature,
            signed_by,
            signed_at,
        },
    )
}

pub open spec fn peering_fields(p: PeeringView) -> Seq<(Seq<char>, Seq<char>)> {
    seq![
        ("id"@, p.id),
        ("local_domain_id"@, p.local_domain_id),
        ("remote_domain_id"@, p.remote_domain_id),
        ("local_gateway_id"@, p.local_gateway_id),
        ("remote_gateway_id"@, p.remote_gateway_id),
        ("state"@, p.state),
        ("created_at"@, p.created_at),
        ("signature"@, p.signature),
        ("signed_by"@, p.signed_by),
        ("signed_at"@, p.signed_at),
    ]
}

/// The file that stores a peering under a home, and its fields.
pub fn write_peering(home: &str, peering: &Peering) -> (res: KvRecord)
    ensures
        res.path@ == path_join(peering_dir_of(home@), peering.id@),
        res.fields.deep_view() == peering_fields(peering@),
{
    let fields = vec![
        kv_pair("id", peering.id.as_str()),
        kv_pair("local_domain_id", peering.local_domain_id.as_str()),
        kv_pair("remote_domain_id", peering.remote_domain_id.as_str()),
        kv_pair("local_gateway_id", peering.local_gateway_id.as_str()),
        kv_pair("remote_gateway_id", peering.remote_gateway_id.as_str()),
        kv_pair("state", peering.state.as_str()),
        kv_pair("created_at", peering.created_at.as_str()),
        kv_pair("signature", peering.signature.as_str()),
        kv_pair("signed_by", peering.signed_by.as_str()),
        kv_pair("signed_at", peering.signed_at.as_str()),
    ];
    assert(fields.deep_view() =~= peering_fields(peering@));
    KvRecord { path: peering_path(home, peering), fields }
}

/// Reading the stored text of a peering gives the peering back.
pub proof fn lemma_peering_store_roundtrip(r: PeeringView)
    ensures
        first_missing(crate::kv::parse_seq(crate::kv::render_seq(peering_fields(r))), peering_keys()) is None,
        peering_from_record(crate::kv::parse_seq(crate::kv::render_seq(peering_fields(r)))) == r,
{
    reveal_strlit("id");
    reveal_strlit("local_domain_id");
    reveal_strlit("remote_domain_id");
    reveal_strlit("local_gateway_id");
    reveal_strlit("remote_gateway_id");
    reveal_strlit("state");
    reveal_strlit("created_at");
    reveal_strlit("signature");
    reveal_strlit("signed_by");
    reveal_strlit("signed_at");
    assert("id"@[0] == 'i' && "created_at"@[0] == 'c');
    assert("local_domain_id"@[0] == 'l' && "local_domain_id"@[6] == 'd');
    assert("local_gateway_id"@[0] == 'l' && "local_gateway_id"@[6] == 'g');
    assert("remote_domain_id"@[0] == 'r' && "remote_domain_id"@[7] == 'd');
    assert("remote_gateway_id"@[0] == 'r' && "remote_gateway_id"@[7] == 'g');
    assert("state"@[0] == 's' && "state"@[1] == 't');
    assert("signature"@[0] == 's' && "signature"@[1] == 'i' && "signature"@[4] == 'a');
    assert("signed_by"@[0] == 's' && "signed_by"@[1] == 'i' && "signed_by"@[4] == 'e' && "signed_by"@[7] == 'b');
    assert("signed_at"@[0] == 's' && "signed_at"@[1] == 'i' && "signed_at"@[4] == 'e' && "signed_at"@[7] == 'a');
    let f = peering_fields(r);
    assert forall|i: int| 0 <= i < f.len() implies crate::kv::storable_key(#[trigger] f[i].0) by {
    }
    crate::kv::lemma_parse_render(f);
    reveal_with_fuel(crate::kv::kv_lookup, 11);
    reveal_with_fuel(first_missing, 7);
    let ks = peering_keys();
    assert(ks.drop_first() =~= ks.skip(1));
    assert(ks.skip(1).drop_first() =~= ks.skip(2));
    assert(ks.skip(2).drop_first() =~= ks.skip(3));
    assert(ks.skip(3).drop_first() =~= ks.skip(4));
    assert(ks.skip(4).drop_first() =~= ks.skip(5));
    assert(ks.skip(5).drop_first() =~= ks.skip(6));
    assert(f.drop_last() =~= f.take(9));
    assert(f.take(9).drop_last() =~= f.take(8));
    assert(f.take(8).drop_last() =~= f.take(7));
    assert(f.take(7).drop_last() =~= f.take(6));
    assert(f.take(6).drop_last() =~= f.take(5));
    assert(f.take(5).drop_last() =~= f.take(4));
    assert(f.take(4).drop_last() =~= f.take(3));
    assert(f.take(3).drop_last() =~= f.take(2));
    assert(f.take(2).drop_last() =~= f.take(1));
    assert(f.take(1).drop_last() =~= f.take(0));
    assert(f.take(1).last() == f[0]);
    assert(f.take(2).last() == f[1]);
    assert(f.take(3).last() == f[2]);
    assert(f.take(4).last() == f[3]);
    assert(f.take(5).last() == f[4]);
    assert(f.take(6).last() == f[5]);
    assert(f.take(7).last() == f[6]);
    assert(f.take(8).last() == f[7]);
    assert(f.take(9).last() == f[8]);
    assert(crate::kv::kv_lookup(f, "signed_at"@) == Some(r.signed_at));
    assert(crate::kv::kv_lookup(f, "signed_by"@) == Some(r.signed_by));
    assert(crate::kv::kv_lookup(f, "signature"@) == Some(r.signature));
    assert(crate::kv::kv_lookup(f, "created_at"@) == Some(r.created_at));
    assert(crate::kv::kv_lookup(f, "state"@) == Some(r.state));
    assert(crate::kv::kv_lookup(f, "remote_gateway_id"@) == Some(r.remote_gateway_id));
    assert(crate::kv::kv_lookup(f, "local_gateway_id"@) == Some(r.local_gateway_id));
    assert(crate::kv::kv_lookup(f, "remote_domain_id"@) == Some(r.remote_domain_id));
    assert(crate::kv::kv_lookup(f, "local_domain_id"@) == Some(r.local_domain_id));
    assert(crate::kv::kv_lookup(f, "id"@) == Some(r.id));
}

/// Attaches `signature`, made by `identity` over the peering's payload at
/// time `signed_at`.
pub fn sign_peering(identity: &Identity, peering: &mut Peering, signature: &str, signed_at: &str)
    ensures
        final(peering)@ == (PeeringView {
            signature: signature@,
            signed_by: identity.peer_id@,
            signed_at: signed_at@,
            ..old(peering)@
        }),
{
    peering.signature = copy_str(signature);
    peering.signed_by = identity.peer_id.clone();
    peering.signed_at = copy_str(signed_at);
}

/// An unsigned peering is accepted; a signed one when its signature holds
/// over its payload under `public_key`.
pub fn verify_peering(peering: &Peering, public_key: &str) -> (res: Result<(), AppError>)
    ensures
        check_outcome(
            res,
            record_signature_failure(public_key@, peering_payload_of(peering@), peering@.signature),
        ),
{
    if peering.signature.as_str().is_empty() {
        Ok(())
    } else {
        let payload = peering_payload(peering);
        verify_bytes(public_key, payload.as_str(), peering.signature.as_str())
    }
}

/// A signature made over a peering's payload that holds under a key verifies
/// once attached with `sign_peering`, and still verifies after only the
/// peering's id, state or creation time change: the payload covers only its
/// two domains and two gateways.
pub proof fn lemma_signed_peering_verifies(
    public_key: Seq<char>,
    signer: Seq<char>,
    p: PeeringView,
    signature: Seq<char>,
    signed_at: Seq<char>,
    id: Seq<char>,
    state: Seq<char>,
    created_at: Seq<char>,
)
    requires
        crate::signing::signature_failure(public_key, peering_payload_of(p), signature) is None,
    ensures
        ({
            let signed = PeeringView { signature, signed_by: signer, signed_at, ..p };
            &&& record_signature_failure(public_key, peering_payload_of(signed), signed.signature) is None
            &&& record_signature_failure(
                public_key,
                peering_payload_of(PeeringView { id, state, created_at, ..signed }),
                signature,
            ) is None
        }),
{
}

/// A peering that names `reference` as its remote domain or as its id.
pub open spec fn peering_matches(p: PeeringView, reference: Seq<char>) -> bool {
    p.remote_domain_id == reference || p.id == reference
}

pub open spec fn peering_index(ps: Seq<Peering>, reference: Seq<char>) -> int
    decreases ps.len(),
{
    if ps.len() == 0 {
        0
    } else if peering_matches(ps[0]@, reference) {
        0
    } else {
        1 + peering_index(ps.drop_first(), reference)
    }
}

/// Looking a peering up finds the first one whose remote domain or id is
/// the reference, and finds none exactly when none is.
pub proof fn lemma_peering_lookup(ss: Seq<Peering>, r: Seq<char>)
    ensures
        0 <= peering_index(ss, r) <= ss.len(),
        peering_index(ss, r) < ss.len() ==> (ss[peering_index(ss, r)]@.remote_domain_id == r || ss[peering_index(ss, r)]@.id == r),
        forall|j: int| 0 <= j < peering_index(ss, r) ==> !((#[trigger] ss[j])@.remote_domain_id == r || ss[j]@.id == r),
        peering_index(ss, r) >= ss.len() <==> forall|j: int| 0 <= j < ss.len() ==> !((#[trigger] ss[j])@.remote_domain_id == r || ss[j]@.id == r),
    decreases ss.len(),
{
    if ss.len() > 0 && !(ss[0]@.remote_domain_id == r || ss[0]@.id == r) {
        let t = ss.drop_first();
        lemma_peering_lookup(t, r);
        assert forall|j: int| 0 <= j < peering_index(ss, r) implies !((#[trigger] ss[j])@.remote_domain_id == r || ss[j]@.id == r) by {
            if j > 0 {
                assert(ss[j] == t[j - 1]);
            }
        }
        if peering_index(ss, r) < ss.len() {
            assert(ss[peering_index(ss, r)] == t[peering_index(t, r)]);
        } else {
            assert forall|j: int| 0 <= j < ss.len() implies !((#[trigger] ss[j])@.remote_domain_id == r || ss[j]@.id == r) by {
                if j > 0 {
                    assert(ss[j] == t[j - 1]);
                }
            }
        }
    }
}

pub open spec fn peering_not_found_message(reference: Seq<char>) -> Seq<char> {
    "peering with '"@ + reference + "' not found"@
}

/// The first peering with the remote domain or id `remote_domain`.
pub fn find_peering(peerings: &Vec<Peering>, remote_domain: &str) -> (res: Result<Peering, AppError>)
    ensures
        peering_index(peerings@, remote_domain@) < peerings@.len() ==> (res matches Ok(p) && p@
            == peerings@[peering_index(peerings@, remote_domain@)]@),
        peering_index(peerings@, remote_domain@) >= peerings@.len() ==> (res matches Err(e) && e@
            == peering_not_found_message(remote_domain@)),
        res matches Ok(p) ==> p@.remote_domain_id == remote_domain@ || p@.id == remote_domain@,
        res is Err <==> forall|j: int|
            0 <= j < peerings@.len() ==> !((#[trigger] peerings@[j])@.remote_domain_id == remote_domain@
                || peerings@[j]@.id == remote_domain@),
{
    proof {
        lemma_peering_lookup(peerings@, remote_domain@);
    }
    let mut i: usize = 0;
    assert(peerings@.skip(0) =~= peerings@);
    while i < peerings.len()
        invariant
            i <= peerings@.len(),
            peering_index(peerings@, remote_domain@) == i + peering_index(
                peerings@.skip(i as int),
                remote_domain@,
            ),
        decreases peerings.len() - i,
    {
        assert(peerings@.skip(i as int)[0] == peerings@[i as int]);
        if same_text(peerings[i].remote_domain_id.as_str(), remote_domain) || same_text(
            peerings[i].id.as_str(),
            remote_domain,
        ) {
            return Ok(peerings[i].copied());
        }
        assert(peerings@.skip(i as int).drop_first() =~= peerings@.skip(i + 1));
        i = i + 1;
    }
    let mut msg = copy_str("peering with '");
    msg.append(remote_domain);
    msg.append("' not found");
    Err(AppError::from_string(msg))
}

/// Revokes the peering with `remote_domain`: marked revoked and signed anew
/// by `identity` (with `signature` over its payload, at `signed_at`).
pub fn revoke_peering(
    peerings: &Vec<Peering>,
    remote_domain: &str,
    identity: &Identity,
    signature: &str,
    signed_at: &str,
) -> (res: Result<Peering, AppError>)
    ensures
        peering_index(peerings@, remote_domain@) < peerings@.len() ==> (res matches Ok(p) && p@
            == (PeeringView {
            state: "revoked"@,
            signature: signature@,
            signed_by: identity.peer_id@,
            signed_at: signed_at@,
            ..peerings@[peering_index(peerings@, remote_domain@)]@
        })),
        peering_index(peerings@, remote_domain@) >= peerings@.len() ==> (res matches Err(e) && e@
            == peering_not_found_message(remote_domain@)),
{
    let mut peering = find_peering(peerings, remote_domain)?;
    peering.state = copy_str("revoked");
    sign_peering(identity, &mut peering, signature, signed_at);
    Ok(peering)
}

/// The peerings in order, keeping only those with `remote_domain` as remote
/// domain or id when one is given.
pub open spec fn peerings_matching(ps: Seq<Peering>, reference: Option<Seq<char>>) -> Seq<
    PeeringView,
>
    decreases ps.len(),
{
    if ps.len() == 0 {
        Seq::<PeeringView>::empty()
    } else {
        let prev = peerings_matching(ps.drop_last(), reference);
        match reference {
            Some(r) => if peering_matches(ps.last()@, r) {
                prev.push(ps.last()@)
            } else {
                prev
            },
            None => prev.push(ps.last()@),
        }
    }
}

pub open spec fn peering_views(ps: Seq<Peering>) -> Seq<PeeringView>
    decreases ps.len(),
{
    if ps.len() == 0 {
        Seq::<PeeringView>::empty()
    } else {
        peering_views(ps.drop_last()).push(ps.last()@)
    }
}

/// The peerings with `remote_domain`, or all of them.
pub fn inspect_peering(peerings: &Vec<Peering>, remote_domain: Option<&str>) -> (res: Vec<Peering>)
    ensures
        peering_views(res@) == peerings_matching(peerings@, match remote_domain {
            Some(r) => Some(r@),
            None => None,
        }),
{
    let ghost reference = match remote_domain {
        Some(r) => Some(r@),
        None => None::<Seq<char>>,
    };
    let mut res: Vec<Peering> = Vec::new();
    let mut i: usize = 0;
    while i < peerings.len()
        invariant
            i <= peerings@.len(),
            reference == (match remote_domain {
                Some(r) => Some(r@),
                None => None::<Seq<char>>,
            }),
            peering_views(res@) == peerings_matching(peerings@.take(i as int), reference),
        decreases peerings.len() - i,
    {
        assert(peerings@.take(i + 1).drop_last() =~= peerings@.take(i as int));
        assert(peerings@.take(i + 1).last() == peerings@[i as int]);
        let keep = match remote_domain {
            Some(r) => same_text(peerings[i].remote_domain_id.as_str(), r) || same_text(
                peerings[i].id.as_str(),
                r,
            ),
            None => true,
        };
        if keep {
            let ghost before = res@;
            res.push(peerings[i].copied());
            assert(res@.drop_last() =~= before);
        }
        i = i + 1;
    }
    assert(peerings@.take(peerings@.len() as int) =~= peerings@);
    res
}

// ---------------------------------------------------------------------------
// Connecting domains
// ---------------------------------------------------------------------------

/// The index of the first gateway of the domain `domain_id` in `gs`; the
/// length of `gs` when it has none.
pub open spec fn domain_gateway_index(gs: Seq<Gateway>, domain_id: Seq<char>) -> int
    decreases gs.len(),
{
    if gs.len() == 0 {
        0
    } else if gs[0]@.domain_id == domain_id {
        0
    } else {
        1 + domain_gateway_index(gs.drop_first(), domain_id)
    }
}

/// Whether a local gateway is there for a new peering: the one named was
/// found, or, when none is named, the local domain has a gateway.
pub open spec fn local_gateway_found(
    named: Option<Result<Gateway, AppError>>,
    gs: Seq<Gateway>,
    local_domain_id: Seq<char>,
) -> bool {
    match named {
        Some(found) => found is Ok,
        None => domain_gateway_index(gs, local_domain_id) < gs.len(),
    }
}

/// `id` is the identifier of the peering between `local` and `remote`.
pub open spec fn is_peering_id_of(id: Seq<char>, local: Seq<char>, remote: Seq<char>) -> bool {
    exists|a: Seq<char>, b: Seq<char>|
        encode_utf8(a) == encode_utf8(local).subrange(0, cut_len(local, 8)) && encode_utf8(b)
            == encode_utf8(remote).subrange(0, cut_len(remote, 8)) && id == "peer-"@ + a + "-"@ + b
}

/// `p` is the new, unsigned, active peering from `local` to `remote` through
/// the local gateway `gateway_id`, created at `created_at`.
pub open spec fn is_new_peering(
    p: PeeringView,
    local: Seq<char>,
    remote: Seq<char>,
    gateway_id: Seq<char>,
    remote_gateway_id: Option<Seq<char>>,
    created_at: Seq<char>,
) -> bool {
    &&& is_peering_id_of(p.id, local, remote)
    &&& p.local_domain_id == local
    &&& p.remote_domain_id == remote
    &&& p.local_gateway_id == gateway_id
    &&& p.remote_gateway_id == match remote_gateway_id {
        Some(r) => r,
        None => "remote-gateway"@,
    }
    &&& p.state == "active"@
    &&& p.created_at == created_at
    &&& p.signature.len() == 0
    &&& p.signed_by.len() == 0
    &&& p.signed_at.len() == 0
}

fn find_domain_gateway(gateways: &Vec<Gateway>, domain_id: &str) -> (res: usize)
    ensures
        res as int == domain_gateway_index(gateways@, domain_id@),
        res <= gateways@.len(),
{
    let mut i: usize = 0;
    assert(gateways@.skip(0) =~= gateways@);
    while i < gateways.len()
        invariant
            i <= gateways@.len(),
            domain_gateway_index(gateways@, domain_id@) == i + domain_gateway_index(
                gateways@.skip(i as int),
                domain_id@,
            ),
        decreases gateways.len() - i,
    {
        proof {
            assert(gateways@.skip(i as int)[0] == gateways@[i as int]);
            assert(gateways@.skip(i as int).drop_first() =~= gateways@.skip(i + 1));
        }
        if same_text(gateways[i].domain_id.as_str(), domain_id) {
            return i;
        }
        i = i + 1;
    }
    proof {
        assert(gateways@.skip(i as int) =~= Seq::<Gateway>::empty());
    }
    i
}

/// A new peering from the domain `local_domain_id` to `remote_domain_id`,
/// active and not yet signed. Its local gateway is the one named, as looked
/// up (`named`), or else the first of `gateways` that belongs to the local
/// domain; its remote gateway is the one named, or `remote-gateway`.
pub fn connect_domains(
    local_domain_id: &str,
    remote_domain_id: &str,
    named: Option<Result<Gateway, AppError>>,
    gateways: &Vec<Gateway>,
    remote_gateway_id: Option<&str>,
    created_at: &str,
) -> (res: Result<Peering, AppError>)
    requires
        local_gateway_found(named, gateways@, local_domain_id@) ==> cuttable(local_domain_id@, 8)
            && cuttable(remote_domain_id@, 8),
    ensures
        match named {
            Some(Err(e)) => res matches Err(r) && r@ == e@,
            Some(Ok(g)) => res matches Ok(p) && is_new_peering(
                p@,
                local_domain_id@,
                remote_domain_id@,
                g.id@,
                match remote_gateway_id {
                    Some(r) => Some(r@),
                    None => None,
                },
                created_at@,
            ),
            None => if domain_gateway_index(gateways@, local_domain_id@) < gateways@.len() {
                res matches Ok(p) && is_new_peering(
                    p@,
                    local_domain_id@,
                    remote_domain_id@,
                    gateways@[domain_gateway_index(gateways@, local_domain_id@)].id@,
                    match remote_gateway_id {
                        Some(r) => Some(r@),
                        None => None,
                    },
                    created_at@,
                )
            } else {
                res matches Err(e) && e@ == "no local gateway found"@
            },
        },
{
    let local_gateway_id = match named {
        Some(Ok(g)) => g.id,
        Some(Err(e)) => {
            return Err(e);
        },
        None => {
            let i = find_domain_gateway(gateways, local_domain_id);
            if i == gateways.len() {
                return Err(AppError::new("no local gateway found"));
            }
            copy_str(gateways[i].id.as_str())
        },
    };
    let remote_gateway = match remote_gateway_id {
        Some(r) => copy_str(r),
        None => copy_str("remote-gateway"),
    };
    let id = peering_id(local_domain_id, remote_domain_id);
    Ok(
        Peering {
            id,
            local_domain_id: copy_str(local_domain_id),
            remote_domain_id: copy_str(remote_domain_id),
            local_gateway_id,
            remote_gateway_id: remote_gateway,
            state: copy_str("active"),
            created_at: copy_str(created_at),
            signature: String::new(),
            signed_by: String::new(),
            signed_at: String::new(),
        },
    )
}

} // verus!
