//! What gets signed: the payloads of checkpoints, sessions and replication
//! records; making an identity's ECDSA P-256 key pair and signing with it
//! (through `rcgen`, `rustls` and `ring`); how a signature is attached to a
//! record; and how it is checked against a record's payload.
//!
//! ECDSA signing draws random numbers, so what a signature is stays open;
//! what is stated is that a signature made by an identity whose keys belong
//! together holds over what was signed under its public key.
use vstd::prelude::*;
use vstd::utf8::encode_utf8;

use crate::digest::{hex_decode, hex_decode_text, hex_encode, lemma_hex_decode_encode, sha256_hex, sha256_hex16};
use crate::identity::{hashed_id, peer_id_from_key};
use crate::error::AppError;
use crate::models::{Checkpoint, CheckpointView, Identity, Session, SessionView};
use crate::text::copy_str;

verus! {

pub open spec fn checkpoint_payload_of(c: CheckpointView) -> Seq<char> {
    "checkpoint:"@ + c.id + ":"@ + c.repo_id + ":"@ + c.vault_id + ":"@ + c.commit + ":"@
        + c.parent
}

/// The text signed for a checkpoint: its id, repository, vault, commit and
/// parent, after `checkpoint:`, separated by colons.
pub fn checkpoint_payload(checkpoint: &Checkpoint) -> (res: String)
    ensures
        res@ == checkpoint_payload_of(checkpoint@),
{
    let mut s = copy_str("checkpoint:");
    s.append(checkpoint.id.as_str());
    s.append(":");
    s.append(checkpoint.repo_id.as_str());
    s.append(":");
    s.append(checkpoint.vault_id.as_str());
    s.append(":");
    s.append(checkpoint.commit.as_str());
    s.append(":");
    s.append(checkpoint.parent.as_str());
    s
}

pub open spec fn session_payload_of(s: SessionView) -> Seq<char> {
    "session:"@ + s.id + ":"@ + s.peer_id + ":"@ + s.repo_id + ":"@ + s.checkpoint_id + ":"@
        + s.direction + ":"@ + s.phase
}

/// The text signed for a session: its id, peer, repository, checkpoint,
/// direction and phase, after `session:`, separated by colons.
pub fn session_payload(session: &Session) -> (res: String)
    ensures
        res@ == session_payload_of(session@),
{
    let mut s = copy_str("session:");
    s.append(session.id.as_str());
    s.append(":");
    s.append(session.peer_id.as_str());
    s.append(":");
    s.append(session.repo_id.as_str());
    s.append(":");
    s.append(session.checkpoint_id.as_str());
    s.append(":");
    s.append(session.direction.as_str());
    s.append(":");
    s.append(session.phase.as_str());
    s
}

pub open spec fn replication_payload_of(
    peer_id: Seq<char>,
    repo_id: Seq<char>,
    checkpoint_id: Seq<char>,
    propagation_state: Seq<char>,
) -> Seq<char> {
    "replication:"@ + peer_id + ":"@ + repo_id + ":"@ + checkpoint_id + ":"@ + propagation_state
}

/// The text signed for a replication record.
pub fn replication_payload(
    peer_id: &str,
    repo_id: &str,
    checkpoint_id: &str,
    propagation_state: &str,
) -> (res: String)
    ensures
        res@ == replication_payload_of(peer_id@, repo_id@, checkpoint_id@, propagation_state@),
{
    let mut s = copy_str("replication:");
    s.append(peer_id);
    s.append(":");
    s.append(repo_id);
    s.append(":");
    s.append(checkpoint_id);
    s.append(":");
    s.append(propagation_state);
    s
}

/// Attaches `signature`, made by `identity` over the checkpoint's payload at
/// time `signed_at`; nothing else of the checkpoint changes.
pub fn sign_checkpoint(
    identity: &Identity,
    checkpoint: &mut Checkpoint,
    signature: &str,
    signed_at: &str,
)
    ensures
        final(checkpoint)@ == (CheckpointView {
            signature: signature@,
            signed_by: identity.peer_id@,
            signed_at: signed_at@,
            ..old(checkpoint)@
        }),
{
    checkpoint.signature = copy_str(signature);
    checkpoint.signed_by = identity.peer_id.clone();
    checkpoint.signed_at = copy_str(signed_at);
}

// ---------------------------------------------------------------------------
// Checking signatures
// ---------------------------------------------------------------------------

/// Whether `signature` is a valid ECDSA P-256 / SHA-256 signature (ASN.1 DER)
/// of `message` under the uncompressed public point `public_key`, as `ring`
/// decides it.
pub uninterp spec fn signature_valid(public_key: Seq<u8>, message: Seq<u8>, signature: Seq<u8>) -> bool;

/// Calls `verify_signature` of the `ECDSA_P256_SHA256` algorithm of
/// `rustls-webpki`, the first of the algorithms that the `ring` provider of
/// `rustls` lists (rustls `crypto/ring/mod.rs`, `SUPPORTED_SIG_ALGS`), and
/// tells whether it accepted. The contract claims that the outcome is the
/// name `signature_valid` of the three byte strings: the check reads nothing
/// but its arguments. It states nothing of which signatures are valid.
#[verifier::external_body]
fn ecdsa_p256_verify(public_key: &[u8], message: &[u8], signature: &[u8]) -> (res: bool)
    ensures
        res == signature_valid(public_key@, message@, signature@),
{
    let algorithms = rustls::crypto::ring::default_provider().signature_verification_algorithms;
    algorithms.all[0].verify_signature(public_key, message, signature).is_ok()
}

/// The public point, uncompressed, of the ECDSA P-256 key whose PKCS#8 DER
/// encoding is `private_key`.
pub uninterp spec fn ecdsa_public_key(private_key: Seq<u8>) -> Seq<u8>;

/// Calls `rcgen::KeyPair::generate`, which draws an ECDSA P-256 key at random
/// (rcgen `key_pair.rs`: `generate_for(&PKCS_ECDSA_P256_SHA256)`), and gives
/// its raw public key (`public_key_raw`: the uncompressed public point) and
/// its PKCS#8 DER (`serialize_der`). The contract claims only that the public
/// key is the public point of the private key; which key comes back is left
/// open, as it is random.
#[verifier::external_body]
fn generate_ecdsa_key() -> (res: Option<(Vec<u8>, Vec<u8>)>)
    ensures
        res matches Some(k) ==> k.0@ == ecdsa_public_key(k.1@),
{
    let key = rcgen::KeyPair::generate().ok()?;
    Some((key.public_key_raw().to_vec(), key.serialize_der()))
}

/// Calls `rustls::crypto::ring::sign::any_ecdsa_type` on the PKCS#8 key,
/// chooses `ECDSA_NISTP256_SHA256` and signs `message` (ring's
/// `ECDSA_P256_SHA256_ASN1_SIGNING`). ECDSA signing draws a random nonce, so
/// the signature is not named; the contract claims of every signature that
/// comes back that it holds over `message` under the key's public point, as
/// the matching ring verifier (`signature_valid`) decides. Nothing is claimed
/// of when signing fails (a key that is no P-256 PKCS#8 key fails).
#[verifier::external_body]
fn ecdsa_p256_sign(private_key: &[u8], message: &[u8]) -> (res: Option<Vec<u8>>)
    ensures
        res matches Some(sig) ==> signature_valid(ecdsa_public_key(private_key@), message@, sig@),
{
    let der = rustls::pki_types::PrivateKeyDer::Pkcs8(rustls::pki_types::PrivatePkcs8KeyDer::from(
        private_key.to_vec(),
    ));
    let signing = rustls::crypto::ring::sign::any_ecdsa_type(&der).ok()?;
    let signer = rustls::sign::SigningKey::choose_scheme(&*signing, &[rustls::SignatureScheme::ECDSA_NISTP256_SHA256])?;
    rustls::sign::Signer::sign(&*signer, message).ok()
}

/// The identity's keys belong together: its public key, in hexadecimal, is
/// the public point of its private key, in hexadecimal.
pub open spec fn keys_match(identity: &Identity) -> bool {
    match (hex_decode(identity.public_key@), hex_decode(identity.private_key@)) {
        (Some(p), Some(k)) => p == ecdsa_public_key(k),
        _ => false,
    }
}

/// A new identity with a fresh ECDSA P-256 key pair, created at
/// `created_at`: its peer id and fingerprint derive from its public key.
pub fn generate_identity(created_at: &str) -> (res: Result<Identity, AppError>)
    ensures
        res matches Ok(id) ==> {
            &&& keys_match(&id)
            &&& id.peer_id@ == hashed_id("peer-"@, id.public_key@)
            &&& id.fingerprint@ == sha256_hex(id.public_key@).take(16)
            &&& id.created_at@ == created_at@
        },
        res matches Err(e) ==> e@ == "key generation failed"@,
{
    match generate_ecdsa_key() {
        Some((public, private)) => {
            let public_key = hex_encode(public.as_slice());
            let private_key = hex_encode(private.as_slice());
            proof {
                lemma_hex_decode_encode(public@);
                lemma_hex_decode_encode(private@);
            }
            Ok(
                Identity {
                    peer_id: peer_id_from_key(public_key.as_str()),
                    fingerprint: sha256_hex16(public_key.as_str()),
                    public_key,
                    private_key,
                    created_at: copy_str(created_at),
                },
            )
        },
        None => Err(AppError::new("key generation failed")),
    }
}

/// Signs the UTF-8 bytes of `payload` with the identity's private key; the
/// signature in hexadecimal. When the identity's keys belong together, the
/// signature holds over `payload` under its public key.
pub fn sign_bytes(identity: &Identity, payload: &str) -> (res: Result<String, AppError>)
    ensures
        hex_decode(identity.private_key@) is None ==> (res matches Err(e) && e@
            == "malformed hexadecimal key material"@),
        res matches Err(e) ==> e@ == "malformed hexadecimal key material"@ || e@
            == "identity key cannot sign"@,
        keys_match(identity) ==> (res matches Ok(sig) ==> signature_failure(
            identity.public_key@,
            payload@,
            sig@,
        ) is None),
{
    let key = match hex_decode_text(identity.private_key.as_str()) {
        Some(k) => k,
        None => {
            return Err(AppError::new("malformed hexadecimal key material"));
        },
    };
    match ecdsa_p256_sign(key.as_slice(), payload.as_bytes()) {
        Some(sig) => {
            let text = hex_encode(sig.as_slice());
            proof {
                lemma_hex_decode_encode(sig@);
            }
            Ok(text)
        },
        None => Err(AppError::new("identity key cannot sign")),
    }
}

/// What checking `signature` over `payload` under `public_key` (key and
/// signature in hexadecimal) finds wrong: nothing, a malformed key or
/// signature, or a signature that does not hold.
pub open spec fn signature_failure(public_key: Seq<char>, payload: Seq<char>, signature: Seq<char>) -> Option<
    Seq<char>,
> {
    match (hex_decode(public_key), hex_decode(signature)) {
        (Some(k), Some(sig)) => if signature_valid(k, encode_utf8(payload), sig) {
            None
        } else {
            Some("signature verification failed"@)
        },
        _ => Some("malformed hexadecimal key material"@),
    }
}

/// What checking a record's signature finds wrong: nothing when the record is
/// not signed, else what checking the signature over its payload finds.
pub open spec fn record_signature_failure(public_key: Seq<char>, payload: Seq<char>, signature: Seq<char>) -> Option<
    Seq<char>,
> {
    if signature.len() == 0 {
        None
    } else {
        signature_failure(public_key, payload, signature)
    }
}

/// The outcome that a check with failure `f` gives.
pub open spec fn check_outcome(res: Result<(), AppError>, f: Option<Seq<char>>) -> bool {
    match f {
        None => res is Ok,
        Some(m) => res matches Err(e) && e@ == m,
    }
}

/// Checks that `signature` (hexadecimal) signs the UTF-8 bytes of `payload`
/// under `public_key` (hexadecimal).
pub fn verify_bytes(public_key: &str, payload: &str, signature: &str) -> (res: Result<(), AppError>)
    ensures
        check_outcome(res, signature_failure(public_key@, payload@, signature@)),
{
    let key = hex_decode_text(public_key);
    let sig = hex_decode_text(signature);
    match (key, sig) {
        (Some(k), Some(sg)) => {
            if ecdsa_p256_verify(k.as_slice(), payload.as_bytes(), sg.as_slice()) {
                Ok(())
            } else {
                Err(AppError::new("signature verification failed"))
            }
        },
        _ => Err(AppError::new("malformed hexadecimal key material")),
    }
}

/// An unsigned checkpoint is accepted as it is; a signed one when its
/// signature holds over its payload under `public_key`.
pub fn verify_checkpoint(checkpoint: &Checkpoint, public_key: &str) -> (res: Result<(), AppError>)
    ensures
        check_outcome(
            res,
            record_signature_failure(public_key@, checkpoint_payload_of(checkpoint@), checkpoint@.signature),
        ),
{
    if checkpoint.signature.as_str().is_empty() {
        Ok(())
    } else {
        let payload = checkpoint_payload(checkpoint);
        verify_bytes(public_key, payload.as_str(), checkpoint.signature.as_str())
    }
}

/// Attaches `signature`, made by `identity` over the session's payload at
/// time `signed_at`; the session also records it as its encryption marker.
pub fn sign_session(identity: &Identity, session: &mut Session, signature: &str, signed_at: &str)
    ensures
        final(session)@ == (SessionView {
            signature: signature@,
            signed_by: identity.peer_id@,
            signed_at: signed_at@,
            encrypted: signature@,
            ..old(session)@
        }),
{
    session.signature = copy_str(signature);
    session.signed_by = identity.peer_id.clone();
    session.signed_at = copy_str(signed_at);
    session.encrypted = copy_str(signature);
}

/// An unsigned session is accepted; a signed one when its signature holds
/// over its payload under `public_key`.
pub fn verify_session(session: &Session, public_key: &str) -> (res: Result<(), AppError>)
    ensures
        check_outcome(
            res,
            record_signature_failure(public_key@, session_payload_of(session@), session@.signature),
        ),
{
    if session.signature.as_str().is_empty() {
        Ok(())
    } else {
        let payload = session_payload(session);
        verify_bytes(public_key, payload.as_str(), session.signature.as_str())
    }
}

/// The signature, signer and time recorded with a replication record.
pub fn sign_replication(identity: &Identity, signature: &str, signed_at: &str) -> (res: (
    String,
    String,
    String,
))
    ensures
        res.0@ == signature@,
        res.1@ == identity.peer_id@,
        res.2@ == signed_at@,
{
    (copy_str(signature), identity.peer_id.clone(), copy_str(signed_at))
}

/// An unsigned replication record is accepted; a signed one when its
/// signature holds over the replication payload under `public_key`.
pub fn verify_replication(
    public_key: &str,
    peer_id: &str,
    repo_id: &str,
    checkpoint_id: &str,
    propagation_state: &str,
    signature: &str,
) -> (res: Result<(), AppError>)
    ensures
        check_outcome(
            res,
            record_signature_failure(
                public_key@,
                replication_payload_of(peer_id@, repo_id@, checkpoint_id@, propagation_state@),
                signature@,
            ),
        ),
{
    if signature.is_empty() {
        Ok(())
    } else {
        let payload = replication_payload(peer_id, repo_id, checkpoint_id, propagation_state);
        verify_bytes(public_key, payload.as_str(), signature)
    }
}

/// Signing a checkpoint leaves its payload as it was, so a signature stays
/// valid for the checkpoint it was made for.
pub proof fn lemma_signing_keeps_payload(before: CheckpointView, after: CheckpointView)
    requires
        after.id == before.id,
        after.repo_id == before.repo_id,
        after.vault_id == before.vault_id,
        after.commit == before.commit,
        after.parent == before.parent,
    ensures
        checkpoint_payload_of(after) == checkpoint_payload_of(before),
{
}

/// A signature made with `sign_bytes` over a checkpoint's payload by an
/// identity whose keys belong together (so that it holds over the payload
/// under the public key) verifies once attached with `sign_checkpoint`, and
/// still verifies after only the checkpoint's status or creation time change.
pub proof fn lemma_signed_checkpoint_verifies(
    public_key: Seq<char>,
    signer: Seq<char>,
    cp: CheckpointView,
    signature: Seq<char>,
    signed_at: Seq<char>,
    status: Seq<char>,
    created_at: Seq<char>,
)
    requires
        signature_failure(public_key, checkpoint_payload_of(cp), signature) is None,
    ensures
        ({
            let signed = CheckpointView { signature, signed_by: signer, signed_at, ..cp };
            &&& record_signature_failure(public_key, checkpoint_payload_of(signed), signed.signature) is None
            &&& record_signature_failure(
                public_key,
                checkpoint_payload_of(CheckpointView { status, created_at, ..signed }),
                signature,
            ) is None
        }),
{
}

/// A signature made over a session's payload that holds under a key
/// verifies once attached with `sign_session`, also after only its transfer
/// records (bytes transferred, offset) change. (The payload names the phase,
/// so a session that moves to another phase must be signed anew.)
pub proof fn lemma_signed_session_verifies(
    public_key: Seq<char>,
    signer: Seq<char>,
    session: SessionView,
    signature: Seq<char>,
    signed_at: Seq<char>,
    bytes_transferred: Seq<char>,
    transfer_offset: Seq<char>,
)
    requires
        signature_failure(public_key, session_payload_of(session), signature) is None,
    ensures
        ({
            let signed = SessionView { signature, signed_by: signer, signed_at, encrypted: signature, ..session };
            &&& record_signature_failure(public_key, session_payload_of(signed), signed.signature) is None
            &&& record_signature_failure(
                public_key,
                session_payload_of(SessionView { bytes_transferred, transfer_offset, ..signed }),
                signature,
            ) is None
        }),
{
}

/// A replication signature made over the replication payload that holds
/// under a key verifies with `verify_replication` under that key.
pub proof fn lemma_signed_replication_verifies(
    public_key: Seq<char>,
    peer_id: Seq<char>,
    repo_id: Seq<char>,
    checkpoint_id: Seq<char>,
    propagation_state: Seq<char>,
    signature: Seq<char>,
)
    requires
        signature_failure(
            public_key,
            replication_payload_of(peer_id, repo_id, checkpoint_id, propagation_state),
            signature,
        ) is None,
    ensures
        record_signature_failure(
            public_key,
            replication_payload_of(peer_id, repo_id, checkpoint_id, propagation_state),
            signature,
        ) is None,
{
}

} // verus!
