//! Lineage chains of checkpoints and their digests.
use vstd::prelude::*;

use crate::checkpoint::{checkpoint_index, checkpoint_lineage, lineage_of};
use crate::digest::{sha256_hex, sha256_hex_of};
use crate::error::AppError;
use crate::models::Checkpoint;
use crate::text::{copy_str, same_text};

verus! {

/// A node of a lineage graph.
#[derive(Clone, Debug)]
pub struct LineageNode {
    pub id: String,
    pub parent: String,
    pub origin: String,
    pub kind: String,
}

/// The lineage of `checkpoint`, parents looked up among `known`.
pub fn build_lineage_chain(known: &Vec<Checkpoint>, checkpoint: &Checkpoint) -> (res: Result<
    String,
    AppError,
>)
    ensures
        match lineage_of(known@, checkpoint@) {
            Ok(chain) => res matches Ok(s) && s@ == chain,
            Err(msg) => res matches Err(e) && e@ == msg,
        },
{
    checkpoint_lineage(known, checkpoint)
}

pub open spec fn lineage_hash_of(chain: Seq<char>) -> Seq<char> {
    "lh-"@ + sha256_hex(chain)
}

/// The digest of a lineage chain: `lh-` and the SHA-256 digest of the chain
/// in hexadecimal.
pub fn lineage_hash(chain: &str) -> (res: String)
    ensures
        res@ == lineage_hash_of(chain@),
{
    let mut res = copy_str("lh-");
    let h = sha256_hex_of(chain);
    res.append(h.as_str());
    res
}

pub open spec fn lineage_mismatch_message(expected: Seq<char>, actual: Seq<char>) -> Seq<char> {
    "lineage hash mismatch: expected "@ + expected + ", got "@ + actual
}

/// Accepts `expected` exactly when it is the digest of `chain`.
pub fn verify_lineage_hash(chain: &str, expected: &str) -> (res: Result<(), AppError>)
    ensures
        res is Ok <==> expected@ == lineage_hash_of(chain@),
        res matches Err(e) ==> e@ == lineage_mismatch_message(expected@, lineage_hash_of(chain@)),
{
    let actual = lineage_hash(chain);
    if !same_text(actual.as_str(), expected) {
        let mut msg = copy_str("lineage hash mismatch: expected ");
        msg.append(expected);
        msg.append(", got ");
        msg.append(actual.as_str());
        return Err(AppError::from_string(msg));
    }
    Ok(())
}

/// The lineage of the checkpoint `checkpoint_id` and its digest; the
/// checkpoint and its parents are looked up among `known`.
pub fn inspect_lineage(known: &Vec<Checkpoint>, checkpoint_id: &str) -> (res: Result<
    (String, String),
    AppError,
>)
    ensures
        checkpoint_index(known@, checkpoint_id@) >= known@.len() ==> (res matches Err(e) && e@
            == "checkpoint '"@ + checkpoint_id@ + "' was not found"@),
        checkpoint_index(known@, checkpoint_id@) < known@.len() ==> match lineage_of(
            known@,
            known@[checkpoint_index(known@, checkpoint_id@)]@,
        ) {
            Ok(chain) => res matches Ok(p) && p.0@ == chain && p.1@ == lineage_hash_of(chain),
            Err(msg) => res matches Err(e) && e@ == msg,
        },
{
    let mut i: usize = 0;
    assert(known@.skip(0) =~= known@);
    while i < known.len()
        invariant
            i <= known@.len(),
            checkpoint_index(known@, checkpoint_id@) == i + checkpoint_index(
                known@.skip(i as int),
                checkpoint_id@,
            ),
        decreases known.len() - i,
    {
        assert(known@.skip(i as int)[0] == known@[i as int]);
        if same_text(known[i].id.as_str(), checkpoint_id) {
            let chain = build_lineage_chain(known, &known[i])?;
            let hash = lineage_hash(chain.as_str());
            return Ok((chain, hash));
        }
        assert(known@.skip(i as int).drop_first() =~= known@.skip(i + 1));
        i = i + 1;
    }
    let mut msg = copy_str("checkpoint '");
    msg.append(checkpoint_id);
    msg.append("' was not found");
    Err(AppError::from_string(msg))
}

} // verus!
