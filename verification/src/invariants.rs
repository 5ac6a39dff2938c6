//! What holds of every well-formed ledger, and of every step that mints.

use crate::chain::{
    after_attempt, attempt_outcome, candidate, genesis_transaction, minted, mints, sealed_on,
    well_formed, BlockchainView, MintOutcome,
};
use crate::hasher::{accepted, ones, DIFFICULTY};
use vstd::prelude::*;

verus! {

/// The first block of a ledger records the genesis transfer and names `"0"`
/// as the hash before it, however far the chain has grown.
pub proof fn lemma_genesis_stays(s: BlockchainView)
    requires
        well_formed(s),
    ensures
        s.chain.len() >= 1,
        s.chain[0].tr_data == genesis_transaction(),
        s.chain[0].prev_hash == "0"@,
{
}

/// Every block after the first has a hash that passes the difficulty rule:
/// it holds at least `DIFFICULTY` digits `'1'`.
pub proof fn lemma_difficulty_met(s: BlockchainView, i: int)
    requires
        well_formed(s),
        1 <= i < s.chain.len(),
    ensures
        accepted(s.chain[i].hash),
        ones(s.chain[i].hash) >= DIFFICULTY,
{
}

/// Every block after the first names the hash of the block before it.
pub proof fn lemma_chain_linked(s: BlockchainView, i: int)
    requires
        well_formed(s),
        1 <= i < s.chain.len(),
    ensures
        s.chain[i].prev_hash == s.chain[i - 1].hash,
{
}

/// Minting with an accepted nonce keeps a ledger well-formed.
pub proof fn lemma_minted_well_formed(s: BlockchainView, nonce: nat, timestamp: Seq<char>)
    requires
        well_formed(s),
        s.pending.len() > 0,
        accepted(candidate(s, nonce)),
    ensures
        well_formed(minted(s, nonce, timestamp)),
{
    let t = minted(s, nonce, timestamp);
    assert forall|i: int| 1 <= i < t.chain.len() implies sealed_on(
        #[trigger] t.chain[i],
        t.chain[i - 1],
    ) by {
        if i < s.chain.len() {
            assert(t.chain[i] == s.chain[i]);
            assert(t.chain[i - 1] == s.chain[i - 1]);
        }
    }
}

/// A step that mints consumes exactly one transfer: the chain grows by one
/// block, which holds the transfer that stood at the front of the queue; the
/// blocks before it are those of before; and the queue loses its front and
/// nothing else.
pub proof fn lemma_mint_consumes_one(pre: BlockchainView, post: BlockchainView)
    requires
        mints(pre, post),
    ensures
        post.chain.len() == pre.chain.len() + 1,
        post.chain.drop_last() == pre.chain,
        post.chain.last().tr_data == pre.pending[0],
        post.pending.len() == pre.pending.len() - 1,
        post.pending == pre.pending.drop_first(),
{
    assert(post.chain.drop_last() =~= pre.chain);
}

/// An attempt on an empty queue changes nothing.
pub proof fn lemma_attempt_on_empty(s: BlockchainView, nonce: nat, timestamp: Seq<char>)
    requires
        s.pending.len() == 0,
    ensures
        attempt_outcome(s, nonce) == MintOutcome::NothingQueued,
        after_attempt(s, nonce, timestamp) == s,
{
}

/// An attempt either mints or leaves the ledger as it was, and it mints if
/// and only if something is queued and the candidate hash is accepted.
pub proof fn lemma_attempt_mints_or_keeps(s: BlockchainView, nonce: nat, timestamp: Seq<char>)
    ensures
        attempt_outcome(s, nonce) == MintOutcome::Minted <==> s.pending.len() > 0 && accepted(
            candidate(s, nonce),
        ),
        attempt_outcome(s, nonce) == MintOutcome::Minted ==> mints(
            s,
            after_attempt(s, nonce, timestamp),
        ),
        attempt_outcome(s, nonce) != MintOutcome::Minted ==> after_attempt(s, nonce, timestamp)
            == s,
{
}

} // verus!
