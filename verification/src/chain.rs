//! The chain engine: the committed blocks, the queue of pending transfers,
//! and the mining step that turns the transfer at the front of the queue into
//! the next block.

use crate::digits::{decimal, push_decimal};
use crate::hasher::{accepted, digest, digest_of, meets_difficulty};
use crate::nonce::Nonce;
use chrono::Utc;
use rand::Rng;
use std::collections::VecDeque;
use vstd::prelude::*;
use vstd::string::{StringExecFns, StringSliceAdditionalSpecFns};
use vstd::utf8::encode_utf8;

verus! {

/// A transfer of `amount` units from one party to another.
#[derive(Debug, PartialEq, Eq)]
pub struct Transaction {
    pub from: String,
    pub to: String,
    pub amount: u64,
}

/// What a transaction says.
pub ghost struct TransactionView {
    pub from: Seq<char>,
    pub to: Seq<char>,
    pub amount: nat,
}

impl View for Transaction {
    type V = TransactionView;

    open spec fn view(&self) -> TransactionView {
        TransactionView { from: self.from@, to: self.to@, amount: self.amount as nat }
    }
}

impl Clone for Transaction {
    fn clone(&self) -> (copy: Transaction)
        ensures
            copy@ == self@,
    {
        Transaction { from: self.from.clone(), to: self.to.clone(), amount: self.amount }
    }
}

/// What mining adds to a block: when it was sealed and the nonce that sealed
/// it.
#[derive(Debug, PartialEq, Eq)]
pub struct Header {
    pub timestamp: String,
    pub nonce: Nonce,
}

impl Clone for Header {
    fn clone(&self) -> (copy: Header)
        ensures
            copy.timestamp@ == self.timestamp@,
            copy.nonce == self.nonce,
    {
        Header { timestamp: self.timestamp.clone(), nonce: self.nonce }
    }
}

/// One link of the chain.
#[derive(Debug, PartialEq, Eq)]
pub struct Block {
    pub header: Header,
    pub tr_data: Transaction,
    pub hash: String,
    pub prev_hash: String,
}

/// What a block says.
pub ghost struct BlockView {
    pub timestamp: Seq<char>,
    pub nonce: nat,
    pub tr_data: TransactionView,
    pub hash: Seq<char>,
    pub prev_hash: Seq<char>,
}

impl View for Block {
    type V = BlockView;

    open spec fn view(&self) -> BlockView {
        BlockView {
            timestamp: self.header.timestamp@,
            nonce: self.header.nonce@,
            tr_data: self.tr_data@,
            hash: self.hash@,
            prev_hash: self.prev_hash@,
        }
    }
}

impl Clone for Block {
    fn clone(&self) -> (copy: Block)
        ensures
            copy@ == self@,
    {
        Block {
            header: self.header.clone(),
            tr_data: self.tr_data.clone(),
            hash: self.hash.clone(),
            prev_hash: self.prev_hash.clone(),
        }
    }
}

/// The text that is hashed to seal a block: the previous hash, the sender,
/// the recipient, the amount in decimal and the nonce in decimal, one after
/// the other with nothing in between.
pub open spec fn preimage(prev_hash: Seq<char>, tr: TransactionView, nonce: nat) -> Seq<char> {
    prev_hash + tr.from + tr.to + decimal(tr.amount) + decimal(nonce)
}

/// The hash of a block with the given contents: the digest of the UTF-8
/// bytes of its preimage.
pub open spec fn block_hash(prev_hash: Seq<char>, tr: TransactionView, nonce: nat) -> Seq<char> {
    digest_of(encode_utf8(preimage(prev_hash, tr, nonce)))
}

/// Computes the hash that a block with these contents would carry.
pub fn candidate_hash(prev_hash: &str, tr: &Transaction, nonce: &Nonce) -> (hash: String)
    ensures
        hash@ == block_hash(prev_hash@, tr@, nonce@),
{
    let mut sum = String::new();
    sum.append(prev_hash);
    sum.append(tr.from.as_str());
    sum.append(tr.to.as_str());
    push_decimal(&mut sum, tr.amount);
    let nonce_text = nonce.to_decimal();
    sum.append(nonce_text.as_str());
    assert(sum@ =~= preimage(prev_hash@, tr@, nonce@));
    digest(sum.as_str().as_bytes())
}

/// The ledger as a value: the blocks in the order they were committed, and
/// the transfers still waiting, oldest first.
pub ghost struct BlockchainView {
    pub chain: Seq<BlockView>,
    pub pending: Seq<TransactionView>,
}

/// The amount that the first block records.
pub const GENESIS_AMOUNT: u64 = 100_000_000;

/// The transfer that the first block records.
pub open spec fn genesis_transaction() -> TransactionView {
    TransactionView { from: "Satoshi"@, to: "GENESIS"@, amount: GENESIS_AMOUNT as nat }
}

/// The shape of the first block. Its hash is free: it is the reading of the
/// clock at the time the ledger was made, and no digest.
pub open spec fn is_genesis(b: BlockView) -> bool {
    &&& b.timestamp == "0"@
    &&& b.nonce == 0
    &&& b.tr_data == genesis_transaction()
    &&& b.prev_hash == "0"@
}

/// `b` is a rightful successor of `prev`: it names the hash of `prev`, its
/// own hash is the digest of its contents, and that digest passes the
/// difficulty rule.
pub open spec fn sealed_on(b: BlockView, prev: BlockView) -> bool {
    &&& b.prev_hash == prev.hash
    &&& b.hash == block_hash(b.prev_hash, b.tr_data, b.nonce)
    &&& accepted(b.hash)
}

/// What holds of every ledger: the chain begins with a genesis block, and
/// every later block is sealed on the one before it.
pub open spec fn well_formed(s: BlockchainView) -> bool {
    &&& s.chain.len() >= 1
    &&& is_genesis(s.chain[0])
    &&& forall|i: int| 1 <= i < s.chain.len() ==> sealed_on(#[trigger] s.chain[i], s.chain[i - 1])
}

/// The hash that the next block would carry if it were sealed with `nonce`:
/// it holds the transfer at the front of the queue and follows the last
/// block of the chain.
pub open spec fn candidate(s: BlockchainView, nonce: nat) -> Seq<char> {
    block_hash(s.chain.last().hash, s.pending[0], nonce)
}

/// The ledger after the transfer at the front of the queue has been minted
/// with `nonce` at time `timestamp`: one block more, one pending transfer
/// less.
pub open spec fn minted(s: BlockchainView, nonce: nat, timestamp: Seq<char>) -> BlockchainView {
    BlockchainView {
        chain: s.chain.push(
            BlockView {
                timestamp,
                nonce,
                tr_data: s.pending[0],
                hash: candidate(s, nonce),
                prev_hash: s.chain.last().hash,
            },
        ),
        pending: s.pending.drop_first(),
    }
}

/// `post` is `pre` with the transfer at the front of its queue minted: the
/// nonce and the time are those that the new last block of `post` shows, and
/// the hash that they give is accepted.
pub open spec fn mints(pre: BlockchainView, post: BlockchainView) -> bool {
    let sealed = post.chain.last();
    &&& pre.pending.len() > 0
    &&& accepted(candidate(pre, sealed.nonce))
    &&& post == minted(pre, sealed.nonce, sealed.timestamp)
}

/// The amounts of generated transfers lie below this bound.
pub const AMOUNT_BOUND: u64 = 100_000_000;

/// The shape of the transfers that `new_transaction` makes up: fixed
/// parties, and an amount below `AMOUNT_BOUND`.
pub open spec fn is_generated(tr: TransactionView) -> bool {
    &&& tr.from == "sender"@
    &&& tr.to == "receiver"@
    &&& tr.amount < AMOUNT_BOUND
}

/// How a call to mint ended.
#[derive(Clone, Copy, Debug, PartialEq, Eq, Structural)]
pub enum MintOutcome {
    /// A block was sealed and appended.
    Minted,
    /// The queue was empty: there was nothing to mint.
    NothingQueued,
    /// No nonce that was tried gave an acceptable hash.
    Unsolved,
}

/// How one attempt with `nonce` ends: nothing to do on an empty queue, a new
/// block if the candidate hash is accepted, no change if it is not.
pub open spec fn attempt_outcome(s: BlockchainView, nonce: nat) -> MintOutcome {
    if s.pending.len() == 0 {
        MintOutcome::NothingQueued
    } else if accepted(candidate(s, nonce)) {
        MintOutcome::Minted
    } else {
        MintOutcome::Unsolved
    }
}

/// The ledger after one attempt with `nonce` at time `timestamp`.
pub open spec fn after_attempt(
    s: BlockchainView,
    nonce: nat,
    timestamp: Seq<char>,
) -> BlockchainView {
    if attempt_outcome(s, nonce) == MintOutcome::Minted {
        minted(s, nonce, timestamp)
    } else {
        s
    }
}

/// The ledger: a chain of blocks that only grows, and a queue of transfers
/// that are minted in the order in which they came.
#[derive(Debug, PartialEq, Eq)]
pub struct Blockchain {
    chain: Vec<Block>,
    tr_queue: VecDeque<Transaction>,
}

/// What a sequence of blocks says, block by block.
pub open spec fn block_views(blocks: Seq<Block>) -> Seq<BlockView> {
    blocks.map_values(|b: Block| b@)
}

/// What a sequence of transactions says, one by one.
pub open spec fn transaction_views(trs: Seq<Transaction>) -> Seq<TransactionView> {
    trs.map_values(|t: Transaction| t@)
}

impl View for Blockchain {
    type V = BlockchainView;

    closed spec fn view(&self) -> BlockchainView {
        BlockchainView {
            chain: block_views(self.chain@),
            pending: transaction_views(self.tr_queue@),
        }
    }
}

impl Clone for Blockchain {
    fn clone(&self) -> (copy: Blockchain)
        ensures
            copy@ == self@,
    {
        let copy = Blockchain { chain: self.chain.clone(), tr_queue: self.tr_queue.clone() };
        assert(copy@.chain =~= self@.chain);
        assert(copy@.pending =~= self@.pending);
        copy
    }
}

impl Blockchain {
    /// A ledger that holds the genesis block alone, with `hash` as that
    /// block's hash, and nothing pending.
    pub fn with_genesis_hash(hash: String) -> (ledger: Blockchain)
        ensures
            well_formed(ledger@),
            ledger@.chain.len() == 1,
            is_genesis(ledger@.chain[0]),
            ledger@.chain[0].hash == hash@,
            ledger@.pending.len() == 0,
    {
        let genesis = Block {
            header: Header { timestamp: String::from_str("0"), nonce: Nonce::zero() },
            tr_data: Transaction {
                from: String::from_str("Satoshi"),
                to: String::from_str("GENESIS"),
                amount: GENESIS_AMOUNT,
            },
            hash,
            prev_hash: String::from_str("0"),
        };
        let mut chain: Vec<Block> = Vec::new();
        chain.push(genesis);
        let ledger = Blockchain { chain, tr_queue: VecDeque::new() };
        ledger
    }

    /// A fresh ledger. The genesis block carries the reading of the clock,
    /// in seconds since the Unix epoch, in the place of a hash.
    pub fn new() -> (ledger: Blockchain)
        ensures
            well_formed(ledger@),
            ledger@.chain.len() == 1,
            is_genesis(ledger@.chain[0]),
            ledger@.pending.len() == 0,
    {
        Blockchain::with_genesis_hash(unix_time_text())
    }

    /// The committed blocks, oldest first.
    pub fn chain(&self) -> (blocks: &[Block])
        ensures
            block_views(blocks@) == self@.chain,
    {
        self.chain.as_slice()
    }

    /// The pending transfers, oldest first.
    pub fn tr_queue(&self) -> (queue: &VecDeque<Transaction>)
        ensures
            transaction_views(queue@) == self@.pending,
    {
        &self.tr_queue
    }

    /// Goes through the ledger block by block and tells whether the first is
    /// a genesis block and every later one names its predecessor's hash,
    /// carries the digest of its own contents and passes the difficulty rule.
    pub fn is_well_formed(&self) -> (ok: bool)
        ensures
            ok == well_formed(self@),
    {
        let len = self.chain.len();
        if len == 0 {
            return false;
        }
        let first = &self.chain[0];
        let zero = String::from_str("0");
        if !(first.header.timestamp == zero && first.header.nonce.is_zero() && first.prev_hash
            == zero && first.tr_data.from == String::from_str("Satoshi") && first.tr_data.to
            == String::from_str("GENESIS") && first.tr_data.amount == GENESIS_AMOUNT) {
            return false;
        }
        let mut i: usize = 1;
        while i < len
            invariant
                1 <= i <= len,
                len == self.chain@.len(),
                is_genesis(self@.chain[0]),
                forall|j: int|
                    1 <= j < i ==> sealed_on(#[trigger] self@.chain[j], self@.chain[j - 1]),
            decreases len - i,
        {
            let block = &self.chain[i];
            let hash = candidate_hash(
                block.prev_hash.as_str(),
                &block.tr_data,
                &block.header.nonce,
            );
            if !(block.prev_hash == self.chain[i - 1].hash && block.hash == hash
                && meets_difficulty(block.hash.as_str())) {
                assert(!sealed_on(self@.chain[i as int], self@.chain[i - 1]));
                return false;
            }
            i = i + 1;
        }
        true
    }

    /// Appends `tr` to the queue of pending transfers.
    pub fn submit(&mut self, tr: Transaction)
        requires
            well_formed(old(self)@),
        ensures
            well_formed(final(self)@),
            final(self)@.chain == old(self)@.chain,
            final(self)@.pending == old(self)@.pending.push(tr@),
    {
        self.tr_queue.push_back(tr);
        assert(self@.pending =~= old(self)@.pending.push(tr@));
    }

    /// Queues `tr_amount` made-up transfers behind those that wait already,
    /// each with an amount drawn at random below `AMOUNT_BOUND`.
    pub fn new_transaction(&mut self, tr_amount: usize)
        requires
            well_formed(old(self)@),
        ensures
            well_formed(final(self)@),
            final(self)@.chain == old(self)@.chain,
            final(self)@.pending.len() == old(self)@.pending.len() + tr_amount,
            final(self)@.pending.take(old(self)@.pending.len() as int) == old(self)@.pending,
            forall|i: int|
                old(self)@.pending.len() <= i < final(self)@.pending.len() ==> is_generated(
                    #[trigger] final(self)@.pending[i],
                ),
    {
        let mut made: usize = 0;
        while made < tr_amount
            invariant
                made <= tr_amount,
                well_formed(self@),
                self@.chain == old(self)@.chain,
                self@.pending.len() == old(self)@.pending.len() + made,
                self@.pending.take(old(self)@.pending.len() as int) == old(self)@.pending,
                forall|i: int|
                    old(self)@.pending.len() <= i < self@.pending.len() ==> is_generated(
                        #[trigger] self@.pending[i],
                    ),
            decreases tr_amount - made,
        {
            let ghost before = self@;
            let tr = Transaction {
                from: String::from_str("sender"),
                to: String::from_str("receiver"),
                amount: random_below(AMOUNT_BOUND),
            };
            self.submit(tr);
            made = made + 1;
            assert(self@.pending.take(old(self)@.pending.len() as int) =~= before.pending.take(
                old(self)@.pending.len() as int,
            ));
        }
    }

    /// Tries to mint the transfer at the front of the queue with the given
    /// nonce. If the hash of the block that results passes the difficulty
    /// rule, the block is appended with `timestamp` as its time and the
    /// transfer leaves the queue; if not, or if nothing is queued, the ledger
    /// stays as it is.
    pub fn attempt(&mut self, nonce: Nonce, timestamp: String) -> (outcome: MintOutcome)
        requires
            well_formed(old(self)@),
        ensures
            well_formed(final(self)@),
            outcome == attempt_outcome(old(self)@, nonce@),
            final(self)@ == after_attempt(old(self)@, nonce@, timestamp@),
    {
        if self.tr_queue.len() == 0 {
            return MintOutcome::NothingQueued;
        }
        let hash = self.candidate_for(&nonce);
        if meets_difficulty(hash.as_str()) {
            self.seal(nonce, hash, timestamp);
            MintOutcome::Minted
        } else {
            MintOutcome::Unsolved
        }
    }

    /// Mints the transfer at the front of the queue: draws nonces at random
    /// until one gives an accepted hash, then appends the block, with the
    /// reading of the clock as its time, and takes the transfer off the
    /// queue. The search gives up after `limit` nonces and then leaves the
    /// ledger as it was; on an empty queue there is nothing to do.
    pub fn mint_within(&mut self, limit: u64) -> (outcome: MintOutcome)
        requires
            well_formed(old(self)@),
        ensures
            well_formed(final(self)@),
            old(self)@.pending.len() == 0 <==> outcome == MintOutcome::NothingQueued,
            outcome == MintOutcome::Minted ==> limit > 0 && mints(old(self)@, final(self)@),
            outcome != MintOutcome::Minted ==> final(self)@ == old(self)@,
    {
        if self.tr_queue.len() == 0 {
            return MintOutcome::NothingQueued;
        }
        let mut tried: u64 = 0;
        while tried < limit
            invariant
                tried <= limit,
                well_formed(self@),
                self@ == old(self)@,
                self@.pending.len() > 0,
            decreases limit - tried,
        {
            let nonce = Nonce::random();
            let hash = self.candidate_for(&nonce);
            if meets_difficulty(hash.as_str()) {
                self.seal(nonce, hash, unix_time_text());
                return MintOutcome::Minted;
            }
            tried = tried + 1;
        }
        MintOutcome::Unsolved
    }

    /// As `mint_within`, with the largest limit there is: the search gives up
    /// only after `u64::MAX` nonces.
    pub fn mint(&mut self) -> (outcome: MintOutcome)
        requires
            well_formed(old(self)@),
        ensures
            well_formed(final(self)@),
            old(self)@.pending.len() == 0 <==> outcome == MintOutcome::NothingQueued,
            outcome == MintOutcome::Minted ==> mints(old(self)@, final(self)@),
            outcome != MintOutcome::Minted ==> final(self)@ == old(self)@,
    {
        self.mint_within(u64::MAX)
    }

    /// The hash of the block that would follow the chain if the front of the
    /// queue were sealed with `nonce`.
    fn candidate_for(&self, nonce: &Nonce) -> (hash: String)
        requires
            well_formed(self@),
            self@.pending.len() > 0,
        ensures
            hash@ == candidate(self@, nonce@),
    {
        let last = &self.chain[self.chain.len() - 1];
        candidate_hash(last.hash.as_str(), &self.tr_queue[0], nonce)
    }

    /// Appends the block that `nonce` seals and takes its transfer off the
    /// queue.
    fn seal(&mut self, nonce: Nonce, hash: String, timestamp: String)
        requires
            well_formed(old(self)@),
            old(self)@.pending.len() > 0,
            hash@ == candidate(old(self)@, nonce@),
            accepted(hash@),
        ensures
            well_formed(final(self)@),
            final(self)@ == minted(old(self)@, nonce@, timestamp@),
    {
        let prev_hash = self.chain[self.chain.len() - 1].hash.clone();
        let tr_data = self.tr_queue[0].clone();
        let block = Block { header: Header { timestamp, nonce }, tr_data, hash, prev_hash };
        self.chain.push(block);
        self.tr_queue.pop_front();
        assert(self@.chain =~= minted(old(self)@, nonce@, timestamp@).chain);
        assert(self@.pending =~= minted(old(self)@, nonce@, timestamp@).pending);
    }
}

/// Reads the clock with `chrono::Utc::now()` and writes its `timestamp()`,
/// the seconds since the Unix epoch, in decimal. Nothing is claimed of the
/// text: it is whatever the clock says.
#[verifier::external_body]
fn unix_time_text() -> (text: String) {
    Utc::now().timestamp().to_string()
}

/// Draws from `rand::thread_rng()` with `gen_range(0..bound)`. Trusted:
/// whatever is drawn lies below `bound`.
#[verifier::external_body]
fn random_below(bound: u64) -> (drawn: u64)
    requires
        bound > 0,
    ensures
        drawn < bound,
{
    rand::thread_rng().gen_range(0..bound)
}

} // verus!
