//! The ledger: transactions, blocks, and the chain with its pool of pending
//! transactions.

use crate::encoding::{
    decimal, json_quoted, json_quoted_of, push_decimal, push_signed_decimal, signed_decimal,
};
use crate::hashing::{has_leading_zeros, is_hex_digest, meets_difficulty, sha256_hex, sha256_hex_of, HASH_INPUT_LIMIT};
use vstd::prelude::*;

verus! {

/// Relies on `SystemTime::now` and `SystemTime::duration_since`: the wall-clock
/// time in milliseconds since the Unix epoch, or 0 while the clock stands
/// before the epoch.
#[verifier::external_body]
fn get_time() -> (r: u128) {
    match std::time::SystemTime::now().duration_since(std::time::UNIX_EPOCH) {
        Ok(elapsed) => elapsed.as_millis(),
        Err(_) => 0,
    }
}

/// Relies on `uuid::Uuid::new_v4` and its `Display`: a fresh random identifier
/// in hyphenated form. It panics only when the operating system cannot supply
/// random bytes, which no argument can rule out.
#[verifier::external_body]
pub(crate) fn fresh_id() -> (r: String) {
    uuid::Uuid::new_v4().to_string()
}

/// A transfer of `amount` from `sender` to `recipient`; `id` tells it apart from
/// every other transaction.
#[derive(Debug)]
pub struct Transaction {
    pub id: String,
    pub sender: String,
    pub recipient: String,
    pub amount: i64,
}

pub struct TransactionView {
    pub id: Seq<char>,
    pub sender: Seq<char>,
    pub recipient: Seq<char>,
    pub amount: i64,
}

impl View for Transaction {
    type V = TransactionView;

    open spec fn view(&self) -> TransactionView {
        TransactionView {
            id: self.id@,
            sender: self.sender@,
            recipient: self.recipient@,
            amount: self.amount,
        }
    }
}

/// The views of a sequence of transactions.
pub open spec fn tx_views(txs: Seq<Transaction>) -> Seq<TransactionView> {
    txs.map_values(|t: Transaction| t@)
}

impl Clone for Transaction {
    fn clone(&self) -> (r: Self)
        ensures
            r@ == self@,
    {
        Transaction {
            id: self.id.clone(),
            sender: self.sender.clone(),
            recipient: self.recipient.clone(),
            amount: self.amount,
        }
    }
}

/// The JSON text of a transaction: its fields in declaration order.
pub open spec fn transaction_json(t: TransactionView) -> Seq<char> {
    "{\"id\":"@ + json_quoted_of(t.id) + ",\"sender\":"@ + json_quoted_of(t.sender)
        + ",\"recipient\":"@ + json_quoted_of(t.recipient) + ",\"amount\":"@ + signed_decimal(
        t.amount as int,
    ) + "}"@
}

/// The JSON texts of transactions, separated by commas.
pub open spec fn transactions_json(ts: Seq<TransactionView>) -> Seq<char>
    decreases ts.len(),
{
    if ts.len() == 0 {
        Seq::empty()
    } else if ts.len() == 1 {
        transaction_json(ts[0])
    } else {
        transactions_json(ts.drop_last()) + ","@ + transaction_json(ts.last())
    }
}

impl Transaction {
    /// A transaction with a freshly generated id.
    pub fn new(sender: &str, recipient: &str, amount: i64) -> (r: Self)
        ensures
            r.sender@ == sender@,
            r.recipient@ == recipient@,
            r.amount == amount,
    {
        Transaction {
            id: fresh_id(),
            sender: sender.to_owned(),
            recipient: recipient.to_owned(),
            amount,
        }
    }

    pub fn get_id(&self) -> (r: &str)
        ensures
            r@ == self.id@,
    {
        self.id.as_str()
    }

    /// Appends the JSON text of this transaction to `out`.
    pub fn push_json(&self, out: &mut String)
        ensures
            final(out)@ == old(out)@ + transaction_json(self@),
    {
        out.append("{\"id\":");
        out.append(json_quoted(self.id.as_str()).as_str());
        out.append(",\"sender\":");
        out.append(json_quoted(self.sender.as_str()).as_str());
        out.append(",\"recipient\":");
        out.append(json_quoted(self.recipient.as_str()).as_str());
        out.append(",\"amount\":");
        push_signed_decimal(out, self.amount);
        out.append("}");
        proof {
            let t = self@;
            assert(out@ =~= old(out)@ + transaction_json(t));
        }
    }
}

/// Appends the JSON texts of `txs`, separated by commas, to `out`.
fn push_transactions_json(out: &mut String, txs: &Vec<Transaction>)
    ensures
        final(out)@ == old(out)@ + transactions_json(tx_views(txs@)),
{
    let n = txs.len();
    let mut i: usize = 0;
    while i < n
        invariant
            n == txs@.len(),
            i <= n,
            out@ == old(out)@ + transactions_json(tx_views(txs@).take(i as int)),
        decreases n - i,
    {
        let ghost views = tx_views(txs@);
        if i > 0 {
            out.append(",");
        }
        txs[i].push_json(out);
        proof {
            let prefix = views.take(i as int);
            let next = views.take(i + 1);
            assert(next.drop_last() =~= prefix);
            assert(next.last() == txs@[i as int]@);
            assert(out@ =~= old(out)@ + transactions_json(next));
        }
        i = i + 1;
    }
    proof {
        assert(tx_views(txs@).take(n as int) =~= tx_views(txs@));
    }
}

/// A batch of transactions with its place in the chain, the time it was made,
/// its proof of work and the digest of the block before it.
#[derive(Debug)]
pub struct Block {
    pub index: u64,
    pub timestamp: u128,
    pub proof: u64,
    pub transactions: Vec<Transaction>,
    pub previous_hash: String,
}

pub struct BlockView {
    pub index: u64,
    pub timestamp: u128,
    pub proof: u64,
    pub transactions: Seq<TransactionView>,
    pub previous_hash: Seq<char>,
}

impl View for Block {
    type V = BlockView;

    open spec fn view(&self) -> BlockView {
        BlockView {
            index: self.index,
            timestamp: self.timestamp,
            proof: self.proof,
            transactions: tx_views(self.transactions@),
            previous_hash: self.previous_hash@,
        }
    }
}

/// The views of a sequence of blocks.
pub open spec fn block_views(blocks: Seq<Block>) -> Seq<BlockView> {
    blocks.map_values(|b: Block| b@)
}

impl Clone for Block {
    fn clone(&self) -> (r: Self)
        ensures
            r@ == self@,
    {
        let transactions = self.transactions.clone();
        proof {
            assert(tx_views(transactions@) =~= tx_views(self.transactions@));
        }
        Block {
            index: self.index,
            timestamp: self.timestamp,
            proof: self.proof,
            transactions,
            previous_hash: self.previous_hash.clone(),
        }
    }
}

/// The first block of every chain.
pub open spec fn genesis() -> BlockView {
    BlockView {
        index: 0,
        timestamp: 0,
        proof: 100,
        transactions: Seq::empty(),
        previous_hash: "1"@,
    }
}

/// The JSON text of a block, which its digest is taken of: its fields in
/// declaration order, without white space.
pub open spec fn block_json(b: BlockView) -> Seq<char> {
    "{\"index\":"@ + decimal(b.index as nat) + ",\"timestamp\":"@ + decimal(b.timestamp as nat)
        + ",\"proof\":"@ + decimal(b.proof as nat) + ",\"transactions\":["@ + transactions_json(
        b.transactions,
    ) + "],\"previous_hash\":"@ + json_quoted_of(b.previous_hash) + "}"@
}

/// The digest of a block: the hex SHA-256 digest of its JSON text, or the empty
/// text for a block whose JSON text is too long to digest.
pub open spec fn block_hash(b: BlockView) -> Seq<char> {
    if block_json(b).len() < HASH_INPUT_LIMIT {
        sha256_hex_of(block_json(b))
    } else {
        Seq::empty()
    }
}

impl Block {
    pub fn get_genesis() -> (r: Self)
        ensures
            r@ == genesis(),
    {
        let r = Block {
            index: 0,
            timestamp: 0,
            proof: 100,
            transactions: Vec::new(),
            previous_hash: "1".to_owned(),
        };
        proof {
            assert(r@.transactions =~= Seq::<TransactionView>::empty());
        }
        r
    }

    /// Returns the index of the Block in the chain.
    pub fn get_index(&self) -> (r: u64)
        ensures
            r == self.index,
    {
        self.index
    }

    /// The JSON text of this block.
    pub fn to_json(&self) -> (r: String)
        ensures
            r@ == block_json(self@),
    {
        let mut out = String::new();
        out.append("{\"index\":");
        push_decimal(&mut out, self.index as u128);
        out.append(",\"timestamp\":");
        push_decimal(&mut out, self.timestamp);
        out.append(",\"proof\":");
        push_decimal(&mut out, self.proof as u128);
        out.append(",\"transactions\":[");
        push_transactions_json(&mut out, &self.transactions);
        out.append("],\"previous_hash\":");
        out.append(json_quoted(self.previous_hash.as_str()).as_str());
        out.append("}");
        proof {
            assert(out@ =~= block_json(self@));
        }
        out
    }

    /// The digest of this block: 64 lowercase hex digits, unless its JSON text
    /// is too long to digest.
    pub fn get_hash(&self) -> (r: String)
        ensures
            r@ == block_hash(self@),
            block_json(self@).len() < HASH_INPUT_LIMIT ==> is_hex_digest(r@),
    {
        let text = self.to_json();
        if (text.as_str().unicode_len() as u64) < HASH_INPUT_LIMIT {
            sha256_hex(text.as_str())
        } else {
            String::new()
        }
    }
}

/// The text digested to check a proof against the previous proof.
pub open spec fn proof_text(last_proof: u64, proof: u64) -> Seq<char> {
    decimal(last_proof as nat) + decimal(proof as nat)
}

/// `proof` is a valid proof of work after `last_proof`.
pub open spec fn valid_proof_spec(last_proof: u64, proof: u64) -> bool {
    meets_difficulty(sha256_hex_of(proof_text(last_proof, proof)))
}

/// `proof` is what the search for a proof after `last_proof` finds: the least
/// valid one, or `u64::MAX` where no `u64` is valid.
pub open spec fn first_valid_proof(last_proof: u64, proof: u64) -> bool {
    &&& forall|q: u64| q < proof ==> !valid_proof_spec(last_proof, q)
    &&& if exists|q: u64| valid_proof_spec(last_proof, q) {
        valid_proof_spec(last_proof, proof)
    } else {
        proof == u64::MAX
    }
}

/// `block` may follow `prev`: it names the digest of `prev` and its proof is
/// valid after the proof of `prev`.
pub open spec fn links(prev: BlockView, block: BlockView) -> bool {
    &&& block.previous_hash == block_hash(prev)
    &&& valid_proof_spec(prev.proof, block.proof)
}

/// The fixed sentinel that a chain starts with: index 0, proof 100, no
/// transactions and the previous-hash `"1"`. Its timestamp is free.
pub open spec fn is_genesis_sentinel(b: BlockView) -> bool {
    &&& b.index == 0
    &&& b.proof == 100
    &&& b.transactions.len() == 0
    &&& b.previous_hash == "1"@
}

/// A valid chain starts with the genesis sentinel, and each later block links to
/// the one before it.
pub open spec fn valid_chain_spec(blocks: Seq<BlockView>) -> bool {
    &&& blocks.len() > 0
    &&& is_genesis_sentinel(blocks[0])
    &&& forall|i: int| 1 <= i < blocks.len() ==> #[trigger] links(blocks[i - 1], blocks[i])
}

/// Some transaction in `txs` has the id `id`.
pub open spec fn listed(txs: Seq<TransactionView>, id: Seq<char>) -> bool {
    exists|j: int| 0 <= j < txs.len() && #[trigger] txs[j].id == id
}

/// Some block of `blocks` holds a transaction with the id `id`.
pub open spec fn committed(blocks: Seq<BlockView>, id: Seq<char>) -> bool {
    exists|i: int| 0 <= i < blocks.len() && #[trigger] listed(blocks[i].transactions, id)
}

/// Holds of a transaction whose id no transaction of `txs` has.
pub open spec fn unlisted_in(txs: Seq<TransactionView>) -> spec_fn(TransactionView) -> bool {
    |t: TransactionView| !listed(txs, t.id)
}

/// Holds of a transaction whose id no block of `blocks` holds.
pub open spec fn uncommitted_in(blocks: Seq<BlockView>) -> spec_fn(TransactionView) -> bool {
    |t: TransactionView| !committed(blocks, t.id)
}

/// The blocks and the pending transactions of a chain.
pub struct ChainView {
    pub blocks: Seq<BlockView>,
    pub pending: Seq<TransactionView>,
}

/// The pool holds each id once, and none that a block holds.
pub open spec fn pool_ok(c: ChainView) -> bool {
    &&& forall|i: int, j: int|
        0 <= i < j < c.pending.len() ==> #[trigger] c.pending[i].id != #[trigger] c.pending[j].id
    &&& forall|i: int| 0 <= i < c.pending.len() ==> !committed(c.blocks, #[trigger] c.pending[i].id)
}

/// A chain has at least one block, and its pool is in order.
pub open spec fn chain_wf(c: ChainView) -> bool {
    c.blocks.len() > 0 && pool_ok(c)
}

/// Admitting `t`: refused when its id is pending or committed, else it joins the pool.
pub open spec fn admission(c: ChainView, t: TransactionView) -> (ChainView, bool) {
    if listed(c.pending, t.id) || committed(c.blocks, t.id) {
        (c, false)
    } else {
        (ChainView { blocks: c.blocks, pending: c.pending.push(t) }, true)
    }
}

/// The chain after a block is made of the whole pool.
pub open spec fn with_new_block(
    c: ChainView,
    proof: u64,
    previous_hash: Seq<char>,
    timestamp: u128,
) -> ChainView {
    ChainView {
        blocks: c.blocks.push(
            BlockView {
                index: c.blocks.len() as u64,
                timestamp,
                proof,
                transactions: c.pending,
                previous_hash,
            },
        ),
        pending: Seq::empty(),
    }
}

/// Appending `b`: taken only into the next slot and only when it links to the
/// last block; the pending transactions that it holds leave the pool.
pub open spec fn appending(c: ChainView, b: BlockView) -> (ChainView, bool) {
    if b.index as int == c.blocks.len() && links(c.blocks.last(), b) {
        (
            ChainView {
                blocks: c.blocks.push(b),
                pending: c.pending.filter(unlisted_in(b.transactions)),
            },
            true,
        )
    } else {
        (c, false)
    }
}

/// Adopting `blocks`: taken only when longer and valid; the pending transactions
/// that the new blocks do not hold stay pending.
pub open spec fn adoption(c: ChainView, blocks: Seq<BlockView>) -> (ChainView, bool) {
    if blocks.len() > c.blocks.len() && valid_chain_spec(blocks) {
        (ChainView { blocks, pending: c.pending.filter(uncommitted_in(blocks)) }, true)
    } else {
        (c, false)
    }
}

/// Whether a transaction of `txs` has the id `id`.
fn is_listed(txs: &Vec<Transaction>, id: &String) -> (r: bool)
    ensures
        r == listed(tx_views(txs@), id@),
{
    let n = txs.len();
    let mut i: usize = 0;
    while i < n
        invariant
            n == txs@.len(),
            i <= n,
            forall|k: int| 0 <= k < i ==> txs@[k].id@ != id@,
        decreases n - i,
    {
        if txs[i].id == *id {
            assert(tx_views(txs@)[i as int].id == id@);
            return true;
        }
        i = i + 1;
    }
    assert forall|j: int| 0 <= j < tx_views(txs@).len() implies #[trigger] tx_views(txs@)[j].id
        != id@ by {
        assert(txs@[j].id@ != id@);
    }
    false
}

/// Whether a block of `blocks` holds a transaction with the id `id`.
fn is_committed(blocks: &Vec<Block>, id: &String) -> (r: bool)
    ensures
        r == committed(block_views(blocks@), id@),
{
    let n = blocks.len();
    let mut i: usize = 0;
    while i < n
        invariant
            n == blocks@.len(),
            i <= n,
            forall|k: int|
                0 <= k < i ==> !listed(#[trigger] block_views(blocks@)[k].transactions, id@),
        decreases n - i,
    {
        if is_listed(&blocks[i].transactions, id) {
            assert(listed(block_views(blocks@)[i as int].transactions, id@));
            return true;
        }
        i = i + 1;
    }
    false
}

/// The ledger: a chain of blocks that starts with the genesis block, and the
/// transactions waiting for the next block.
pub struct Blockchain {
    current_transactions: Vec<Transaction>,
    blocks: Vec<Block>,
}

impl View for Blockchain {
    type V = ChainView;

    closed spec fn view(&self) -> ChainView {
        ChainView { blocks: block_views(self.blocks@), pending: tx_views(self.current_transactions@) }
    }
}

impl Default for Blockchain {
    fn default() -> (r: Self)
        ensures
            r.wf(),
            r@.blocks == seq![genesis()],
            r@.pending.len() == 0,
    {
        Blockchain::new()
    }
}

impl Blockchain {
    pub open spec fn wf(&self) -> bool {
        chain_wf(self@)
    }

    /// Creates a new Blockchain with only the genesis block.
    pub fn new() -> (r: Self)
        ensures
            r.wf(),
            r@.blocks == seq![genesis()],
            r@.pending.len() == 0,
    {
        let r = Blockchain { current_transactions: Vec::new(), blocks: vec![Block::get_genesis()] };
        proof {
            assert(r@.blocks =~= seq![genesis()]);
            assert(r@.pending =~= Seq::<TransactionView>::empty());
        }
        r
    }

    /// Creates a blockchain from given blocks, with no pending transactions.
    pub fn from_blocks(blocks: Vec<Block>) -> (r: Self)
        requires
            blocks@.len() > 0,
        ensures
            r.wf(),
            r@.blocks == block_views(blocks@),
            r@.pending.len() == 0,
    {
        Blockchain { current_transactions: Vec::new(), blocks }
    }

    /// Returns a copy of the blocks.
    pub fn get_blocks(&self) -> (r: Vec<Block>)
        ensures
            block_views(r@) == self@.blocks,
    {
        let r = self.blocks.clone();
        proof {
            assert(block_views(r@) =~= self@.blocks);
        }
        r
    }

    /// The number of blocks, also called the length of the chain.
    pub fn len(&self) -> (r: usize)
        ensures
            r == self@.blocks.len(),
    {
        self.blocks.len()
    }

    /// Returns a copy of the pending transactions.
    pub fn get_current_transactions(&self) -> (r: Vec<Transaction>)
        ensures
            tx_views(r@) == self@.pending,
    {
        let r = self.current_transactions.clone();
        proof {
            assert(tx_views(r@) =~= self@.pending);
        }
        r
    }

    /// The last block of the chain.
    pub fn last_block(&self) -> (r: &Block)
        requires
            self.wf(),
        ensures
            r@ == self@.blocks.last(),
    {
        &self.blocks[self.blocks.len() - 1]
    }

    /// Whether `proof` is a valid proof of work after `last_proof`: the digest of
    /// their decimal texts, one after the other, starts with `DIFFICULTY` zeros.
    pub fn valid_proof(last_proof: u64, proof: u64) -> (r: bool)
        ensures
            r == valid_proof_spec(last_proof, proof),
    {
        let mut text = String::new();
        push_decimal(&mut text, last_proof as u128);
        push_decimal(&mut text, proof as u128);
        proof {
            crate::encoding::lemma_u64_decimal_len(last_proof);
            crate::encoding::lemma_u64_decimal_len(proof);
            assert(text@ =~= proof_text(last_proof, proof));
        }
        let digest = sha256_hex(text.as_str());
        has_leading_zeros(&digest)
    }

    /// Searches the proofs from 0 upwards for the first one that is valid after
    /// `last_proof`; where no `u64` is valid, the search ends at `u64::MAX`.
    pub fn proof_of_work(last_proof: u64) -> (r: u64)
        ensures
            first_valid_proof(last_proof, r),
            (exists|q: u64| valid_proof_spec(last_proof, q)) ==> valid_proof_spec(last_proof, r),
    {
        let mut candidate: u64 = 0;
        while candidate < u64::MAX
            invariant
                forall|q: u64| q < candidate ==> !valid_proof_spec(last_proof, q),
            decreases u64::MAX - candidate,
        {
            if Blockchain::valid_proof(last_proof, candidate) {
                return candidate;
            }
            candidate = candidate + 1;
        }
        let found = Blockchain::valid_proof(last_proof, candidate);
        proof {
            if !found {
                assert forall|q: u64| !valid_proof_spec(last_proof, q) by {
                    if q < candidate {
                    }
                }
            }
        }
        candidate
    }

    /// Searches for the proof of work that may follow the last block.
    pub fn run_pow(&self) -> (r: u64)
        requires
            self.wf(),
        ensures
            first_valid_proof(self@.blocks.last().proof, r),
    {
        Blockchain::proof_of_work(self.last_block().proof)
    }

    /// Adds a transaction to the pool, unless one with its id is pending or in
    /// a block already. Returns whether it was added.
    pub fn add_new_transaction(&mut self, transaction: &Transaction) -> (r: bool)
        requires
            old(self).wf(),
        ensures
            final(self).wf(),
            (final(self)@, r) == admission(old(self)@, transaction@),
    {
        if is_listed(&self.current_transactions, &transaction.id) {
            return false;
        }
        if is_committed(&self.blocks, &transaction.id) {
            return false;
        }
        let ghost before = self@;
        self.current_transactions.push(transaction.clone());
        proof {
            assert(self@.pending =~= before.pending.push(transaction@));
            let p = self@.pending;
            assert forall|i: int, j: int| 0 <= i < j < p.len() implies #[trigger] p[i].id
                != #[trigger] p[j].id by {
                if j == p.len() - 1 {
                    if p[i].id == transaction@.id {
                        assert(before.pending[i].id == transaction@.id);
                    }
                }
            }
        }
        true
    }

    /// Makes a block of all pending transactions, stamped with the current time,
    /// and appends it. The pool is then empty.
    pub fn create_new_block(&mut self, proof: u64, previous_hash: String) -> (r: &Block)
        requires
            old(self).wf(),
        ensures
            final(self).wf(),
            final(self)@ == with_new_block(
                old(self)@,
                proof,
                previous_hash@,
                final(self)@.blocks.last().timestamp,
            ),
            r@ == final(self)@.blocks.last(),
    {
        let mut transactions: Vec<Transaction> = Vec::new();
        std::mem::swap(&mut transactions, &mut self.current_transactions);
        let block = Block {
            index: self.blocks.len() as u64,
            timestamp: get_time(),
            proof,
            transactions,
            previous_hash,
        };
        let ghost before = self@;
        self.blocks.push(block);
        proof {
            assert(self@.blocks =~= before.blocks.push(block@));
            assert(self@.pending =~= Seq::<TransactionView>::empty());
        }
        self.last_block()
    }

    /// Appends `block` when its index is the length of the chain, it names the
    /// digest of the last block and its proof is valid after the last block's.
    /// A block with a lower index is stale and one with a higher index is too
    /// new: both are refused. The pending transactions that an appended block
    /// holds leave the pool. Returns whether the block was appended.
    pub fn add_new_block(&mut self, block: &Block) -> (r: bool)
        requires
            old(self).wf(),
        ensures
            final(self).wf(),
            (final(self)@, r) == appending(old(self)@, block@),
    {
        if block.get_index() != self.blocks.len() as u64 {
            return false;
        }
        let last_block = self.last_block();
        if last_block.get_hash() != block.previous_hash || !Blockchain::valid_proof(
            last_block.proof,
            block.proof,
        ) {
            return false;
        }
        let ghost before = self@;
        let ghost pred = unlisted_in(block@.transactions);
        let n = self.current_transactions.len();
        let mut kept: Vec<Transaction> = Vec::new();
        let mut i: usize = 0;
        while i < n
            invariant
                n == before.pending.len(),
                i <= n,
                self@ == before,
                pool_ok(before),
                pred == unlisted_in(block@.transactions),
                tx_views(kept@) == before.pending.take(i as int).filter(pred),
                forall|m: int|
                    0 <= m < kept@.len() ==> exists|k: int|
                        0 <= k < i && #[trigger] kept@[m]@ == before.pending[k],
                forall|m: int, l: int|
                    0 <= m < l < kept@.len() ==> #[trigger] kept@[m].id@ != #[trigger] kept@[l].id@,
            decreases n - i,
        {
            let ghost old_kept = kept@;
            let t = &self.current_transactions[i];
            assert(t@ == before.pending[i as int]);
            let in_block = is_listed(&block.transactions, &t.id);
            if !in_block {
                kept.push(t.clone());
                proof {
                    assert forall|m: int| 0 <= m < old_kept.len() implies #[trigger] kept@[m].id@
                        != t.id@ by {
                        let k = choose|k: int| 0 <= k < i && #[trigger] old_kept[m]@ == before.pending[k];
                        assert(before.pending[k].id != before.pending[i as int].id);
                    }
                    assert(kept@[old_kept.len() as int]@ == t@);
                }
            }
            proof {
                let prefix = before.pending.take(i as int);
                let next = before.pending.take(i + 1);
                assert(next.drop_last() =~= prefix);
                reveal(Seq::filter);
                assert(next.last() == before.pending[i as int]);
                assert(next.filter(pred) == if pred(next.last()) {
                    prefix.filter(pred).push(next.last())
                } else {
                    prefix.filter(pred)
                });
                assert(pred(next.last()) == !in_block);
                if !in_block {
                    assert(tx_views(kept@) =~= tx_views(old_kept).push(t@));
                } else {
                    assert(kept@ == old_kept);
                }
                assert(tx_views(kept@) =~= next.filter(pred));
                assert forall|m: int| 0 <= m < kept@.len() implies exists|k: int|
                    0 <= k < i + 1 && #[trigger] kept@[m]@ == before.pending[k] by {
                    if m < old_kept.len() {
                        assert(kept@[m] == old_kept[m]);
                        let k = choose|k: int| 0 <= k < i && #[trigger] old_kept[m]@ == before.pending[k];
                        assert(kept@[m]@ == before.pending[k]);
                    } else {
                        assert(kept@[m]@ == before.pending[i as int]);
                    }
                }
            }
            i = i + 1;
        }
        self.current_transactions = kept;
        self.blocks.push(block.clone());
        proof {
            assert(before.pending.take(n as int) =~= before.pending);
            assert(self@.blocks =~= before.blocks.push(block@));
            assert(self@.pending == before.pending.filter(pred));
            let c = self@;
            assert forall|k: int| 0 <= k < c.pending.len() implies !committed(
                c.blocks,
                #[trigger] c.pending[k].id,
            ) by {
                let id = c.pending[k].id;
                let j = choose|j: int| 0 <= j < i && #[trigger] kept@[k]@ == before.pending[j];
                assert(!committed(before.blocks, id));
                assert(!listed(block@.transactions, id)) by {
                    broadcast use vstd::seq_lib::group_filter_ensures;
                    assert(pred(c.pending[k]));
                }
                if committed(c.blocks, id) {
                    let b = choose|b: int| 0 <= b < c.blocks.len() && #[trigger] listed(
                        c.blocks[b].transactions,
                        id,
                    );
                    if b < before.blocks.len() {
                        assert(c.blocks[b] == before.blocks[b]);
                    }
                }
            }
        }
        true
    }

    /// Whether a chain is valid: its first block is the genesis sentinel, and each
    /// later block names the digest of the block before it and has a proof that
    /// is valid after that block's proof.
    pub fn valid_chain(chain: &Self) -> (r: bool)
        ensures
            r == valid_chain_spec(chain@.blocks),
    {
        let blocks = &chain.blocks;
        let n = blocks.len();
        if n == 0 {
            return false;
        }
        let first = &blocks[0];
        assert(chain@.blocks[0] == first@);
        if first.index != 0 || first.proof != 100 || first.transactions.len() != 0
            || first.previous_hash != "1".to_owned() {
            return false;
        }
        let mut i: usize = 1;
        while i < n
            invariant
                n == chain@.blocks.len(),
                blocks == &chain.blocks,
                1 <= i <= n,
                is_genesis_sentinel(chain@.blocks[0]),
                forall|k: int| 1 <= k < i ==> #[trigger] links(chain@.blocks[k - 1], chain@.blocks[k]),
            decreases n - i,
        {
            let prev_block = &blocks[i - 1];
            let block = &blocks[i];
            assert(chain@.blocks[i - 1] == prev_block@);
            assert(chain@.blocks[i as int] == block@);
            if prev_block.get_hash() != block.previous_hash {
                assert(!links(chain@.blocks[i - 1], chain@.blocks[i as int]));
                return false;
            }
            if !Blockchain::valid_proof(prev_block.proof, block.proof) {
                assert(!links(chain@.blocks[i - 1], chain@.blocks[i as int]));
                return false;
            }
            i = i + 1;
        }
        true
    }

    /// Replaces the chain by `new_blocks` when they are more blocks than the
    /// chain holds and form a valid chain. The pending transactions that no new
    /// block holds are admitted again, in their order; the others leave the pool.
    /// Returns whether the chain was replaced.
    pub fn adopt(&mut self, new_blocks: Vec<Block>) -> (r: bool)
        requires
            old(self).wf(),
        ensures
            final(self).wf(),
            (final(self)@, r) == adoption(old(self)@, block_views(new_blocks@)),
    {
        if new_blocks.len() <= self.blocks.len() {
            return false;
        }
        let ghost blocks_view = block_views(new_blocks@);
        let mut new_chain = Blockchain::from_blocks(new_blocks);
        if !Blockchain::valid_chain(&new_chain) {
            return false;
        }
        let ghost before = self@;
        let ghost pred = uncommitted_in(blocks_view);
        let n = self.current_transactions.len();
        let mut i: usize = 0;
        while i < n
            invariant
                n == before.pending.len(),
                i <= n,
                self@ == before,
                pool_ok(before),
                new_chain.wf(),
                new_chain@.blocks == blocks_view,
                pred == uncommitted_in(blocks_view),
                new_chain@.pending == before.pending.take(i as int).filter(pred),
                forall|m: int|
                    0 <= m < new_chain@.pending.len() ==> exists|k: int|
                        0 <= k < i && #[trigger] new_chain@.pending[m] == before.pending[k],
            decreases n - i,
        {
            let ghost old_pending = new_chain@.pending;
            let t = &self.current_transactions[i];
            assert(t@ == before.pending[i as int]);
            assert(!listed(old_pending, t@.id)) by {
                if listed(old_pending, t@.id) {
                    let m = choose|m: int| 0 <= m < old_pending.len() && #[trigger] old_pending[m].id == t@.id;
                    let k = choose|k: int| 0 <= k < i && #[trigger] old_pending[m] == before.pending[k];
                    assert(before.pending[k].id != before.pending[i as int].id);
                }
            }
            let added = new_chain.add_new_transaction(t);
            proof {
                let prefix = before.pending.take(i as int);
                let next = before.pending.take(i + 1);
                assert(next.drop_last() =~= prefix);
                assert(next.last() == t@);
                reveal(Seq::filter);
                assert(pred(t@) == added);
                assert(new_chain@.pending =~= next.filter(pred));
                assert forall|m: int| 0 <= m < new_chain@.pending.len() implies exists|k: int|
                    0 <= k < i + 1 && #[trigger] new_chain@.pending[m] == before.pending[k] by {
                    if m < old_pending.len() {
                        let k = choose|k: int| 0 <= k < i && #[trigger] old_pending[m] == before.pending[k];
                        assert(new_chain@.pending[m] == before.pending[k]);
                    } else {
                        assert(new_chain@.pending[m] == before.pending[i as int]);
                    }
                }
            }
            i = i + 1;
        }
        proof {
            assert(before.pending.take(n as int) =~= before.pending);
        }
        *self = new_chain;
        true
    }
}

} // verus!
