//! Properties of the ledger and of the peer registry that relate several
//! operations, stated over the models that the operations' contracts use.

use crate::blockchain::{
    adoption, admission, appending, block_hash, committed, first_valid_proof, genesis, is_genesis_sentinel, links, listed,
    valid_chain_spec, valid_proof_spec, with_new_block, BlockView, ChainView, TransactionView,
};
use crate::node::{peer_added, NodeView};
use crate::peer::PeerView;
use vstd::prelude::*;

verus! {

/// A chain of the genesis block alone is valid.
pub proof fn lemma_genesis_chain_valid()
    ensures
        valid_chain_spec(seq![genesis()]),
{
}

/// Making a block on a valid chain, with a proof that is valid after the last
/// block's and the digest of the last block, leaves the chain valid.
pub proof fn lemma_new_block_keeps_chain_valid(c: ChainView, proof: u64, timestamp: u128)
    requires
        valid_chain_spec(c.blocks),
        valid_proof_spec(c.blocks.last().proof, proof),
    ensures
        valid_chain_spec(
            with_new_block(c, proof, block_hash(c.blocks.last()), timestamp).blocks,
        ),
{
    let after = with_new_block(c, proof, block_hash(c.blocks.last()), timestamp).blocks;
    assert forall|i: int| 1 <= i < after.len() implies #[trigger] links(after[i - 1], after[i]) by {
        if i < c.blocks.len() {
            assert(links(c.blocks[i - 1], c.blocks[i]));
        }
    }
}

/// One change to a chain: a transaction offered to the pool, or a block made
/// of the pool with a proof and a timestamp, on the digest of the last block.
pub enum ChainStep {
    AddTransaction(TransactionView),
    MakeBlock(u64, u128),
}

/// The chain after one step.
pub open spec fn after_step(c: ChainView, step: ChainStep) -> ChainView {
    match step {
        ChainStep::AddTransaction(t) => admission(c, t).0,
        ChainStep::MakeBlock(proof, timestamp) => with_new_block(
            c,
            proof,
            block_hash(c.blocks.last()),
            timestamp,
        ),
    }
}

/// A block is made with the proof that the search after the last block's
/// proof finds, on a chain where some `u64` proof is valid after it.
pub open spec fn mined_step(c: ChainView, step: ChainStep) -> bool {
    match step {
        ChainStep::AddTransaction(_) => true,
        ChainStep::MakeBlock(proof, _) => {
            &&& first_valid_proof(c.blocks.last().proof, proof)
            &&& exists|q: u64| valid_proof_spec(c.blocks.last().proof, q)
        },
    }
}

/// The chain after a sequence of steps, taken in order.
pub open spec fn after_steps(c: ChainView, steps: Seq<ChainStep>) -> ChainView
    decreases steps.len(),
{
    if steps.len() == 0 {
        c
    } else {
        after_steps(after_step(c, steps[0]), steps.drop_first())
    }
}

/// Every block-making step of the sequence uses the proof that the search finds.
pub open spec fn mined_steps(c: ChainView, steps: Seq<ChainStep>) -> bool
    decreases steps.len(),
{
    if steps.len() == 0 {
        true
    } else {
        mined_step(c, steps[0]) && mined_steps(after_step(c, steps[0]), steps.drop_first())
    }
}

/// A valid chain stays valid through any sequence of transactions added and
/// blocks made with the searched proof on the digest of the last block,
/// wherever a valid `u64` proof exists after the last block's proof.
pub proof fn lemma_steps_keep_chain_valid(c: ChainView, steps: Seq<ChainStep>)
    requires
        valid_chain_spec(c.blocks),
        mined_steps(c, steps),
    ensures
        valid_chain_spec(after_steps(c, steps).blocks),
    decreases steps.len(),
{
    if steps.len() > 0 {
        let next = after_step(c, steps[0]);
        match steps[0] {
            ChainStep::AddTransaction(t) => {
                assert(next.blocks == c.blocks);
            },
            ChainStep::MakeBlock(proof, timestamp) => {
                lemma_new_block_keeps_chain_valid(c, proof, timestamp);
            },
        }
        lemma_steps_keep_chain_valid(next, steps.drop_first());
    }
}

/// A chain whose first block differs from the genesis sentinel in its index,
/// proof, transactions or previous-hash is not valid.
pub proof fn lemma_changed_genesis_invalid(blocks: Seq<BlockView>, first: BlockView)
    requires
        blocks.len() > 0,
        !is_genesis_sentinel(first),
    ensures
        !valid_chain_spec(blocks.update(0, first)),
{
}

/// In a valid chain, changing the previous-hash of any block after the first
/// makes the chain invalid.
pub proof fn lemma_changed_link_invalid(blocks: Seq<BlockView>, i: int, previous_hash: Seq<char>)
    requires
        valid_chain_spec(blocks),
        1 <= i < blocks.len(),
        previous_hash != blocks[i].previous_hash,
    ensures
        !valid_chain_spec(
            blocks.update(
                i,
                BlockView {
                    index: blocks[i].index,
                    timestamp: blocks[i].timestamp,
                    proof: blocks[i].proof,
                    transactions: blocks[i].transactions,
                    previous_hash,
                },
            ),
        ),
{
    let changed = blocks.update(
        i,
        BlockView {
            index: blocks[i].index,
            timestamp: blocks[i].timestamp,
            proof: blocks[i].proof,
            transactions: blocks[i].transactions,
            previous_hash,
        },
    );
    assert(links(blocks[i - 1], blocks[i]));
    assert(changed[i - 1] == blocks[i - 1]);
    assert(!links(changed[i - 1], changed[i]));
}

/// Of two transactions with the same id, at most the first is admitted: the
/// second admission is refused and changes nothing.
pub proof fn lemma_admit_once(c: ChainView, first: TransactionView, second: TransactionView)
    requires
        first.id == second.id,
    ensures
        admission(admission(c, first).0, second) == (admission(c, first).0, false),
{
    let (c1, added) = admission(c, first);
    if added {
        assert(c1.pending[c.pending.len() as int] == first);
        assert(listed(c1.pending, second.id));
    }
}

/// A transaction whose id a block holds is never admitted to the pool.
pub proof fn lemma_committed_not_admitted(c: ChainView, t: TransactionView)
    requires
        committed(c.blocks, t.id),
    ensures
        admission(c, t) == (c, false),
{
}

/// Once a block is made of the pool, none of the transactions it held can be
/// admitted again.
pub proof fn lemma_mined_not_admitted(
    c: ChainView,
    proof: u64,
    previous_hash: Seq<char>,
    timestamp: u128,
    t: TransactionView,
)
    requires
        listed(c.pending, t.id),
    ensures
        ({
            let after = with_new_block(c, proof, previous_hash, timestamp);
            admission(after, t) == (after, false)
        }),
{
    let after = with_new_block(c, proof, previous_hash, timestamp);
    let last = c.blocks.len() as int;
    assert(after.blocks[last].transactions == c.pending);
    assert(committed(after.blocks, t.id));
}

/// A block is appended only into the next slot: one with a lower (stale) or
/// higher (too new) index is refused and changes nothing.
pub proof fn lemma_append_only_next_slot(c: ChainView, b: BlockView)
    requires
        b.index as int != c.blocks.len(),
    ensures
        appending(c, b) == (c, false),
{
}

/// Adoption never shrinks the chain, and a candidate no longer than the chain
/// is refused and changes nothing.
pub proof fn lemma_adopt_never_shrinks(c: ChainView, blocks: Seq<BlockView>)
    ensures
        adoption(c, blocks).0.blocks.len() >= c.blocks.len(),
        blocks.len() <= c.blocks.len() ==> adoption(c, blocks) == (c, false),
{
}

/// A longer valid candidate replaces the chain, and each pending transaction
/// whose id no new block holds stays pending.
pub proof fn lemma_adopt_keeps_pending(c: ChainView, blocks: Seq<BlockView>, t: TransactionView)
    requires
        blocks.len() > c.blocks.len(),
        valid_chain_spec(blocks),
        c.pending.contains(t),
        !committed(blocks, t.id),
    ensures
        adoption(c, blocks).1,
        adoption(c, blocks).0.blocks == blocks,
        adoption(c, blocks).0.pending.contains(t),
{
    broadcast use vstd::seq_lib::group_filter_ensures;

    let k = choose|k: int| 0 <= k < c.pending.len() && c.pending[k] == t;
    assert(crate::blockchain::uncommitted_in(blocks)(c.pending[k]));
}

/// A node never adds itself as a peer.
pub proof fn lemma_own_peer_refused(n: NodeView)
    ensures
        peer_added(n, n.me) == (n, false),
{
}

/// Adding the same peer twice succeeds at most once: the second time it is
/// refused and changes nothing.
pub proof fn lemma_peer_added_once(n: NodeView, p: PeerView)
    ensures
        peer_added(peer_added(n, p).0, p) == (peer_added(n, p).0, false),
{
    let (n1, added) = peer_added(n, p);
    if added {
        assert(n1.peers[n.peers.len() as int] == p);
        assert(n1.peers.contains(p));
    }
}

/// The peers are exactly those added with success: an added peer joins the
/// registry, and a refused one leaves it as it was.
pub proof fn lemma_peers_are_added_ones(n: NodeView, p: PeerView)
    ensures
        peer_added(n, p).1 ==> peer_added(n, p).0.peers == n.peers.push(p),
        !peer_added(n, p).1 ==> peer_added(n, p).0.peers == n.peers,
{
}

} // verus!
