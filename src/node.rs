//! A node's state and the decisions it takes on each event: a request from a
//! peer, a reply to a request of its own, or an operator command. Sending and
//! receiving are left to the caller; the requests the node wants sent to all
//! of its peers wait in its outbox.

use crate::blockchain::{
    adoption, admission, appending, block_hash, block_views, chain_wf, first_valid_proof,
    genesis, with_new_block, Block, Blockchain, ChainView, Transaction, TransactionView,
};
use crate::command::Command;
use crate::message::{request_views, Request, RequestView, Response, ResponseView};
use crate::peer::{peer_views, PeerInfo, PeerView};
use vstd::prelude::*;

verus! {

/// What went wrong in an exchange with a peer.
#[derive(Debug, PartialEq, Eq, Structural, Clone, Copy)]
pub enum ProtocolError {
    /// The peer answered with a response of the wrong kind.
    UnexpectedResponse,
}

/// What the caller is to do after a command.
#[derive(Debug)]
pub enum CommandAction {
    /// Nothing more.
    Done,
    /// Show the blocks.
    ShowBlocks,
    /// Show the peers.
    ShowPeers,
    /// Greet the node at this address and hand its reply to
    /// `Node::accept_hello_reply`.
    Greet(String),
    /// Ask each peer for its blocks and hand each reply to
    /// `Node::accept_chain_reply`.
    Resolve,
}

/// A node: its identity, its chain, its peers and the requests waiting to be
/// sent to every peer.
pub struct NodeView {
    pub me: PeerView,
    pub chain: ChainView,
    pub peers: Seq<PeerView>,
    pub outbox: Seq<RequestView>,
}

/// The registry never holds the node itself, and holds each peer once.
pub open spec fn peers_ok(me: PeerView, peers: Seq<PeerView>) -> bool {
    &&& !peers.contains(me)
    &&& forall|i: int, j: int| 0 <= i < j < peers.len() ==> peers[i] != peers[j]
}

pub open spec fn node_wf(n: NodeView) -> bool {
    chain_wf(n.chain) && peers_ok(n.me, n.peers)
}

pub open spec fn with_chain(n: NodeView, chain: ChainView) -> NodeView {
    NodeView { me: n.me, chain, peers: n.peers, outbox: n.outbox }
}

/// The node with `r` queued for every peer.
pub open spec fn queue(n: NodeView, r: RequestView) -> NodeView {
    NodeView { me: n.me, chain: n.chain, peers: n.peers, outbox: n.outbox.push(r) }
}

/// Adding a peer: refused for the node itself and for a known peer.
pub open spec fn peer_added(n: NodeView, p: PeerView) -> (NodeView, bool) {
    if p == n.me || n.peers.contains(p) {
        (n, false)
    } else {
        (NodeView { me: n.me, chain: n.chain, peers: n.peers.push(p), outbox: n.outbox }, true)
    }
}

/// A peer that another node told of: added, and passed on when new.
pub open spec fn incoming_peer(n: NodeView, p: PeerView) -> NodeView {
    let (n1, added) = peer_added(n, p);
    if added {
        queue(n1, RequestView::NewPeer(n.me, p))
    } else {
        n1
    }
}

/// A transaction from a peer: admitted, and passed on when new.
pub open spec fn incoming_transaction(n: NodeView, t: TransactionView) -> NodeView {
    let (c1, admitted) = admission(n.chain, t);
    if admitted {
        queue(with_chain(n, c1), RequestView::NewTransaction(n.me, t))
    } else {
        n
    }
}

/// A block from a peer: appended, and passed on when it was.
pub open spec fn incoming_block(n: NodeView, b: crate::blockchain::BlockView) -> NodeView {
    let (c1, appended) = appending(n.chain, b);
    if appended {
        queue(with_chain(n, c1), RequestView::NewBlock(n.me, b))
    } else {
        n
    }
}

/// Blocks from a peer: adopted when longer and valid, and then the new last
/// block is passed on.
pub open spec fn chain_updated(
    n: NodeView,
    blocks: Seq<crate::blockchain::BlockView>,
) -> (NodeView, bool) {
    let (c1, adopted) = adoption(n.chain, blocks);
    if adopted {
        (queue(with_chain(n, c1), RequestView::NewBlock(n.me, blocks.last())), true)
    } else {
        (n, false)
    }
}

/// Serving a request: its sender is added as a peer, then the request is
/// handled by its kind; every request gets one response.
pub open spec fn served(n: NodeView, req: RequestView) -> (NodeView, ResponseView) {
    let n1 = peer_added(n, req.sender()).0;
    match req {
        RequestView::Hello(_) => (n1, ResponseView::Ack(n.me)),
        RequestView::HowAreYou(_) => (n1, ResponseView::MyBlocks(n.me, n1.chain.blocks)),
        RequestView::NewTransaction(_, t) => (incoming_transaction(n1, t), ResponseView::Ack(n.me)),
        RequestView::NewBlock(_, b) => (incoming_block(n1, b), ResponseView::Ack(n.me)),
        RequestView::NewPeer(_, p) => (incoming_peer(n1, p), ResponseView::Ack(n.me)),
    }
}

/// Taking the reply to a greeting: an `Ack` names the greeted node, which is
/// passed on to the peers and added; any other reply is an error.
pub open spec fn hello_reply_taken(n: NodeView, resp: ResponseView) -> (
    NodeView,
    Result<bool, ProtocolError>,
) {
    match resp {
        ResponseView::Ack(p) => {
            let (n1, added) = peer_added(queue(n, RequestView::NewPeer(n.me, p)), p);
            (n1, Ok(added))
        },
        ResponseView::MyBlocks(_, _) => (n, Err(ProtocolError::UnexpectedResponse)),
    }
}

/// Taking the reply to a request for blocks: the blocks of a `MyBlocks` are
/// offered for adoption; any other reply is an error.
pub open spec fn chain_reply_taken(n: NodeView, resp: ResponseView) -> (
    NodeView,
    Result<bool, ProtocolError>,
) {
    match resp {
        ResponseView::MyBlocks(_, blocks) => {
            let (n1, adopted) = chain_updated(n, blocks);
            (n1, Ok(adopted))
        },
        ResponseView::Ack(_) => (n, Err(ProtocolError::UnexpectedResponse)),
    }
}

/// The reward for mining: one coin from the sender `"0"` to the miner.
pub open spec fn is_reward(t: TransactionView, me: PeerView) -> bool {
    t.sender == "0"@ && t.recipient == me.id && t.amount == 1
}

/// Mining: the proof that follows the last block is searched for, a reward is
/// admitted, a block of the whole pool is made on the last block, and the new
/// block is passed on.
pub open spec fn mined(before: NodeView, after: NodeView) -> bool {
    let last = before.chain.blocks.last();
    let b = after.chain.blocks.last();
    &&& first_valid_proof(last.proof, b.proof)
    &&& exists|reward: TransactionView|
        is_reward(reward, before.me) && after.chain == with_new_block(
            admission(before.chain, reward).0,
            b.proof,
            block_hash(last),
            b.timestamp,
        )
    &&& after.me == before.me
    &&& after.peers == before.peers
    &&& after.outbox == before.outbox.push(RequestView::NewBlock(before.me, b))
}

pub struct Node {
    basic_info: PeerInfo,
    chain: Blockchain,
    peers: Vec<PeerInfo>,
    outbox: Vec<Request>,
}

impl View for Node {
    type V = NodeView;

    closed spec fn view(&self) -> NodeView {
        NodeView {
            me: self.basic_info@,
            chain: self.chain@,
            peers: peer_views(self.peers@),
            outbox: request_views(self.outbox@),
        }
    }
}

impl Node {
    pub open spec fn wf(&self) -> bool {
        node_wf(self@)
    }

    /// A node with this identity, a chain of the genesis block alone, no peers
    /// and nothing to send.
    pub fn new(basic_info: PeerInfo) -> (r: Self)
        ensures
            r.wf(),
            r@.me == basic_info@,
            r@.chain.blocks == seq![genesis()],
            r@.chain.pending.len() == 0,
            r@.peers.len() == 0,
            r@.outbox.len() == 0,
    {
        let r = Node { basic_info, chain: Blockchain::new(), peers: Vec::new(), outbox: Vec::new() };
        proof {
            assert(r@.peers =~= Seq::<PeerView>::empty());
            assert(r@.outbox =~= Seq::<RequestView>::empty());
        }
        r
    }

    pub fn get_basic_info(&self) -> (r: PeerInfo)
        ensures
            r@ == self@.me,
    {
        self.basic_info.clone()
    }

    /// Returns a copy of the blocks the node owns.
    pub fn get_blocks(&self) -> (r: Vec<Block>)
        ensures
            block_views(r@) == self@.chain.blocks,
    {
        self.chain.get_blocks()
    }

    /// Returns a copy of the pending transactions.
    pub fn get_current_transactions(&self) -> (r: Vec<Transaction>)
        ensures
            crate::blockchain::tx_views(r@) == self@.chain.pending,
    {
        self.chain.get_current_transactions()
    }

    /// Returns a copy of the peers, for the caller to contact them while the
    /// node goes on.
    pub fn get_peers(&self) -> (r: Vec<PeerInfo>)
        ensures
            peer_views(r@) == self@.peers,
    {
        let r = self.peers.clone();
        proof {
            assert(peer_views(r@) =~= peer_views(self.peers@));
        }
        r
    }

    /// Hands over the requests waiting to be sent to every peer, oldest first.
    pub fn take_broadcasts(&mut self) -> (r: Vec<Request>)
        ensures
            request_views(r@) == old(self)@.outbox,
            final(self)@ == (NodeView { outbox: Seq::empty(), ..old(self)@ }),
    {
        let mut r: Vec<Request> = Vec::new();
        std::mem::swap(&mut r, &mut self.outbox);
        proof {
            assert(self@.outbox =~= Seq::<RequestView>::empty());
        }
        r
    }

    /// Whether `peer` is among the peers.
    fn knows(&self, peer: &PeerInfo) -> (r: bool)
        ensures
            r == self@.peers.contains(peer@),
    {
        let n = self.peers.len();
        let mut i: usize = 0;
        while i < n
            invariant
                n == self.peers@.len(),
                i <= n,
                forall|k: int| 0 <= k < i ==> self@.peers[k] != peer@,
            decreases n - i,
        {
            if self.peers[i] == *peer {
                assert(self@.peers[i as int] == peer@);
                return true;
            }
            i = i + 1;
        }
        false
    }

    /// Adds a peer. Returns `false`, and changes nothing, for the node itself
    /// and for a peer that is known already.
    pub fn add_peer(&mut self, peer: &PeerInfo) -> (r: bool)
        requires
            old(self).wf(),
        ensures
            final(self).wf(),
            (final(self)@, r) == peer_added(old(self)@, peer@),
    {
        if self.basic_info == *peer {
            return false;
        }
        if self.knows(peer) {
            return false;
        }
        let ghost before = self@;
        self.peers.push(peer.clone());
        proof {
            assert(self@.peers =~= before.peers.push(peer@));
            let ps = self@.peers;
            assert forall|i: int, j: int| 0 <= i < j < ps.len() implies ps[i] != ps[j] by {
                if j == ps.len() - 1 {
                    assert(before.peers[i] == ps[i]);
                }
            }
            assert(!ps.contains(before.me)) by {
                if ps.contains(before.me) {
                    let k = choose|k: int| 0 <= k < ps.len() && ps[k] == before.me;
                    if k < before.peers.len() {
                        assert(before.peers[k] == ps[k]);
                    }
                }
            }
        }
        true
    }

    /// Queues `request` to be sent to every peer.
    fn queue_broadcast(&mut self, request: Request)
        ensures
            final(self)@ == queue(old(self)@, request@),
    {
        let ghost before = self@;
        self.outbox.push(request);
        proof {
            assert(self@.outbox =~= before.outbox.push(request@));
        }
    }

    /// Takes a peer that another node told of; a new one is passed on to the
    /// other peers.
    pub fn handle_incoming_peer(&mut self, peer: PeerInfo)
        requires
            old(self).wf(),
        ensures
            final(self).wf(),
            final(self)@ == incoming_peer(old(self)@, peer@),
    {
        if !self.add_peer(&peer) {
            return;
        }
        let me = self.get_basic_info();
        self.queue_broadcast(Request::NewPeer(me, peer));
    }

    /// Takes a transaction from a peer. If one with its id is known already it
    /// is dropped; else it is added and passed on to the peers.
    pub fn handle_incoming_transaction(&mut self, transaction: Transaction)
        requires
            old(self).wf(),
        ensures
            final(self).wf(),
            final(self)@ == incoming_transaction(old(self)@, transaction@),
    {
        if !self.chain.add_new_transaction(&transaction) {
            return;
        }
        let me = self.get_basic_info();
        self.queue_broadcast(Request::NewTransaction(me, transaction));
    }

    /// Takes a block from a peer. If it is the next block of the chain it is
    /// appended and passed on to the peers; else it is dropped, and a block
    /// that is too new is left for conflict resolution.
    pub fn handle_incoming_block(&mut self, block: Block)
        requires
            old(self).wf(),
        ensures
            final(self).wf(),
            final(self)@ == incoming_block(old(self)@, block@),
    {
        if self.chain.add_new_block(&block) {
            let me = self.get_basic_info();
            self.queue_broadcast(Request::NewBlock(me, block));
        }
    }

    /// Offers blocks from a peer in place of the chain. When they are adopted
    /// the new last block is passed on to the peers. Returns whether they were
    /// adopted.
    pub fn update_chain(&mut self, new_blocks: Vec<Block>) -> (r: bool)
        requires
            old(self).wf(),
        ensures
            final(self).wf(),
            (final(self)@, r) == chain_updated(old(self)@, block_views(new_blocks@)),
    {
        if !self.chain.adopt(new_blocks) {
            return false;
        }
        let latest = self.chain.last_block().clone();
        let me = self.get_basic_info();
        self.queue_broadcast(Request::NewBlock(me, latest));
        true
    }

    /// Makes a transaction with a fresh id and adds it; when added, it is passed
    /// on to the peers.
    pub fn create_and_add_new_transaction(&mut self, sender: &str, receiver: &str, amount: i64)
        requires
            old(self).wf(),
        ensures
            final(self).wf(),
            exists|t: TransactionView|
                t.sender == sender@ && t.recipient == receiver@ && t.amount == amount
                    && final(self)@ == incoming_transaction(old(self)@, t),
    {
        let transaction = Transaction::new(sender, receiver, amount);
        self.handle_incoming_transaction(transaction);
    }

    /// Mines a block: searches for the proof that follows the last block,
    /// admits a reward of one coin from `"0"` to this node, makes a block of all
    /// pending transactions, and passes it on to the peers.
    pub fn mine(&mut self)
        requires
            old(self).wf(),
        ensures
            final(self).wf(),
            mined(old(self)@, final(self)@),
    {
        let proof = self.chain.run_pow();
        let last_hash = self.chain.last_block().get_hash();
        let reward = Transaction::new("0", self.basic_info.get_id(), 1);
        let ghost before = self@;
        self.chain.add_new_transaction(&reward);
        let block = self.chain.create_new_block(proof, last_hash).clone();
        let me = self.get_basic_info();
        self.queue_broadcast(Request::NewBlock(me, block));
        proof {
            assert(is_reward(reward@, before.me));
        }
    }

    /// Serves a request from a peer: its sender is added as a peer, the
    /// request is handled by its kind, and the response to send back is
    /// returned.
    pub fn serve_request(&mut self, request: Request) -> (r: Response)
        requires
            old(self).wf(),
        ensures
            final(self).wf(),
            (final(self)@, r@) == served(old(self)@, request@),
    {
        self.add_peer(request.get_sender_peer_info());
        let me = self.get_basic_info();
        match request {
            Request::Hello(_) => Response::Ack(me),
            Request::HowAreYou(_) => Response::MyBlocks(me, self.get_blocks()),
            Request::NewTransaction(_, transaction) => {
                self.handle_incoming_transaction(transaction);
                Response::Ack(me)
            },
            Request::NewBlock(_, block) => {
                self.handle_incoming_block(block);
                Response::Ack(me)
            },
            Request::NewPeer(_, peer) => {
                self.handle_incoming_peer(peer);
                Response::Ack(me)
            },
        }
    }

    /// Takes the reply of a node that this one greeted. An `Ack` names that
    /// node: it is passed on to the peers and added, and whether it was new is
    /// returned. Any other reply is an error and changes nothing.
    pub fn accept_hello_reply(&mut self, response: Response) -> (r: Result<bool, ProtocolError>)
        requires
            old(self).wf(),
        ensures
            final(self).wf(),
            (final(self)@, r) == hello_reply_taken(old(self)@, response@),
    {
        match response {
            Response::Ack(peer) => {
                let me = self.get_basic_info();
                self.queue_broadcast(Request::NewPeer(me, peer.clone()));
                Ok(self.add_peer(&peer))
            },
            Response::MyBlocks(_, _) => Err(ProtocolError::UnexpectedResponse),
        }
    }

    /// Takes the reply of a peer that was asked for its blocks. The blocks of a
    /// `MyBlocks` are offered in place of the chain, and whether they were
    /// adopted is returned. Any other reply is an error and changes nothing.
    pub fn accept_chain_reply(&mut self, response: Response) -> (r: Result<bool, ProtocolError>)
        requires
            old(self).wf(),
        ensures
            final(self).wf(),
            (final(self)@, r) == chain_reply_taken(old(self)@, response@),
    {
        match response {
            Response::MyBlocks(_, blocks) => Ok(self.update_chain(blocks)),
            Response::Ack(_) => Err(ProtocolError::UnexpectedResponse),
        }
    }

    /// Serves an operator command. A new transaction and mining are carried
    /// out here; showing the blocks or the peers, greeting a node and resolving
    /// conflicts are handed back to the caller, with the node unchanged.
    pub fn serve_command(&mut self, command: Command) -> (r: CommandAction)
        requires
            old(self).wf(),
        ensures
            final(self).wf(),
            match command {
                Command::NewTrans(sender, receiver, amount) => {
                    &&& r is Done
                    &&& exists|t: TransactionView|
                        t.sender == sender@ && t.recipient == receiver@ && t.amount == amount
                            && final(self)@ == incoming_transaction(old(self)@, t)
                },
                Command::Mine => r is Done && mined(old(self)@, final(self)@),
                Command::Display => r is ShowBlocks && final(self)@ == old(self)@,
                Command::DisplayPeers => r is ShowPeers && final(self)@ == old(self)@,
                Command::AddPeer(address) => final(self)@ == old(self)@ && match r {
                    CommandAction::Greet(a) => a@ == address@,
                    _ => false,
                },
                Command::Resolve => r is Resolve && final(self)@ == old(self)@,
            },
    {
        match command {
            Command::NewTrans(sender, receiver, amount) => {
                self.create_and_add_new_transaction(sender.as_str(), receiver.as_str(), amount);
                CommandAction::Done
            },
            Command::Mine => {
                self.mine();
                CommandAction::Done
            },
            Command::Display => CommandAction::ShowBlocks,
            Command::DisplayPeers => CommandAction::ShowPeers,
            Command::AddPeer(address) => CommandAction::Greet(address),
            Command::Resolve => CommandAction::Resolve,
        }
    }
}

} // verus!
