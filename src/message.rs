//! The requests and responses that nodes exchange, one of each per connection.

use crate::blockchain::{block_views, Block, BlockView, Transaction, TransactionView};
use crate::peer::{PeerInfo, PeerView};
use vstd::prelude::*;

verus! {

/// A request; each carries the identity of the node that sends it.
#[derive(Debug)]
pub enum Request {
    /// Introduces the sender; answered by `Response::Ack`.
    Hello(PeerInfo),
    /// Asks for the receiver's blocks; answered by `Response::MyBlocks`.
    HowAreYou(PeerInfo),
    /// Passes on a transaction; answered by `Response::Ack`.
    NewTransaction(PeerInfo, Transaction),
    /// Passes on a block; answered by `Response::Ack`.
    NewBlock(PeerInfo, Block),
    /// Passes on a third node's identity; answered by `Response::Ack`.
    NewPeer(PeerInfo, PeerInfo),
}

/// A response; each carries the identity of the node that answers.
#[derive(Debug)]
pub enum Response {
    Ack(PeerInfo),
    MyBlocks(PeerInfo, Vec<Block>),
}

pub enum RequestView {
    Hello(PeerView),
    HowAreYou(PeerView),
    NewTransaction(PeerView, TransactionView),
    NewBlock(PeerView, BlockView),
    NewPeer(PeerView, PeerView),
}

pub enum ResponseView {
    Ack(PeerView),
    MyBlocks(PeerView, Seq<BlockView>),
}

impl View for Request {
    type V = RequestView;

    open spec fn view(&self) -> RequestView {
        match self {
            Request::Hello(p) => RequestView::Hello(p@),
            Request::HowAreYou(p) => RequestView::HowAreYou(p@),
            Request::NewTransaction(p, t) => RequestView::NewTransaction(p@, t@),
            Request::NewBlock(p, b) => RequestView::NewBlock(p@, b@),
            Request::NewPeer(p, q) => RequestView::NewPeer(p@, q@),
        }
    }
}

impl View for Response {
    type V = ResponseView;

    open spec fn view(&self) -> ResponseView {
        match self {
            Response::Ack(p) => ResponseView::Ack(p@),
            Response::MyBlocks(p, blocks) => ResponseView::MyBlocks(p@, block_views(blocks@)),
        }
    }
}

/// The views of a sequence of requests.
pub open spec fn request_views(requests: Seq<Request>) -> Seq<RequestView> {
    requests.map_values(|r: Request| r@)
}

impl RequestView {
    /// The identity of the node that sent the request.
    pub open spec fn sender(self) -> PeerView {
        match self {
            RequestView::Hello(p) => p,
            RequestView::HowAreYou(p) => p,
            RequestView::NewTransaction(p, _) => p,
            RequestView::NewBlock(p, _) => p,
            RequestView::NewPeer(p, _) => p,
        }
    }
}

impl Request {
    /// The identity of the node that sent the request.
    pub fn get_sender_peer_info(&self) -> (r: &PeerInfo)
        ensures
            r@ == self@.sender(),
    {
        match self {
            Request::Hello(p) => p,
            Request::HowAreYou(p) => p,
            Request::NewTransaction(p, _) => p,
            Request::NewBlock(p, _) => p,
            Request::NewPeer(p, _) => p,
        }
    }
}

} // verus!
