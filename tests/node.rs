use nb::blockchain::{Block, Blockchain, Transaction};
use nb::command::Command;
use nb::message::{Request, Response};
use nb::node::{CommandAction, Node, ProtocolError};
use nb::peer::PeerInfo;

fn me() -> PeerInfo {
    PeerInfo::from_parts("me".to_owned(), "127.0.0.1:4000".to_owned())
}

fn other(id: &str) -> PeerInfo {
    PeerInfo::from_parts(id.to_owned(), "127.0.0.1:4001".to_owned())
}

#[test]
fn peer_registry_refuses_self_and_duplicates() {
    let mut node = Node::new(me());
    assert!(!node.add_peer(&me()));
    assert!(node.get_peers().is_empty());
    let p = other("p");
    assert!(node.add_peer(&p));
    assert!(!node.add_peer(&p));
    assert!(node.add_peer(&other("q")));
    let peers = node.get_peers();
    assert_eq!(peers, vec![other("p"), other("q")]);
    assert!(node.take_broadcasts().is_empty());
}

#[test]
fn peer_info_parts() {
    let p = PeerInfo::new("10.0.0.1:80".to_owned());
    assert_eq!(p.get_address(), "10.0.0.1:80");
    assert_eq!(p.get_id().len(), 36);
    let q = PeerInfo::new("10.0.0.1:80".to_owned());
    assert_ne!(p, q);
    assert_eq!(p.clone(), p);
    assert_eq!(other("x").get_id(), "x");
    let node = Node::new(me());
    assert_eq!(node.get_basic_info(), me());
}

#[test]
fn hello_is_acknowledged_and_sender_added() {
    let mut node = Node::new(me());
    let response = node.serve_request(Request::Hello(other("p")));
    match response {
        Response::Ack(p) => assert_eq!(p, me()),
        _ => panic!("expected Ack"),
    }
    assert_eq!(node.get_peers(), vec![other("p")]);
    assert_eq!(Request::Hello(other("p")).get_sender_peer_info(), &other("p"));
}

#[test]
fn how_are_you_gets_the_blocks() {
    let mut node = Node::new(me());
    match node.serve_request(Request::HowAreYou(other("p"))) {
        Response::MyBlocks(p, blocks) => {
            assert_eq!(p, me());
            assert_eq!(blocks.len(), 1);
            assert_eq!(blocks[0].get_hash(), Block::get_genesis().get_hash());
        }
        _ => panic!("expected MyBlocks"),
    }
}

#[test]
fn new_transaction_is_admitted_and_passed_on_once() {
    let mut node = Node::new(me());
    let t = Transaction::new("A", "B", 5);
    let r = node.serve_request(Request::NewTransaction(other("p"), t.clone()));
    assert!(matches!(r, Response::Ack(_)));
    assert_eq!(node.get_current_transactions().len(), 1);
    let out = node.take_broadcasts();
    assert_eq!(out.len(), 1);
    match &out[0] {
        Request::NewTransaction(from, sent) => {
            assert_eq!(from, &me());
            assert_eq!(sent.get_id(), t.get_id());
        }
        _ => panic!("expected NewTransaction"),
    }
    node.serve_request(Request::NewTransaction(other("q"), t.clone()));
    assert_eq!(node.get_current_transactions().len(), 1);
    assert!(node.take_broadcasts().is_empty());
    assert_eq!(node.get_peers().len(), 2);
}

#[test]
fn new_peer_is_added_and_passed_on_once() {
    let mut node = Node::new(me());
    node.serve_request(Request::NewPeer(other("p"), other("q")));
    assert_eq!(node.get_peers(), vec![other("p"), other("q")]);
    let out = node.take_broadcasts();
    assert_eq!(out.len(), 1);
    assert!(matches!(&out[0], Request::NewPeer(_, q) if *q == other("q")));
    node.handle_incoming_peer(other("q"));
    node.handle_incoming_peer(me());
    assert!(node.take_broadcasts().is_empty());
}

#[test]
fn mining_rewards_the_node_and_passes_the_block_on() {
    let mut node = Node::new(me());
    node.create_and_add_new_transaction("A", "B", 3);
    assert_eq!(node.take_broadcasts().len(), 1);
    node.mine();
    let blocks = node.get_blocks();
    assert_eq!(blocks.len(), 2);
    let block = &blocks[1];
    assert_eq!(block.get_index(), 1);
    assert_eq!(block.proof, Blockchain::proof_of_work(100));
    assert_eq!(block.previous_hash, Block::get_genesis().get_hash());
    assert_eq!(block.transactions.len(), 2);
    assert_eq!(block.transactions[0].sender, "A");
    let reward = &block.transactions[1];
    assert_eq!(reward.sender, "0");
    assert_eq!(reward.recipient, "me");
    assert_eq!(reward.amount, 1);
    assert!(node.get_current_transactions().is_empty());
    let out = node.take_broadcasts();
    assert_eq!(out.len(), 1);
    match &out[0] {
        Request::NewBlock(from, b) => {
            assert_eq!(from, &me());
            assert_eq!(b.get_hash(), block.get_hash());
        }
        _ => panic!("expected NewBlock"),
    }
}

#[test]
fn incoming_block_is_appended_and_passed_on() {
    let mut miner = Node::new(other("m"));
    miner.mine();
    let block = miner.get_blocks()[1].clone();
    let mut node = Node::new(me());
    node.serve_request(Request::NewBlock(other("m"), block.clone()));
    assert_eq!(node.get_blocks().len(), 2);
    let out = node.take_broadcasts();
    assert_eq!(out.len(), 1);
    node.handle_incoming_block(block);
    assert_eq!(node.get_blocks().len(), 2);
    assert!(node.take_broadcasts().is_empty());
}

#[test]
fn replies_of_the_wrong_kind_are_errors() {
    let mut node = Node::new(me());
    let r = node.accept_hello_reply(Response::MyBlocks(other("p"), vec![]));
    assert_eq!(r, Err(ProtocolError::UnexpectedResponse));
    let r = node.accept_chain_reply(Response::Ack(other("p")));
    assert_eq!(r, Err(ProtocolError::UnexpectedResponse));
    assert!(node.get_peers().is_empty());
    assert!(node.take_broadcasts().is_empty());
}

#[test]
fn hello_reply_adds_the_greeted_node() {
    let mut node = Node::new(me());
    assert_eq!(node.accept_hello_reply(Response::Ack(other("p"))), Ok(true));
    assert_eq!(node.accept_hello_reply(Response::Ack(other("p"))), Ok(false));
    assert_eq!(node.get_peers(), vec![other("p")]);
    assert_eq!(node.take_broadcasts().len(), 2);
}

#[test]
fn chain_reply_adopts_a_longer_chain() {
    let mut miner = Node::new(other("m"));
    miner.mine();
    miner.mine();
    let mut node = Node::new(me());
    node.create_and_add_new_transaction("A", "B", 1);
    node.take_broadcasts();
    let r = node.accept_chain_reply(Response::MyBlocks(other("m"), miner.get_blocks()));
    assert_eq!(r, Ok(true));
    assert_eq!(node.get_blocks().len(), 3);
    assert_eq!(node.get_current_transactions().len(), 1);
    assert_eq!(node.take_broadcasts().len(), 1);
    let r = node.accept_chain_reply(Response::MyBlocks(other("m"), miner.get_blocks()));
    assert_eq!(r, Ok(false));
    assert!(!node.update_chain(vec![Block::get_genesis()]));
}

#[test]
fn commands_are_served_or_handed_back() {
    let mut node = Node::new(me());
    assert!(matches!(
        node.serve_command(Command::NewTrans("A".to_owned(), "B".to_owned(), 2)),
        CommandAction::Done
    ));
    assert_eq!(node.get_current_transactions().len(), 1);
    assert!(matches!(node.serve_command(Command::Display), CommandAction::ShowBlocks));
    assert!(matches!(node.serve_command(Command::DisplayPeers), CommandAction::ShowPeers));
    assert!(matches!(node.serve_command(Command::Resolve), CommandAction::Resolve));
    match node.serve_command(Command::AddPeer("127.0.0.1:5000".to_owned())) {
        CommandAction::Greet(a) => assert_eq!(a, "127.0.0.1:5000"),
        _ => panic!("expected Greet"),
    }
    assert!(matches!(node.serve_command(Command::Mine), CommandAction::Done));
    assert_eq!(node.get_blocks().len(), 2);
}
