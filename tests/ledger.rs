use nb::blockchain::{Block, Blockchain, Transaction};

fn tx(id: &str, sender: &str, recipient: &str, amount: i64) -> Transaction {
    Transaction {
        id: id.to_owned(),
        sender: sender.to_owned(),
        recipient: recipient.to_owned(),
        amount,
    }
}

fn tamper(chain: &Blockchain, edit: impl FnOnce(&mut Vec<Block>)) -> Blockchain {
    let mut blocks = chain.get_blocks();
    edit(&mut blocks);
    Blockchain::from_blocks(blocks)
}

#[test]
fn test_pow() {
    assert!(Blockchain::valid_proof(100, 35293));
    assert!(Blockchain::valid_proof(35293, 35089));

    assert_eq!(Blockchain::proof_of_work(100), 35293);
    assert_eq!(Blockchain::proof_of_work(35293), 35089);
}

#[test]
fn test_valid_chain() {
    let mut chain = Blockchain::new();
    assert!(Blockchain::valid_chain(&chain));

    // play with the genesis block
    let changed = tamper(&chain, |b| b[0].transactions.push(Transaction::new("good", "evil", 100)));
    assert!(!Blockchain::valid_chain(&changed));
    let restored = tamper(&changed, |b| {
        b[0].transactions.pop();
    });
    assert!(Blockchain::valid_chain(&restored));
    let changed = tamper(&chain, |b| b[0].proof = 101);
    assert!(!Blockchain::valid_chain(&changed));
    let restored = tamper(&changed, |b| b[0].proof = 100);
    assert!(Blockchain::valid_chain(&restored));
    let changed = tamper(&chain, |b| b[0].previous_hash = "2".to_owned());
    assert!(!Blockchain::valid_chain(&changed));
    let restored = tamper(&changed, |b| b[0].previous_hash = "1".to_owned());
    assert!(Blockchain::valid_chain(&restored));

    // perform some normal operations
    chain.add_new_transaction(&Transaction::new("0", "1", 1));
    chain.add_new_transaction(&Transaction::new("1", "2", 2));
    chain.add_new_transaction(&Transaction::new("2", "3", 3));
    let proof = chain.run_pow();
    let hash = chain.last_block().get_hash();
    chain.create_new_block(proof, hash);
    assert!(Blockchain::valid_chain(&chain));
    let proof = chain.run_pow();
    let hash = chain.last_block().get_hash();
    chain.create_new_block(proof, hash);
    assert!(Blockchain::valid_chain(&chain));

    // tamper an intermediate block
    let changed = tamper(&chain, |b| b[1].transactions.push(Transaction::new("good", "evil", 100)));
    assert!(!Blockchain::valid_chain(&changed));
    let restored = tamper(&changed, |b| {
        b[1].transactions.pop();
    });
    assert!(Blockchain::valid_chain(&restored));
    let true_proof = chain.get_blocks()[1].proof;
    let changed = tamper(&chain, |b| b[1].proof = 123);
    assert!(!Blockchain::valid_chain(&changed));
    let restored = tamper(&changed, |b| b[1].proof = true_proof);
    assert!(Blockchain::valid_chain(&restored));

    // add a block without running pow
    let hash = chain.last_block().get_hash();
    chain.create_new_block(456, hash);
    assert!(!Blockchain::valid_chain(&chain));
    let mut chain = tamper(&chain, |b| {
        b.pop();
    });
    assert!(Blockchain::valid_chain(&chain));

    // play with the genesis block again
    chain = tamper(&chain, |b| b[0].transactions.push(Transaction::new("good", "evil", 100)));
    assert!(!Blockchain::valid_chain(&chain));
}

#[test]
fn proof_of_work_is_minimal_and_valid() {
    for last in [0u64, 1, 100, 35293] {
        let p = Blockchain::proof_of_work(last);
        assert!(Blockchain::valid_proof(last, p));
        for q in 0..p.min(2000) {
            assert!(!Blockchain::valid_proof(last, q));
        }
    }
    assert!(!Blockchain::valid_proof(100, 35292));
    assert!(!Blockchain::valid_proof(100, 35294));
}

#[test]
fn genesis_block_is_the_fixed_sentinel() {
    let g = Block::get_genesis();
    assert_eq!(g.get_index(), 0);
    assert_eq!(g.timestamp, 0);
    assert_eq!(g.proof, 100);
    assert!(g.transactions.is_empty());
    assert_eq!(g.previous_hash, "1");
    let chain = Blockchain::new();
    assert_eq!(chain.len(), 1);
    assert_eq!(chain.last_block().proof, 100);
    assert!(chain.get_current_transactions().is_empty());
    let d = Blockchain::default();
    assert_eq!(d.len(), 1);
}

#[test]
fn block_json_and_hash() {
    let g = Block::get_genesis();
    assert_eq!(
        g.to_json(),
        "{\"index\":0,\"timestamp\":0,\"proof\":100,\"transactions\":[],\"previous_hash\":\"1\"}"
    );
    assert_eq!(
        g.get_hash(),
        "2e4f5a514b0b39153a2f4db7ef4a8ee0edb1e950c03b7d55cceaa9be35089847"
    );
    let b = Block {
        index: 1,
        timestamp: 5,
        proof: 35293,
        transactions: vec![tx("x\"y", "a", "b", -7)],
        previous_hash: "h".to_owned(),
    };
    assert_eq!(
        b.to_json(),
        "{\"index\":1,\"timestamp\":5,\"proof\":35293,\"transactions\":[{\"id\":\"x\\\"y\",\"sender\":\"a\",\"recipient\":\"b\",\"amount\":-7}],\"previous_hash\":\"h\"}"
    );
    assert_eq!(
        b.get_hash(),
        "ea1ac37b56c8b6bd33258e4faaa20880b1afa557c5428d7d70dd520e45523e2f"
    );
}

#[test]
fn transactions_json_are_comma_separated() {
    let b = Block {
        index: 2,
        timestamp: 0,
        proof: 0,
        transactions: vec![tx("1", "a", "b", 1), tx("2", "c", "d", 2)],
        previous_hash: String::new(),
    };
    assert_eq!(
        b.to_json(),
        "{\"index\":2,\"timestamp\":0,\"proof\":0,\"transactions\":[{\"id\":\"1\",\"sender\":\"a\",\"recipient\":\"b\",\"amount\":1},{\"id\":\"2\",\"sender\":\"c\",\"recipient\":\"d\",\"amount\":2}],\"previous_hash\":\"\"}"
    );
}

#[test]
fn transaction_new_and_clone() {
    let t = Transaction::new("A", "B", 1);
    assert_eq!(t.sender, "A");
    assert_eq!(t.recipient, "B");
    assert_eq!(t.amount, 1);
    assert_eq!(t.get_id().len(), 36);
    let u = Transaction::new("A", "B", 1);
    assert_ne!(t.get_id(), u.get_id());
    let c = t.clone();
    assert_eq!(c.get_id(), t.get_id());
    assert_eq!(c.sender, t.sender);
}

#[test]
fn same_id_is_admitted_once() {
    let mut chain = Blockchain::new();
    assert!(chain.add_new_transaction(&tx("t", "A", "B", 1)));
    assert!(!chain.add_new_transaction(&tx("t", "C", "D", 9)));
    let pending = chain.get_current_transactions();
    assert_eq!(pending.len(), 1);
    assert_eq!(pending[0].sender, "A");
}

#[test]
fn committed_transaction_is_not_admitted_again() {
    let mut chain = Blockchain::new();
    let t = tx("t", "A", "B", 1);
    assert!(chain.add_new_transaction(&t));
    let proof = chain.run_pow();
    let hash = chain.last_block().get_hash();
    chain.create_new_block(proof, hash);
    assert!(chain.get_current_transactions().is_empty());
    assert!(!chain.add_new_transaction(&t));
    assert!(chain.get_current_transactions().is_empty());
}

fn next_block(chain: &Blockchain, index: u64, transactions: Vec<Transaction>) -> Block {
    Block {
        index,
        timestamp: 7,
        proof: chain.run_pow(),
        transactions,
        previous_hash: chain.last_block().get_hash(),
    }
}

#[test]
fn append_block_takes_only_the_next_slot() {
    let mut chain = Blockchain::new();
    let stale = next_block(&chain, 0, vec![]);
    assert!(!chain.add_new_block(&stale));
    let future = next_block(&chain, 2, vec![]);
    assert!(!chain.add_new_block(&future));
    assert_eq!(chain.len(), 1);

    let mut wrong_hash = next_block(&chain, 1, vec![]);
    wrong_hash.previous_hash = "0".to_owned();
    assert!(!chain.add_new_block(&wrong_hash));
    let mut wrong_proof = next_block(&chain, 1, vec![]);
    wrong_proof.proof = 35292;
    assert!(!chain.add_new_block(&wrong_proof));
    assert_eq!(chain.len(), 1);

    assert!(chain.add_new_transaction(&tx("a", "A", "B", 1)));
    assert!(chain.add_new_transaction(&tx("b", "B", "C", 2)));
    assert!(chain.add_new_transaction(&tx("c", "C", "D", 3)));
    let good = next_block(&chain, 1, vec![tx("b", "B", "C", 2), tx("z", "Z", "Y", 4)]);
    assert!(chain.add_new_block(&good));
    assert_eq!(chain.len(), 2);
    assert_eq!(chain.last_block().get_hash(), good.get_hash());
    let ids: Vec<String> = chain.get_current_transactions().iter().map(|t| t.id.clone()).collect();
    assert_eq!(ids, vec!["a".to_owned(), "c".to_owned()]);
    assert!(Blockchain::valid_chain(&chain));
    assert!(!chain.add_new_block(&good));
}

fn mined_chain(blocks: usize) -> Blockchain {
    let mut chain = Blockchain::new();
    for _ in 0..blocks {
        chain.add_new_transaction(&Transaction::new("0", "miner", 1));
        let proof = chain.run_pow();
        let hash = chain.last_block().get_hash();
        chain.create_new_block(proof, hash);
    }
    chain
}

#[test]
fn adopt_prefers_the_longer_valid_chain() {
    let mut x = mined_chain(1);
    let mut y = mined_chain(2);
    assert!(Blockchain::valid_chain(&x));
    assert!(Blockchain::valid_chain(&y));

    let y_hash = y.last_block().get_hash();
    assert!(!y.adopt(x.get_blocks()));
    assert_eq!(y.len(), 3);
    assert_eq!(y.last_block().get_hash(), y_hash);

    assert!(x.adopt(y.get_blocks()));
    assert_eq!(x.len(), y.len());
    assert_eq!(x.last_block().get_hash(), y_hash);
}

#[test]
fn adopt_refuses_equal_length_and_invalid_chains() {
    let mut x = mined_chain(1);
    let other = mined_chain(1);
    let before = x.last_block().get_hash();
    assert!(!x.adopt(other.get_blocks()));
    assert_eq!(x.last_block().get_hash(), before);

    let mut bad = mined_chain(2).get_blocks();
    bad[2].proof = 1;
    assert!(!x.adopt(bad));
    assert_eq!(x.len(), 2);
}

#[test]
fn adopt_readmits_pending_transactions_not_in_new_chain() {
    let y = mined_chain(2);
    let committed_id = y.get_blocks()[1].transactions[0].id.clone();
    let mut x = Blockchain::new();
    assert!(x.add_new_transaction(&tx("keep", "A", "B", 1)));
    assert!(x.add_new_transaction(&tx(&committed_id, "0", "miner", 1)));
    assert!(x.add_new_transaction(&tx("also", "B", "C", 2)));
    assert!(x.adopt(y.get_blocks()));
    assert_eq!(x.len(), 3);
    let ids: Vec<String> = x.get_current_transactions().iter().map(|t| t.id.clone()).collect();
    assert_eq!(ids, vec!["keep".to_owned(), "also".to_owned()]);
}

#[test]
fn end_to_end_block_of_pending_transactions() {
    let mut chain = Blockchain::new();
    let t1 = Transaction::new("A", "B", 1);
    let t2 = Transaction::new("B", "C", 2);
    assert!(chain.add_new_transaction(&t1));
    assert!(chain.add_new_transaction(&t2));
    let proof = chain.run_pow();
    let genesis_hash = Block::get_genesis().get_hash();
    let block = chain.create_new_block(proof, genesis_hash);
    assert_eq!(block.get_index(), 1);
    let ids: Vec<&str> = block.transactions.iter().map(|t| t.get_id()).collect();
    assert_eq!(ids, vec![t1.get_id(), t2.get_id()]);
    assert_eq!(chain.len(), 2);
    assert!(Blockchain::valid_chain(&chain));

    let hash = chain.last_block().get_hash();
    chain.create_new_block(456, hash);
    assert!(!Blockchain::valid_chain(&chain));
}

#[test]
fn end_to_end_longer_chain_wins() {
    let mut x = mined_chain(1);
    let mut y = mined_chain(2);
    assert!(Blockchain::valid_chain(&x) && Blockchain::valid_chain(&y));
    let y_blocks = y.get_blocks();
    let x_blocks = x.get_blocks();
    assert!(x.adopt(y_blocks));
    assert_eq!(x.len(), y.len());
    let y_len = y.len();
    assert!(!y.adopt(x_blocks));
    assert_eq!(y.len(), y_len);
}

#[test]
fn genesis_sentinel_ignores_timestamp_but_not_index() {
    let chain = Blockchain::new();
    let later = tamper(&chain, |b| b[0].timestamp = 1);
    assert!(Blockchain::valid_chain(&later));
    let moved = tamper(&chain, |b| b[0].index = 1);
    assert!(!Blockchain::valid_chain(&moved));
}

#[test]
fn digests_are_lowercase_hex() {
    let h = mined_chain(1).last_block().get_hash();
    assert_eq!(h.len(), 64);
    assert!(h.chars().all(|c| c.is_ascii_digit() || ('a'..='f').contains(&c)));
}
