use btc_lib::ledger::{Block, BlockHeader, Network, Transaction, TxInput, TxOutput, TxStatus};
use btc_lib::ledger_hash::{calculate_merkle_root, pair_hash, validate_merkle_root, BtcLibError, Hashable};

fn tx1() -> Transaction {
    Transaction::new(
        "tx1",
        vec![TxInput::new("prev", 0)],
        vec![TxOutput::new(50, "alice", TxStatus::Unspent), TxOutput::new(25, "bob", TxStatus::Spent)],
    )
}

fn tx2() -> Transaction {
    Transaction::new("coinbase", vec![], vec![TxOutput::new(100, "miner", TxStatus::Unspent)])
}

fn tx3() -> Transaction {
    Transaction::new(
        "tx3",
        vec![TxInput::new("a", 1), TxInput::new("b", 2)],
        vec![TxOutput::new(7, "carol", TxStatus::Spent)],
    )
}

const TX1_HASH: &str = "36bbef9df89f91a885253cfc3590b694ae2805f3283f553cc6f93ba3a374d401";
const TX2_HASH: &str = "578d5de1c5e66c4246edaf48b649e7b9b34167461dde4d20ff3d2068dc41ff73";
const ROOT_OF_TWO: &str = "e7ab2cb99934278af4f9ce77e63964e009c4ab1b17ad1a098a77c5572fd5c917";
const ROOT_OF_THREE: &str = "6ba132f65e1b12c3918033e49b1443f948578c7a39e15ee2b202393f9f6c0ae4";

fn block_with(transactions: Vec<Transaction>, merkle_root: &str) -> Block {
    Block::new(BlockHeader::new("bh", "ph", merkle_root, 0, 0), transactions, 7, Network::Mainnet)
}

#[test]
fn transaction_material_format() {
    assert_eq!(tx1().hash_material(), "tx:tx1|inputs:prev:0;|outputs:50:alice:unspent;25:bob:spent;");
    assert_eq!(tx2().hash_material(), "tx:coinbase|inputs:|outputs:100:miner:unspent;");
    assert_eq!(tx3().hash_material(), "tx:tx3|inputs:a:1;b:2;|outputs:7:carol:spent;");
}

#[test]
fn block_material_format() {
    let block = block_with(vec![tx1(), tx2()], "mr");
    assert_eq!(block.hash_material(), "block:bh|prev:ph|merkle:mr|height:7|txs:tx1;coinbase;");
    let empty = block_with(vec![], "");
    assert_eq!(empty.hash_material(), "block:bh|prev:ph|merkle:|height:7|txs:");
}

#[test]
fn hash_hex_is_sha256_of_material() {
    assert_eq!(tx1().hash_hex(), TX1_HASH);
    assert_eq!(tx2().hash_hex(), TX2_HASH);
    let block = block_with(vec![tx1()], "mr");
    assert_eq!(block.hash_hex().len(), 64);
}

#[test]
fn pair_hash_joins_without_separator() {
    assert_eq!(pair_hash("a", "b"), "fb8e20fc2e4c3f248c60c39bd652f3c1347298bb977b8b4d5903b85055620603");
    assert_eq!(pair_hash("he", "llo"), "2cf24dba5fb0a30e26e83b2ac5b9e29e1b161e5c1fa7425e73043362938b9824");
    assert_ne!(pair_hash("a", "b"), pair_hash("b", "a"));
}

#[test]
fn merkle_root_of_empty_single_and_several() {
    assert_eq!(calculate_merkle_root(&[]), Err(BtcLibError::EmptyBlock));
    assert_eq!(calculate_merkle_root(&[tx1()]), Ok(TX1_HASH.to_string()));
    assert_eq!(calculate_merkle_root(&[tx1(), tx2()]), Ok(ROOT_OF_TWO.to_string()));
    assert_eq!(calculate_merkle_root(&[tx1(), tx2()]), Ok(pair_hash(TX1_HASH, TX2_HASH)));
    assert_eq!(calculate_merkle_root(&[tx1(), tx2(), tx3()]), Ok(ROOT_OF_THREE.to_string()));
}

#[test]
fn odd_level_pairs_last_hash_with_itself() {
    let h3 = tx3().hash_hex();
    let expected = pair_hash(&pair_hash(TX1_HASH, TX2_HASH), &pair_hash(&h3, &h3));
    assert_eq!(calculate_merkle_root(&[tx1(), tx2(), tx3()]), Ok(expected));
}

#[test]
fn validate_merkle_root_cases() {
    assert_eq!(validate_merkle_root(&block_with(vec![], "")), Err(BtcLibError::EmptyBlock));
    assert_eq!(validate_merkle_root(&block_with(vec![tx1(), tx2()], ROOT_OF_TWO)), Ok(()));
    assert_eq!(
        validate_merkle_root(&block_with(vec![tx1(), tx2()], TX1_HASH)),
        Err(BtcLibError::InvalidMerkleRoot)
    );
    let upper = ROOT_OF_TWO.to_uppercase();
    assert_eq!(
        validate_merkle_root(&block_with(vec![tx1(), tx2()], &upper)),
        Err(BtcLibError::InvalidMerkleRoot)
    );
}
