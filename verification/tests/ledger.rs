use btc_lib::ledger::{
    collect_ids, count_unspent_outputs, have_same_id, network_from_magic, network_magic,
    total_value_for_recipient, Block, BlockHeader, Identifiable, Network, Transaction, TxInput,
    TxOutput, TxStatus, ValidationError,
};

fn output(value: u64, recipient: &str, status: TxStatus) -> TxOutput {
    TxOutput::new(value, recipient, status)
}

fn regular_tx(txid: &str) -> Transaction {
    Transaction::new(
        txid,
        vec![TxInput::new("prev", 0)],
        vec![output(50, "alice", TxStatus::Unspent), output(25, "bob", TxStatus::Spent)],
    )
}

fn coinbase_tx() -> Transaction {
    Transaction::new("coinbase", vec![], vec![output(100, "miner", TxStatus::Unspent)])
}

fn header() -> BlockHeader {
    BlockHeader::new("bh", "ph", "mr", 1_700_000_000, 42)
}

#[test]
fn tx_input_new_copies_fields() {
    let input = TxInput::new("abc", 3);
    assert_eq!(input.previous_txid, "abc");
    assert_eq!(input.previous_vout, 3);
}

#[test]
fn tx_output_new_stores_fields_and_random_v4_id() {
    let a = output(10, "alice", TxStatus::Unspent);
    let b = output(10, "alice", TxStatus::Unspent);
    assert_eq!(a.value_sats, 10);
    assert_eq!(a.recipient, "alice");
    assert_eq!(a.status, TxStatus::Unspent);
    assert_eq!((a.unique_id >> 76) & 0xF, 4);
    assert_eq!((a.unique_id >> 62) & 0x3, 2);
    assert_ne!(a.unique_id, b.unique_id);
}

#[test]
fn is_unspent_follows_status() {
    assert!(output(1, "a", TxStatus::Unspent).is_unspent());
    assert!(!output(1, "a", TxStatus::Spent).is_unspent());
}

#[test]
fn coinbase_rule_needs_name_and_no_inputs() {
    assert!(coinbase_tx().is_coinbase());
    let with_input = Transaction::new("coinbase", vec![TxInput::new("x", 0)], vec![]);
    assert!(!with_input.is_coinbase());
    let other_name = Transaction::new("coinbase2", vec![], vec![]);
    assert!(!other_name.is_coinbase());
}

#[test]
fn transaction_totals_and_counts() {
    let tx = Transaction::new(
        "t",
        vec![],
        vec![
            output(5, "a", TxStatus::Unspent),
            output(7, "b", TxStatus::Spent),
            output(11, "c", TxStatus::Unspent),
        ],
    );
    assert_eq!(tx.total_output_value(), 23);
    assert_eq!(tx.unspent_output_count(), 2);
    assert_eq!(tx.spent_output_count(), 1);
    assert_eq!(tx.unspent_output_count() + tx.spent_output_count(), tx.outputs.len());
    let empty = Transaction::new("e", vec![], vec![]);
    assert_eq!(empty.total_output_value(), 0);
    assert_eq!(empty.unspent_output_count(), 0);
}

#[test]
fn transaction_validate_reports_each_rule() {
    assert_eq!(regular_tx("tx1").validate(), Ok(()));
    assert_eq!(coinbase_tx().validate(), Ok(()));
    let empty_id = Transaction::new("", vec![], vec![]);
    assert_eq!(empty_id.validate(), Err(ValidationError::EmptyTxId));
    let no_inputs = Transaction::new("t", vec![], vec![output(1, "a", TxStatus::Unspent)]);
    assert_eq!(no_inputs.validate(), Err(ValidationError::MissingInputs));
    let no_outputs = Transaction::new("t", vec![TxInput::new("p", 0)], vec![]);
    assert_eq!(no_outputs.validate(), Err(ValidationError::MissingOutputs));
    let coinbase_no_outputs = Transaction::new("coinbase", vec![], vec![]);
    assert_eq!(coinbase_no_outputs.validate(), Err(ValidationError::MissingOutputs));
    let zero = Transaction::new(
        "t",
        vec![TxInput::new("p", 0)],
        vec![output(1, "a", TxStatus::Unspent), output(0, "b", TxStatus::Unspent)],
    );
    assert_eq!(zero.validate(), Err(ValidationError::ZeroValueOutput));
}

#[test]
fn block_accessors() {
    let block = Block::new(header(), vec![regular_tx("tx1"), coinbase_tx()], 7, Network::Regtest);
    assert_eq!(block.transaction_count(), 2);
    assert_eq!(block.total_output_value(), 175);
    assert_eq!(block.coinbase_transaction().map(|t| t.txid.clone()), Some("coinbase".to_string()));
    assert_eq!(block.find_transaction("tx1").map(|t| t.txid.clone()), Some("tx1".to_string()));
    assert!(block.find_transaction("nope").is_none());
    let plain = Block::new(header(), vec![regular_tx("tx1")], 1, Network::Mainnet);
    assert!(plain.coinbase_transaction().is_none());
    assert_eq!(plain.id(), "bh");
    assert_eq!(plain.height, 1);
    assert_eq!(plain.network, Network::Mainnet);
}

#[test]
fn block_validate_rules_in_order() {
    let empty = Block::new(header(), vec![], 0, Network::Mainnet);
    assert_eq!(empty.validate(), Err(ValidationError::EmptyBlock));
    let good = Block::new(header(), vec![coinbase_tx(), regular_tx("tx1")], 1, Network::Mainnet);
    assert_eq!(good.validate(), Ok(()));
    let dup = Block::new(header(), vec![regular_tx("tx1"), regular_tx("tx1")], 1, Network::Mainnet);
    assert_eq!(dup.validate(), Err(ValidationError::DuplicateTxId));
    let bad_tx = Transaction::new("bad", vec![TxInput::new("p", 0)], vec![]);
    let invalid = Block::new(header(), vec![regular_tx("tx1"), bad_tx.clone()], 1, Network::Mainnet);
    assert_eq!(invalid.validate(), Err(ValidationError::MissingOutputs));
    // the invalid transaction comes before the repeated txid
    let both = Block::new(
        header(),
        vec![bad_tx, regular_tx("tx1"), regular_tx("tx1")],
        1,
        Network::Mainnet,
    );
    assert_eq!(both.validate(), Err(ValidationError::MissingOutputs));
}

#[test]
fn network_magic_values_and_round_trip() {
    assert_eq!(network_magic(Network::Mainnet), 0xD9B4BEF9);
    assert_eq!(network_magic(Network::Testnet), 0x0709110B);
    assert_eq!(network_magic(Network::Signet), 0x40CF030A);
    assert_eq!(network_magic(Network::Regtest), 0xDAB5BFFA);
    for network in [Network::Mainnet, Network::Testnet, Network::Signet, Network::Regtest] {
        assert_eq!(network_from_magic(network_magic(network)), Some(network));
    }
    assert_eq!(network_from_magic(0), None);
    assert_eq!(network_from_magic(0xD9B4BEFA), None);
}

#[test]
fn counts_and_recipient_totals_across_transactions() {
    let txs = vec![regular_tx("tx1"), coinbase_tx(), regular_tx("tx2")];
    assert_eq!(count_unspent_outputs(&txs), 3);
    assert_eq!(total_value_for_recipient(&txs, "alice"), 100);
    assert_eq!(total_value_for_recipient(&txs, "miner"), 100);
    assert_eq!(total_value_for_recipient(&txs, "Alice"), 0);
    assert_eq!(total_value_for_recipient(&[], "alice"), 0);
    assert_eq!(count_unspent_outputs(&[]), 0);
}

#[test]
fn ids_through_the_trait() {
    let tx = regular_tx("bh");
    let block = Block::new(header(), vec![], 0, Network::Mainnet);
    assert_eq!(tx.id(), "bh");
    assert!(have_same_id(&tx, &block));
    assert!(!have_same_id(&regular_tx("other"), &block));
    let items: Vec<Box<dyn Identifiable>> = vec![
        Box::new(regular_tx("first")),
        Box::new(block.clone()),
        Box::new(coinbase_tx()),
    ];
    assert_eq!(collect_ids(&items), vec!["first".to_string(), "bh".to_string(), "coinbase".to_string()]);
    assert!(collect_ids(&[]).is_empty());
}
