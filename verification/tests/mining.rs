use std::collections::BTreeMap;

use btc_lib::mining::error::MinerError;
use btc_lib::mining::mempool::Mempool;
use btc_lib::mining::miner::{
    build_candidate_block, build_candidate_from_mempool, mine_range, mine_single_threaded,
    mine_range_checked, mine_single_threaded_checked, progress_line, report_first_found,
    run_worker, run_worker_checked, split_nonce_ranges, try_nonce, worker_start, worker_step,
    MinedNonce, MiningConfig, WorkerAction, WorkerProgress,
};
use btc_lib::mining::pow::{calculate_merkle_root, candidate_hash_material, hash_candidate, hash_meets_difficulty};
use btc_lib::mining::types::{
    Block, BlockHeader, CandidateBlock, Hashable, OutPoint, Transaction, TxInput, TxOutput, Utxo,
};

const COINBASE_HASH: &str = "4dcccf983abd5d5175eeee2eec16ad59f9b12e91788fae6e0b82072e87762bc3";
const HASH_AT_NONCE_0: &str = "b6ec9e37ffcc6b12c145fe83af2ec82796b42cc8f1a0bb02c00c87d16e25ec82";
const HASH_AT_NONCE_33: &str = "020e8579826d35e19634b6e0d190fa8efbc2d3b8353e5009a17fdf8976f2d130";
const HASH_AT_NONCE_219: &str = "00a0407ef05f82f59be2de6f064a0e17935646cee9fd205cd41f97e171a3a661";

fn candidate() -> CandidateBlock {
    CandidateBlock {
        previous_block_hash: "prev".to_string(),
        height: 1,
        transactions: vec![Transaction::coinbase("coinbase-1", "miner", 50)],
        coinbase_recipient: "miner".to_string(),
        reward_sats: 50,
        timestamp: 1000,
    }
}

fn empty_candidate() -> CandidateBlock {
    CandidateBlock { transactions: vec![], ..candidate() }
}

fn spend() -> Transaction {
    Transaction::new(
        "spend",
        vec![TxInput::new("coinbase-1", 0)],
        vec![TxOutput::new(30, "bob"), TxOutput::new(15, "carol")],
    )
}

fn config(prefix: &str, start: u64, max: u64, workers: usize) -> MiningConfig {
    MiningConfig { difficulty_prefix: prefix.to_string(), start_nonce: start, max_nonce: max, worker_count: workers }
}

fn simple_tx(txid: &str, value: u64) -> Transaction {
    Transaction::new(txid, vec![TxInput::new("p", 0)], vec![TxOutput::new(value, "r")])
}

#[test]
fn inputs_outputs_and_coinbase() {
    let input = TxInput::new("abc", 2);
    assert_eq!(input.outpoint(), OutPoint { txid: "abc".to_string(), vout: 2 });
    let output = TxOutput::new(9, "dave");
    assert_eq!(output.value_sats, 9);
    assert_eq!(output.recipient, "dave");
    let coinbase = Transaction::coinbase("cb", "miner", 625);
    assert!(coinbase.is_coinbase());
    assert!(coinbase.inputs.is_empty());
    assert_eq!(coinbase.outputs, vec![TxOutput::new(625, "miner")]);
    assert!(!spend().is_coinbase());
    assert_eq!(spend().total_output_value(), 45);
    let utxo = Utxo { outpoint: input.outpoint(), value_sats: 3, recipient: "x".to_string() };
    assert_eq!(utxo.clone(), utxo);
}

#[test]
fn fee_from_utxos_cases() {
    let mut utxos: BTreeMap<OutPoint, u64> = BTreeMap::new();
    utxos.insert(OutPoint { txid: "coinbase-1".to_string(), vout: 0 }, 50);
    assert_eq!(spend().fee_from_utxos(|op: &OutPoint| utxos.get(op).copied()), Ok(5));
    assert_eq!(
        Transaction::coinbase("cb", "m", 10).fee_from_utxos(|_op: &OutPoint| None),
        Ok(0)
    );
    assert_eq!(
        spend().fee_from_utxos(|_op: &OutPoint| None),
        Err(MinerError::MissingUtxo("coinbase-1:0".to_string()))
    );
    assert_eq!(
        spend().fee_from_utxos(|_op: &OutPoint| Some(40)),
        Err(MinerError::InvalidSpend("spend".to_string()))
    );
    let two_inputs = Transaction::new(
        "big",
        vec![TxInput::new("a", 0), TxInput::new("b", 1)],
        vec![TxOutput::new(1, "r")],
    );
    assert_eq!(
        two_inputs.fee_from_utxos(|_op: &OutPoint| Some(u64::MAX)),
        Err(MinerError::InvalidSpend("big".to_string()))
    );
    let exact = Transaction::new("exact", vec![TxInput::new("a", 0)], vec![TxOutput::new(45, "r")]);
    assert_eq!(exact.fee_from_utxos(|_op: &OutPoint| Some(45)), Ok(0));
}

#[test]
fn fee_from_input_values_cases() {
    assert_eq!(spend().fee_from_input_values(&[Some(100)]), Ok(55));
    assert_eq!(
        spend().fee_from_input_values(&[None]),
        Err(MinerError::MissingUtxo("coinbase-1:0".to_string()))
    );
    let two_inputs = Transaction::new(
        "two",
        vec![TxInput::new("a", 0), TxInput::new("b", 7)],
        vec![TxOutput::new(10, "r")],
    );
    assert_eq!(two_inputs.fee_from_input_values(&[Some(4), Some(8)]), Ok(2));
    assert_eq!(
        two_inputs.fee_from_input_values(&[Some(4), None]),
        Err(MinerError::MissingUtxo("b:7".to_string()))
    );
    assert_eq!(
        two_inputs.fee_from_input_values(&[Some(u64::MAX), Some(1)]),
        Err(MinerError::InvalidSpend("two".to_string()))
    );
    assert_eq!(Transaction::coinbase("cb", "m", 1).fee_from_input_values(&[]), Ok(0));
}

#[test]
fn mining_hash_material_formats() {
    assert_eq!(spend().hash_material(), "tx:spend|inputs:coinbase-1:0;|outputs:30:bob;15:carol;");
    assert_eq!(
        spend().hash_hex(),
        "fbb5e9b60ac9d38a5ff7fb0f59b01a8183cce045eddcf972eebfd1f8a2dba14b"
    );
    let block = Block {
        header: BlockHeader {
            previous_block_hash: "p".to_string(),
            merkle_root: "m".to_string(),
            timestamp: 5,
            nonce: 6,
            difficulty_prefix: "00".to_string(),
        },
        height: 4,
        transactions: vec![spend(), Transaction::coinbase("cb", "m", 1)],
    };
    assert_eq!(block.hash_material(), "block:p|height:4|merkle:m|time:5|nonce:6|txs:spend;cb;");
}

#[test]
fn difficulty_prefix_rules() {
    assert_eq!(hash_meets_difficulty("00ab", "00"), Ok(true));
    assert_eq!(hash_meets_difficulty("00AB", "00ab"), Ok(true));
    assert_eq!(hash_meets_difficulty("ab12", "AB"), Ok(true));
    assert_eq!(hash_meets_difficulty("00ab", "0A"), Ok(false));
    assert_eq!(hash_meets_difficulty("0", "00"), Ok(false));
    assert_eq!(hash_meets_difficulty("anything", ""), Ok(true));
    assert_eq!(hash_meets_difficulty("00ab", "0g"), Err(MinerError::InvalidDifficulty));
    assert_eq!(hash_meets_difficulty("00ab", "é"), Err(MinerError::InvalidDifficulty));
    assert_eq!(hash_meets_difficulty("00ab", " 0"), Err(MinerError::InvalidDifficulty));
}

#[test]
fn candidate_merkle_material_and_hash() {
    assert_eq!(calculate_merkle_root(&[]), Err(MinerError::EmptyCandidate));
    assert_eq!(calculate_merkle_root(&candidate().transactions), Ok(COINBASE_HASH.to_string()));
    assert_eq!(
        candidate_hash_material(&candidate(), 5),
        Ok(format!("candidate:prev|height:1|merkle:{}|time:1000|nonce:5|txs:coinbase-1;", COINBASE_HASH))
    );
    assert_eq!(candidate_hash_material(&empty_candidate(), 5), Err(MinerError::EmptyCandidate));
    assert_eq!(hash_candidate(&candidate(), 0), Ok(HASH_AT_NONCE_0.to_string()));
    assert_eq!(hash_candidate(&empty_candidate(), 0), Err(MinerError::EmptyCandidate));
}

#[test]
fn split_nonce_ranges_cases() {
    assert_eq!(split_nonce_ranges(0, 9, 3), Ok(vec![(0, 3), (4, 6), (7, 9)]));
    assert_eq!(split_nonce_ranges(5, 6, 10), Ok(vec![(5, 5), (6, 6)]));
    assert_eq!(split_nonce_ranges(1, 1, 1), Ok(vec![(1, 1)]));
    assert_eq!(split_nonce_ranges(10, 21, 4), Ok(vec![(10, 12), (13, 15), (16, 18), (19, 21)]));
    assert_eq!(split_nonce_ranges(0, 9, 0), Err(MinerError::InvalidDifficulty));
    assert_eq!(split_nonce_ranges(5, 4, 2), Err(MinerError::InvalidDifficulty));
}

#[test]
fn mine_range_cases() {
    let found = mine_range(&candidate(), "0", 0, 100, 2).unwrap().unwrap();
    assert_eq!(
        found,
        MinedNonce { nonce: 33, hash: HASH_AT_NONCE_33.to_string(), attempts: 34, worker_id: 2 }
    );
    let upper = mine_range(&candidate(), "A", 0, 10, 0).unwrap().unwrap();
    assert_eq!((upper.nonce, upper.attempts), (3, 4));
    let later_start = mine_range(&candidate(), "a", 2, 10, 0).unwrap().unwrap();
    assert_eq!((later_start.nonce, later_start.attempts), (3, 2));
    assert_eq!(mine_range(&candidate(), "", 7, 9, 1).unwrap().unwrap().attempts, 1);
    assert_eq!(mine_range(&candidate(), "00", 0, 100, 0), Ok(None));
    assert_eq!(mine_range(&candidate(), "0g", 0, 100, 0), Err(MinerError::InvalidDifficulty));
    assert_eq!(mine_range(&candidate(), "0", 5, 4, 0), Err(MinerError::InvalidDifficulty));
    assert_eq!(mine_range(&empty_candidate(), "0", 0, 4, 0), Err(MinerError::EmptyCandidate));
}

#[test]
fn mine_single_threaded_cases() {
    let report = mine_single_threaded(&candidate(), &config("00", 0, 1000, 4)).unwrap();
    assert_eq!(report.nonce, 219);
    assert_eq!(report.hash, HASH_AT_NONCE_219);
    assert_eq!(report.attempts, 220);
    assert_eq!(report.worker_count, 1);
    assert_eq!(report.block.header.nonce, 219);
    assert_eq!(report.block.header.merkle_root, COINBASE_HASH);
    assert_eq!(report.block.header.difficulty_prefix, "00");
    assert_eq!(report.block.header.previous_block_hash, "prev");
    assert_eq!(report.block.header.timestamp, 1000);
    assert_eq!(report.block.height, 1);
    assert_eq!(report.block.transactions, candidate().transactions);
    assert_eq!(mine_single_threaded(&candidate(), &config("000", 0, 1000, 1)), Err(MinerError::NoSolution));
    assert_eq!(mine_single_threaded(&candidate(), &config("0", 9, 3, 1)), Err(MinerError::InvalidDifficulty));
    assert_eq!(mine_single_threaded(&empty_candidate(), &config("0", 0, 3, 1)), Err(MinerError::EmptyCandidate));
}

#[test]
fn progress_line_format() {
    let report = mine_single_threaded(&candidate(), &config("0", 0, 100, 1)).unwrap();
    assert_eq!(progress_line(&report), format!("workers:1|nonce:33|attempts:34|hash:{}", HASH_AT_NONCE_33));
}

#[test]
fn worker_steps_and_shared_report() {
    let hit = try_nonce(&candidate(), "0", 33, 7, 1).unwrap();
    assert_eq!(hit, MinedNonce { nonce: 33, hash: HASH_AT_NONCE_33.to_string(), attempts: 7, worker_id: 1 });
    assert_eq!(try_nonce(&candidate(), "0", 32, 6, 1), None);
    assert_eq!(try_nonce(&candidate(), "x", 33, 1, 1), None);
    assert_eq!(try_nonce(&empty_candidate(), "", 33, 1, 1), None);
    let cfg = config("0", 0, 100, 3);
    let report = report_first_found(&candidate(), &cfg, Some(hit)).unwrap();
    assert_eq!((report.nonce, report.attempts, report.worker_count), (33, 7, 3));
    assert_eq!(report.block.header.nonce, 33);
    assert_eq!(report_first_found(&candidate(), &cfg, None), Err(MinerError::NoSolution));
}

#[test]
fn build_candidate_block_cases() {
    let block = build_candidate_block(&candidate(), 77, "0a").unwrap();
    assert_eq!(block.header.nonce, 77);
    assert_eq!(block.header.difficulty_prefix, "0a");
    assert_eq!(block.header.merkle_root, COINBASE_HASH);
    assert_eq!(block.transactions, candidate().transactions);
    assert_eq!(build_candidate_block(&empty_candidate(), 1, "0"), Err(MinerError::EmptyCandidate));
}

#[test]
fn mempool_add_remove_and_order() {
    let mut pool = Mempool::new();
    assert_eq!(pool.add_transaction(simple_tx("b", 2)), Ok(()));
    assert_eq!(pool.add_transaction(simple_tx("a", 1)), Ok(()));
    assert_eq!(pool.add_transaction(simple_tx("c", 3)), Ok(()));
    assert_eq!(
        pool.add_transaction(simple_tx("a", 9)),
        Err(MinerError::DuplicateMempoolTransaction("a".to_string()))
    );
    let ids: Vec<String> = pool.ordered_transactions().into_iter().map(|t| t.txid).collect();
    assert_eq!(ids, vec!["a", "b", "c"]);
    assert_eq!(pool.ordered_transactions()[0].outputs[0].value_sats, 1);
    assert_eq!(pool.total_output_value(), 6);
    assert_eq!(pool.remove_transaction("b"), Ok(simple_tx("b", 2)));
    assert_eq!(pool.remove_transaction("b"), Err(MinerError::TransactionNotFound("b".to_string())));
    let ids: Vec<String> = pool.ordered_transactions().into_iter().map(|t| t.txid).collect();
    assert_eq!(ids, vec!["a", "c"]);
}

#[test]
fn mempool_orders_by_string_order() {
    let mut pool = Mempool::default();
    for txid in ["tx10", "tx2", "Tx9", "tx1", "", "é"] {
        pool.add_transaction(simple_tx(txid, 1)).unwrap();
    }
    let ids: Vec<String> = pool.ordered_transactions().into_iter().map(|t| t.txid).collect();
    let mut expected: Vec<String> = ["tx10", "tx2", "Tx9", "tx1", "", "é"].iter().map(|s| s.to_string()).collect();
    expected.sort();
    assert_eq!(ids, expected);
}

#[test]
fn mempool_drain_cases() {
    let mut pool = Mempool::new();
    for txid in ["d", "b", "a", "c"] {
        pool.add_transaction(simple_tx(txid, 1)).unwrap();
    }
    assert!(pool.drain_for_candidate(0).is_empty());
    let first: Vec<String> = pool.drain_for_candidate(2).into_iter().map(|t| t.txid).collect();
    assert_eq!(first, vec!["a", "b"]);
    let rest: Vec<String> = pool.drain_for_candidate(10).into_iter().map(|t| t.txid).collect();
    assert_eq!(rest, vec!["c", "d"]);
    assert!(pool.ordered_transactions().is_empty());
    assert_eq!(pool.total_output_value(), 0);
}

#[test]
fn candidate_from_mempool() {
    let mut pool = Mempool::new();
    for txid in ["b", "a", "c"] {
        pool.add_transaction(simple_tx(txid, 1)).unwrap();
    }
    let candidate = build_candidate_from_mempool(&mut pool, "prevhash", 7, "miner", 625, 99, 2);
    let ids: Vec<String> = candidate.transactions.iter().map(|t| t.txid.clone()).collect();
    assert_eq!(ids, vec!["coinbase-7", "a", "b"]);
    assert_eq!(candidate.transactions[0], Transaction::coinbase("coinbase-7", "miner", 625));
    assert_eq!(candidate.previous_block_hash, "prevhash");
    assert_eq!(candidate.height, 7);
    assert_eq!(candidate.coinbase_recipient, "miner");
    assert_eq!(candidate.reward_sats, 625);
    assert_eq!(candidate.timestamp, 99);
    let left: Vec<String> = pool.ordered_transactions().into_iter().map(|t| t.txid).collect();
    assert_eq!(left, vec!["c"]);
    let none_taken = build_candidate_from_mempool(&mut pool, "p", 0, "m", 1, 0, 0);
    assert_eq!(none_taken.transactions.len(), 1);
    assert_eq!(none_taken.transactions[0].txid, "coinbase-0");
}

#[test]
fn split_ranges_partition_the_whole_range() {
    for (start, max) in [(0u64, 0u64), (0, 9), (3, 17), (100, 199), (7, 7 + 63)] {
        for workers in 1usize..12 {
            let ranges = split_nonce_ranges(start, max, workers).unwrap();
            assert!(!ranges.is_empty() && ranges.len() <= workers);
            assert_eq!(ranges[0].0, start);
            assert_eq!(ranges[ranges.len() - 1].1, max);
            for pair in ranges.windows(2) {
                assert_eq!(pair[1].0, pair[0].1 + 1);
            }
            let sizes: Vec<u64> = ranges.iter().map(|(a, b)| b - a + 1).collect();
            assert!(sizes.iter().all(|s| *s >= 1));
            assert!(sizes.windows(2).all(|w| w[0] >= w[1] && w[0] <= w[1] + 1));
        }
    }
}

#[test]
fn searching_the_split_ranges_finds_what_the_whole_search_finds() {
    let whole = mine_range(&candidate(), "0", 0, 99, 0).unwrap();
    let ranges = split_nonce_ranges(0, 99, 4).unwrap();
    let found: Vec<u64> = ranges
        .iter()
        .enumerate()
        .filter_map(|(id, (a, b))| mine_range(&candidate(), "0", *a, *b, id).unwrap())
        .map(|m| m.nonce)
        .collect();
    assert_eq!(found.iter().min().copied(), whole.map(|m| m.nonce));
    let none_whole = mine_range(&candidate(), "00", 0, 99, 0).unwrap();
    assert!(none_whole.is_none());
    for (id, (a, b)) in split_nonce_ranges(0, 99, 4).unwrap().into_iter().enumerate() {
        assert!(mine_range(&candidate(), "00", a, b, id).unwrap().is_none());
    }
}

#[test]
fn mempool_add_then_remove_restores_the_pool() {
    let mut pool = Mempool::new();
    for txid in ["b", "d"] {
        pool.add_transaction(simple_tx(txid, 1)).unwrap();
    }
    let before = pool.ordered_transactions();
    pool.add_transaction(simple_tx("c", 5)).unwrap();
    assert_eq!(pool.remove_transaction("c"), Ok(simple_tx("c", 5)));
    assert_eq!(pool.ordered_transactions(), before);
}

#[test]
fn mempool_clone_and_equality() {
    let mut pool = Mempool::new();
    pool.add_transaction(simple_tx("x", 4)).unwrap();
    let copy = pool.clone();
    assert_eq!(copy, pool);
    pool.remove_transaction("x").unwrap();
    assert_ne!(copy, pool);
    assert_eq!(pool, Mempool::default());
    assert_eq!(copy.total_output_value(), 4);
}

#[test]
fn split_nonce_ranges_up_to_the_last_nonce() {
    assert_eq!(
        split_nonce_ranges(1, u64::MAX, 2),
        Ok(vec![(1, 1 << 63), ((1 << 63) + 1, u64::MAX)])
    );
    assert_eq!(split_nonce_ranges(0, u64::MAX, 2), Ok(vec![(0, (1 << 63) - 1), (1 << 63, u64::MAX)]));
    assert_eq!(split_nonce_ranges(u64::MAX, u64::MAX, 3), Ok(vec![(u64::MAX, u64::MAX)]));
}

#[test]
fn mining_the_whole_nonce_space_stops_at_the_first_solution() {
    let found = mine_range(&candidate(), "0", 0, u64::MAX, 0).unwrap().unwrap();
    assert_eq!((found.nonce, found.attempts), (33, 34));
    assert_eq!(mine_range(&empty_candidate(), "0", 0, u64::MAX, 0), Err(MinerError::EmptyCandidate));
    assert_eq!(mine_range(&candidate(), "0g", 0, u64::MAX, 0), Err(MinerError::InvalidDifficulty));
    let report = mine_single_threaded(&candidate(), &config("00", 0, u64::MAX, 1)).unwrap();
    assert_eq!(report.nonce, 219);
}

#[test]
fn fee_of_coinbase_with_huge_outputs_is_zero() {
    let coinbase = Transaction::new(
        "cb",
        vec![],
        vec![TxOutput::new(u64::MAX, "a"), TxOutput::new(u64::MAX, "b")],
    );
    assert_eq!(coinbase.fee_from_utxos(|_op: &OutPoint| Some(1)), Ok(0));
    let mut calls = 0;
    let missing = spend().fee_from_utxos(|_op: &OutPoint| {
        calls += 1;
        None
    });
    assert_eq!(missing, Err(MinerError::MissingUtxo("coinbase-1:0".to_string())));
    assert_eq!(calls, 1);
}

#[test]
fn worker_steps_through_its_range() {
    let mut progress = worker_start(30);
    assert_eq!(progress, WorkerProgress { nonce: 30, attempts: 0 });
    loop {
        match worker_step(&candidate(), "0", 30, 40, 5, progress, false) {
            WorkerAction::Continue(next) => progress = next,
            WorkerAction::Found(mined) => {
                assert_eq!(mined, MinedNonce { nonce: 33, hash: HASH_AT_NONCE_33.to_string(), attempts: 4, worker_id: 5 });
                break;
            }
            WorkerAction::Stop => panic!("no stop expected before nonce 33"),
        }
    }
    assert_eq!(worker_step(&candidate(), "0", 30, 40, 5, worker_start(30), true), WorkerAction::Stop);
    assert_eq!(
        worker_step(&candidate(), "0", 30, 32, 5, WorkerProgress { nonce: 32, attempts: 2 }, false),
        WorkerAction::Stop
    );
}

#[test]
fn checked_searches_match_the_plain_ones() {
    assert_eq!(mine_range_checked(&candidate(), "0", 0, 100, 2), Some(mine_range(&candidate(), "0", 0, 100, 2)));
    assert_eq!(
        mine_range_checked(&candidate(), "0", 0, u64::MAX, 2),
        Some(mine_range(&candidate(), "0", 0, u64::MAX, 2))
    );
    assert_eq!(mine_range_checked(&empty_candidate(), "0", 0, u64::MAX, 0), Some(Err(MinerError::EmptyCandidate)));
    assert_eq!(
        mine_single_threaded_checked(&candidate(), &config("00", 0, u64::MAX, 1)),
        Some(mine_single_threaded(&candidate(), &config("00", 0, u64::MAX, 1)))
    );
    assert_eq!(
        mine_single_threaded_checked(&candidate(), &config("000", 0, 1000, 1)),
        Some(Err(MinerError::NoSolution))
    );
}

#[test]
fn run_worker_finds_first_solution_or_stops_when_cancelled() {
    let found = run_worker(&candidate(), "0", 30, 40, 5, || false).unwrap();
    assert_eq!(found, MinedNonce { nonce: 33, hash: HASH_AT_NONCE_33.to_string(), attempts: 4, worker_id: 5 });
    assert_eq!(run_worker(&candidate(), "0", 30, 32, 5, || false), None);
    assert_eq!(run_worker(&candidate(), "0", 0, 100, 5, || true), None);
    assert_eq!(run_worker(&candidate(), "0g", 0, 100, 5, || false), None);
    assert_eq!(run_worker(&candidate(), "0", 5, 4, 0, || false), None);
    assert_eq!(run_worker_checked(&candidate(), "0", 0, u64::MAX, 1, || false).unwrap().unwrap().nonce, 33);
    assert_eq!(run_worker_checked(&empty_candidate(), "0", 0, u64::MAX, 1, || false), None);
}

#[test]
fn one_worker_gives_the_single_threaded_report() {
    let cfg = config("00", 0, 1000, 1);
    let ranges = split_nonce_ranges(cfg.start_nonce, cfg.max_nonce, cfg.worker_count).unwrap();
    assert_eq!(ranges, vec![(0, 1000)]);
    let found = run_worker(&candidate(), "00", ranges[0].0, ranges[0].1, 0, || false);
    let shared = report_first_found(&candidate(), &cfg, found);
    assert_eq!(shared, mine_single_threaded(&candidate(), &cfg));
}

#[test]
fn difficulty_ignores_hash_case_and_shorter_prefixes_hold() {
    let hash = "00aBcd";
    for prefix in ["00ab", "00AB", "0g", "", "00ac"] {
        assert_eq!(
            hash_meets_difficulty(hash, prefix),
            hash_meets_difficulty(&hash.to_ascii_uppercase(), &prefix.to_ascii_lowercase())
        );
    }
    assert_eq!(hash_meets_difficulty(hash, &format!("{}{}", "00", "ab")), Ok(true));
    assert_eq!(hash_meets_difficulty(hash, "00"), Ok(true));
    assert_eq!(hash_meets_difficulty(hash, "0"), Ok(true));
}
