//! Mining: building candidates from the mempool, splitting nonce ranges across
//! workers, searching a range for a nonce that meets the difficulty, and
//! assembling the mined block and its report.

use vstd::prelude::*;
use crate::mining::error::MinerError;
use crate::mining::mempool::{Mempool, sorted_by_txid};
use crate::mining::pow::{
    calculate_merkle_root, candidate_hash, hash_candidate, hash_meets_difficulty,
    is_hex_char, starts_with_ignoring_ascii_case, tx_merkle_root,
};
use crate::mining::types::{
    Block, BlockHeader, CandidateBlock, Transaction, copy_transactions, tx_views,
};
use crate::text::{decimal, push_decimal};

verus! {

/// The difficulty prefix and inclusive nonce range to search, and how many
/// workers share the search.
#[derive(Clone, Debug, PartialEq, Eq)]
pub struct MiningConfig {
    pub difficulty_prefix: String,
    pub start_nonce: u64,
    pub max_nonce: u64,
    pub worker_count: usize,
}

/// A nonce that meets the difficulty, with its hash, the number of nonces the
/// worker tried up to and including it, and the worker that found it.
#[derive(Clone, Debug, PartialEq, Eq)]
pub struct MinedNonce {
    pub nonce: u64,
    pub hash: String,
    pub attempts: u64,
    pub worker_id: usize,
}

/// The mined block and how it was found.
#[derive(Clone, Debug, PartialEq, Eq)]
pub struct MiningReport {
    pub block: Block,
    pub nonce: u64,
    pub hash: String,
    pub attempts: u64,
    pub worker_count: usize,
}

/// The prefix holds a character other than an ASCII hex digit.
pub open spec fn prefix_is_invalid(prefix: Seq<char>) -> bool {
    exists|i: int| 0 <= i < prefix.len() && !is_hex_char(#[trigger] prefix[i])
}

/// The candidate's hash at `nonce` meets the difficulty prefix.
pub open spec fn nonce_solves(candidate: CandidateBlock, prefix: Seq<char>, nonce: u64) -> bool {
    starts_with_ignoring_ascii_case(candidate_hash(candidate, nonce), prefix)
}

/// `nonce` is the first nonce from `start` on that solves the candidate.
pub open spec fn first_solution_from(candidate: CandidateBlock, prefix: Seq<char>, start: u64, nonce: u64) -> bool {
    &&& start <= nonce
    &&& nonce_solves(candidate, prefix, nonce)
    &&& forall|n: u64| start <= n < nonce ==> !#[trigger] nonce_solves(candidate, prefix, n)
}

/// No nonce in `start..=end` solves the candidate.
pub open spec fn no_solution_in(candidate: CandidateBlock, prefix: Seq<char>, start: u64, end: u64) -> bool {
    forall|n: u64| start <= n <= end ==> !#[trigger] nonce_solves(candidate, prefix, n)
}

/// A search of every nonce from 0 to `u64::MAX` that meets no solution before
/// `u64::MAX`: its attempt counter would pass `u64::MAX` on the last nonce.
pub open spec fn search_overflows_attempts(candidate: CandidateBlock, prefix: Seq<char>, start: u64, end: u64) -> bool {
    &&& start == 0
    &&& end == u64::MAX
    &&& candidate.transactions.len() > 0
    &&& !prefix_is_invalid(prefix)
    &&& no_solution_in(candidate, prefix, 0, (u64::MAX - 1) as u64)
}

/// `block` is the candidate finished with `nonce` and `prefix`.
pub open spec fn block_from_candidate(candidate: CandidateBlock, nonce: u64, prefix: Seq<char>, block: Block) -> bool {
    &&& block.header.previous_block_hash@ == candidate.previous_block_hash@
    &&& block.header.merkle_root@ == tx_merkle_root(candidate.transactions@)
    &&& block.header.timestamp == candidate.timestamp
    &&& block.header.nonce == nonce
    &&& block.header.difficulty_prefix@ == prefix
    &&& block.height == candidate.height
    &&& tx_views(block.transactions@) == tx_views(candidate.transactions@)
}

/// `mined` reports `nonce` of the candidate, found by `worker_id` after trying
/// every nonce from `start` on.
pub open spec fn reports_nonce(
    candidate: CandidateBlock,
    start: u64,
    worker_id: usize,
    nonce: u64,
    mined: MinedNonce,
) -> bool {
    &&& mined.nonce == nonce
    &&& mined.hash@ == candidate_hash(candidate, nonce)
    &&& mined.attempts == nonce - start + 1
    &&& mined.worker_id == worker_id
}

/// Start of range `i` when `total` nonces from `start` are split into `workers`
/// ranges, the first `total % workers` of them one nonce longer.
pub open spec fn range_start(start: u64, total: nat, workers: nat, i: nat) -> int {
    start + i * (total / workers) + if i < total % workers { i } else { total % workers }
}

/// Number of workers that get a range: no more than there are nonces.
pub open spec fn effective_workers(start: u64, max: u64, worker_count: usize) -> nat {
    let total = (max - start + 1) as nat;
    if worker_count < total { worker_count as nat } else { total }
}

/// `ranges` splits `start..=max` as evenly as possible across the workers.
pub open spec fn nonce_ranges(start: u64, max: u64, worker_count: usize, ranges: Seq<(u64, u64)>) -> bool {
    let total = (max - start + 1) as nat;
    let w = effective_workers(start, max, worker_count);
    &&& ranges.len() == w
    &&& forall|i: int| 0 <= i < w ==> (#[trigger] ranges[i]).0 == range_start(start, total, w, i as nat)
        && ranges[i].1 == range_start(start, total, w, (i + 1) as nat) - 1
}

/// Size of range `i` of a split.
pub open spec fn range_size(ranges: Seq<(u64, u64)>, i: int) -> int {
    ranges[i].1 - ranges[i].0 + 1
}

/// One step of a split adds the base size, plus one for the first
/// `total % workers` ranges.
proof fn lemma_range_start_step(start: u64, total: nat, workers: nat, i: nat)
    requires
        workers > 0,
    ensures
        range_start(start, total, workers, i + 1) == range_start(start, total, workers, i) + total / workers
            + if i < total % workers { 1int } else { 0int },
{
    let b = total / workers;
    assert((i + 1) * b == i * b + b) by (nonlinear_arith);
}

/// A split of `start..=max` covers it exactly, in order and without gaps or
/// overlaps: the first range starts at `start`, each next range starts right
/// after the previous one ends, and the last ends at `max`. There are no more
/// ranges than workers, none is empty, and range sizes never grow and differ by
/// at most one.
pub proof fn lemma_nonce_ranges_partition(start: u64, max: u64, worker_count: usize, ranges: Seq<(u64, u64)>)
    requires
        start <= max,
        worker_count > 0,
        nonce_ranges(start, max, worker_count, ranges),
    ensures
        0 < ranges.len() <= worker_count,
        ranges[0].0 == start,
        ranges[ranges.len() - 1].1 == max,
        forall|i: int| 0 <= i < ranges.len() - 1 ==> (#[trigger] ranges[i + 1]).0 == ranges[i].1 + 1,
        forall|i: int| 0 <= i < ranges.len() ==> (#[trigger] ranges[i]).0 <= ranges[i].1,
        forall|i: int, j: int| 0 <= i < j < ranges.len() ==> range_size(ranges, j) <= #[trigger] range_size(ranges, i)
            <= #[trigger] range_size(ranges, j) + 1,
{
    let t = (max - start + 1) as nat;
    let w = effective_workers(start, max, worker_count);
    let base = t / w;
    let rem = t % w;
    assert(w * base + rem == t) by (nonlinear_arith)
        requires
            w > 0,
            base == t / w,
            rem == t % w,
    ;
    assert(base >= 1) by (nonlinear_arith)
        requires
            w > 0,
            w <= t,
            base == t / w,
    ;
    assert(0 * base == 0) by (nonlinear_arith);
    assert(ranges[0].0 == start);
    assert(range_start(start, t, w, w) == start + t) by {
        assert(w * base + rem == t);
    }
    assert forall|i: int| 0 <= i < ranges.len() implies range_size(ranges, i) == base + if i < rem { 1int } else { 0int } by {
        lemma_range_start_step(start, t, w, i as nat);
    }
    assert forall|i: int| 0 <= i < ranges.len() implies (#[trigger] ranges[i]).0 <= ranges[i].1 by {
        assert(range_size(ranges, i) >= 1);
    }
}

/// Every nonce of `start..=ranges[k - 1].1` lies in one of the first `k`
/// ranges of a split.
proof fn lemma_split_covers_nonce(start: u64, ranges: Seq<(u64, u64)>, k: int, n: u64)
    requires
        1 <= k <= ranges.len(),
        ranges[0].0 == start,
        forall|i: int| 0 <= i < ranges.len() - 1 ==> (#[trigger] ranges[i + 1]).0 == ranges[i].1 + 1,
        start <= n <= ranges[k - 1].1,
    ensures
        exists|i: int| 0 <= i < k && (#[trigger] ranges[i]).0 <= n <= ranges[i].1,
    decreases k,
{
    if n >= ranges[k - 1].0 {
        assert(ranges[k - 1].0 <= n <= ranges[k - 1].1);
    } else {
        let i = k - 2;
        assert(ranges[i + 1].0 == ranges[i].1 + 1);
        lemma_split_covers_nonce(start, ranges, k - 1, n);
    }
}

/// Searching the ranges of a split finds no solution exactly when searching
/// the whole range finds none, so workers that each search one range together
/// search the whole range.
pub proof fn lemma_split_search_covers_range(
    candidate: CandidateBlock,
    prefix: Seq<char>,
    start: u64,
    max: u64,
    worker_count: usize,
    ranges: Seq<(u64, u64)>,
)
    requires
        start <= max,
        worker_count > 0,
        nonce_ranges(start, max, worker_count, ranges),
    ensures
        no_solution_in(candidate, prefix, start, max) <==> forall|i: int|
            0 <= i < ranges.len() ==> no_solution_in(candidate, prefix, (#[trigger] ranges[i]).0, ranges[i].1),
{
    lemma_nonce_ranges_partition(start, max, worker_count, ranges);
    let t = (max - start + 1) as nat;
    let w = effective_workers(start, max, worker_count);
    let base = t / w;
    let rem = t % w;
    assert(w * base + rem == t) by (nonlinear_arith)
        requires
            w > 0,
            base == t / w,
            rem == t % w,
    ;
    assert forall|i: int| 0 <= i < ranges.len() implies start <= (#[trigger] ranges[i]).0 && ranges[i].1 <= max by {
        let j = i as nat;
        assert(0 <= j * base) by (nonlinear_arith);
        assert((j + 1) * base <= w * base) by (nonlinear_arith)
            requires
                j + 1 <= w,
        ;
    }
    if no_solution_in(candidate, prefix, start, max) {
        assert forall|i: int| 0 <= i < ranges.len() implies no_solution_in(
            candidate,
            prefix,
            (#[trigger] ranges[i]).0,
            ranges[i].1,
        ) by {
            assert(start <= ranges[i].0 && ranges[i].1 <= max);
        }
    }
    if forall|i: int| 0 <= i < ranges.len() ==> no_solution_in(candidate, prefix, (#[trigger] ranges[i]).0, ranges[i].1) {
        assert forall|n: u64| start <= n <= max implies !#[trigger] nonce_solves(candidate, prefix, n) by {
            lemma_split_covers_nonce(start, ranges, ranges.len() as int, n);
            let i = choose|i: int| 0 <= i < ranges.len() && (#[trigger] ranges[i]).0 <= n <= ranges[i].1;
            assert(no_solution_in(candidate, prefix, ranges[i].0, ranges[i].1));
        }
    }
}

/// What splitting `start..=max` across `worker_count` workers gives.
pub open spec fn split_outcome(start: u64, max: u64, worker_count: usize, r: Result<Vec<(u64, u64)>, MinerError>) -> bool {
    if worker_count == 0 || start > max {
        r == Err::<Vec<(u64, u64)>, MinerError>(MinerError::InvalidDifficulty)
    } else {
        r matches Ok(ranges) && nonce_ranges(start, max, worker_count, ranges@)
    }
}

/// What searching `start..=end` of the candidate gives: a start past the end,
/// a candidate without transactions and an invalid prefix are errors, checked
/// in that order; otherwise the first solving nonce, or none.
pub open spec fn mine_range_outcome(
    candidate: CandidateBlock,
    prefix: Seq<char>,
    start: u64,
    end: u64,
    worker_id: usize,
    r: Result<Option<MinedNonce>, MinerError>,
) -> bool {
    if start > end {
        r == Err::<Option<MinedNonce>, MinerError>(MinerError::InvalidDifficulty)
    } else if candidate.transactions.len() == 0 {
        r == Err::<Option<MinedNonce>, MinerError>(MinerError::EmptyCandidate)
    } else if prefix_is_invalid(prefix) {
        r == Err::<Option<MinedNonce>, MinerError>(MinerError::InvalidDifficulty)
    } else {
        r matches Ok(found) && match found {
            Some(mined) => mined.nonce <= end && first_solution_from(candidate, prefix, start, mined.nonce)
                && reports_nonce(candidate, start, worker_id, mined.nonce, mined),
            None => no_solution_in(candidate, prefix, start, end),
        }
    }
}

/// What mining the configured range with one worker gives: the errors of a
/// range search, `NoSolution` when no nonce solves, and otherwise the report of
/// the first solving nonce.
pub open spec fn single_threaded_outcome(candidate: CandidateBlock, config: MiningConfig, r: Result<MiningReport, MinerError>) -> bool {
    let prefix = config.difficulty_prefix@;
    let start = config.start_nonce;
    let max = config.max_nonce;
    if start > max {
        r == Err::<MiningReport, MinerError>(MinerError::InvalidDifficulty)
    } else if candidate.transactions.len() == 0 {
        r == Err::<MiningReport, MinerError>(MinerError::EmptyCandidate)
    } else if prefix_is_invalid(prefix) {
        r == Err::<MiningReport, MinerError>(MinerError::InvalidDifficulty)
    } else if no_solution_in(candidate, prefix, start, max) {
        r == Err::<MiningReport, MinerError>(MinerError::NoSolution)
    } else {
        r matches Ok(report) && report.nonce <= max && first_solution_from(candidate, prefix, start, report.nonce)
            && report.hash@ == candidate_hash(candidate, report.nonce) && report.attempts == report.nonce - start + 1
            && report.worker_count == 1 && block_from_candidate(candidate, report.nonce, prefix, report.block)
    }
}

/// What finishing a shared search gives from the first nonce reported.
pub open spec fn first_found_outcome(
    candidate: CandidateBlock,
    config: MiningConfig,
    first: Option<MinedNonce>,
    r: Result<MiningReport, MinerError>,
) -> bool {
    match first {
        None => r == Err::<MiningReport, MinerError>(MinerError::NoSolution),
        Some(mined) => if candidate.transactions.len() == 0 {
            r == Err::<MiningReport, MinerError>(MinerError::EmptyCandidate)
        } else {
            r matches Ok(report) && report.nonce == mined.nonce && report.hash == mined.hash
                && report.attempts == mined.attempts && report.worker_count == config.worker_count
                && block_from_candidate(candidate, mined.nonce, config.difficulty_prefix@, report.block)
        },
    }
}

/// What a worker searching `start..=end` reports: the first solving nonce of
/// its range, or nothing when none solves, when the candidate or prefix cannot
/// be checked, or when the search may have been cancelled.
pub open spec fn worker_outcome(
    candidate: CandidateBlock,
    prefix: Seq<char>,
    start: u64,
    end: u64,
    worker_id: usize,
    may_be_cancelled: bool,
    r: Option<MinedNonce>,
) -> bool {
    match r {
        Some(mined) => {
            &&& start <= mined.nonce <= end
            &&& candidate.transactions.len() > 0
            &&& !prefix_is_invalid(prefix)
            &&& first_solution_from(candidate, prefix, start, mined.nonce)
            &&& reports_nonce(candidate, start, worker_id, mined.nonce, mined)
        },
        None => may_be_cancelled || candidate.transactions.len() == 0 || prefix_is_invalid(prefix)
            || no_solution_in(candidate, prefix, start, end),
    }
}

/// A worker searching every nonce from 0 to `u64::MAX` that finds nothing
/// below `u64::MAX`: its attempt counter would pass `u64::MAX` on the last
/// nonce.
pub open spec fn worker_may_overflow(candidate: CandidateBlock, prefix: Seq<char>, start: u64, end: u64) -> bool {
    &&& start == 0
    &&& end == u64::MAX
    &&& !(candidate.transactions.len() > 0 && !prefix_is_invalid(prefix)
        && !no_solution_in(candidate, prefix, 0, (u64::MAX - 1) as u64))
}

/// Two reports that agree on every field, blocks taken by their views.
pub open spec fn same_report(a: MiningReport, b: MiningReport) -> bool {
    &&& a.nonce == b.nonce
    &&& a.hash@ == b.hash@
    &&& a.attempts == b.attempts
    &&& a.worker_count == b.worker_count
    &&& a.block.height == b.block.height
    &&& a.block.header.previous_block_hash@ == b.block.header.previous_block_hash@
    &&& a.block.header.merkle_root@ == b.block.header.merkle_root@
    &&& a.block.header.timestamp == b.block.header.timestamp
    &&& a.block.header.nonce == b.block.header.nonce
    &&& a.block.header.difficulty_prefix@ == b.block.header.difficulty_prefix@
    &&& tx_views(a.block.transactions@) == tx_views(b.block.transactions@)
}

/// Two mining results that agree: the same error, or reports that agree.
pub open spec fn same_mining_result(a: Result<MiningReport, MinerError>, b: Result<MiningReport, MinerError>) -> bool {
    match (a, b) {
        (Ok(x), Ok(y)) => same_report(x, y),
        (Err(e), Err(f)) => e@ == f@,
        _ => false,
    }
}

/// A search shared by workers, run with one worker: the split of the range,
/// then (when it succeeds) the worker's search of its single range without
/// cancellation, and the report finished from what it found.
pub open spec fn one_worker_run(
    candidate: CandidateBlock,
    config: MiningConfig,
    split: Result<Vec<(u64, u64)>, MinerError>,
    found: Option<MinedNonce>,
    r: Result<MiningReport, MinerError>,
) -> bool {
    match split {
        Err(e) => r == Err::<MiningReport, MinerError>(e),
        Ok(ranges) => {
            &&& ranges.len() == 1
            &&& worker_outcome(candidate, config.difficulty_prefix@, ranges@[0].0, ranges@[0].1, 0, false, found)
            &&& first_found_outcome(candidate, config, found, r)
        },
    }
}

/// Mining with several workers, when there is one worker and nothing cancels
/// it, gives what single-threaded mining gives.
pub proof fn lemma_one_worker_matches_single_threaded(
    candidate: CandidateBlock,
    config: MiningConfig,
    split: Result<Vec<(u64, u64)>, MinerError>,
    found: Option<MinedNonce>,
    shared: Result<MiningReport, MinerError>,
    single: Result<MiningReport, MinerError>,
)
    requires
        config.worker_count == 1,
        candidate.transactions.len() > 0,
        !prefix_is_invalid(config.difficulty_prefix@),
        split_outcome(config.start_nonce, config.max_nonce, config.worker_count, split),
        one_worker_run(candidate, config, split, found, shared),
        single_threaded_outcome(candidate, config, single),
    ensures
        same_mining_result(shared, single),
{
    let prefix = config.difficulty_prefix@;
    let start = config.start_nonce;
    let max = config.max_nonce;
    if start <= max {
        let ranges = split->Ok_0@;
        let t = (max - start + 1) as nat;
        assert(effective_workers(start, max, config.worker_count) == 1);
        assert(t / 1 == t && t % 1 == 0);
        assert(1 * t == t);
        assert(0 * t == 0);
        assert(ranges[0].0 == range_start(start, t, 1, 0));
        assert(ranges[0].0 == start);
        assert(ranges[0].1 == max);
        match found {
            None => {
                assert(no_solution_in(candidate, prefix, start, max));
            },
            Some(mined) => {
                assert(!no_solution_in(candidate, prefix, start, max)) by {
                    assert(nonce_solves(candidate, prefix, mined.nonce));
                }
                let report = single->Ok_0;
                if report.nonce < mined.nonce {
                    assert(!nonce_solves(candidate, prefix, report.nonce));
                } else if mined.nonce < report.nonce {
                    assert(!nonce_solves(candidate, prefix, mined.nonce));
                }
                assert(report.nonce == mined.nonce);
            },
        }
    }
}

/// Search `start_nonce..=end_nonce` as `mine_range` does, after first testing
/// whether that search would count past `u64::MAX` attempts: for the whole
/// nonce space it first searches below `u64::MAX`, and gives `None` when that
/// finds nothing, since the full search would then overflow its counter.
pub fn mine_range_checked(
    candidate: &CandidateBlock,
    difficulty_prefix: &str,
    start_nonce: u64,
    end_nonce: u64,
    worker_id: usize,
) -> (r: Option<Result<Option<MinedNonce>, MinerError>>)
    ensures
        r is None <==> search_overflows_attempts(*candidate, difficulty_prefix@, start_nonce, end_nonce),
        r matches Some(searched) ==> mine_range_outcome(
            *candidate,
            difficulty_prefix@,
            start_nonce,
            end_nonce,
            worker_id,
            searched,
        ),
{
    if start_nonce == 0 && end_nonce == u64::MAX {
        let below = mine_range(candidate, difficulty_prefix, 0, u64::MAX - 1, worker_id);
        if let Ok(None) = below {
            return None;
        }
    }
    Some(mine_range(candidate, difficulty_prefix, start_nonce, end_nonce, worker_id))
}

/// Mine as `mine_single_threaded` does, after first testing whether the search
/// would count past `u64::MAX` attempts; `None` in that case.
pub fn mine_single_threaded_checked(candidate: &CandidateBlock, config: &MiningConfig) -> (r: Option<
    Result<MiningReport, MinerError>,
>)
    ensures
        r is None <==> search_overflows_attempts(
            *candidate,
            config.difficulty_prefix@,
            config.start_nonce,
            config.max_nonce,
        ),
        r matches Some(mined) ==> single_threaded_outcome(*candidate, *config, mined),
{
    if config.start_nonce == 0 && config.max_nonce == u64::MAX {
        let below = mine_range(candidate, config.difficulty_prefix.as_str(), 0, u64::MAX - 1, 0);
        if let Ok(None) = below {
            return None;
        }
    }
    Some(mine_single_threaded(candidate, config))
}

/// Build a candidate from a mempool: a coinbase transaction `coinbase-<height>`
/// paying the reward, then up to `max_mempool_txs` transactions drained from
/// the mempool in txid order.
pub fn build_candidate_from_mempool(
    mempool: &mut Mempool,
    previous_block_hash: &str,
    height: u64,
    coinbase_recipient: &str,
    reward_sats: u64,
    timestamp: u64,
    max_mempool_txs: usize,
) -> (r: CandidateBlock)
    ensures
        ({
            let k = if max_mempool_txs < old(mempool)@.len() { max_mempool_txs as int } else { old(mempool)@.len() as int };
            &&& final(mempool)@ == old(mempool)@.skip(k)
            &&& r.transactions.len() == k + 1
            &&& tx_views(r.transactions@.skip(1)) == old(mempool)@.take(k)
        }),
        sorted_by_txid(old(mempool)@),
        sorted_by_txid(final(mempool)@),
        r.transactions@[0].txid@ == "coinbase-"@ + decimal(height as nat),
        r.transactions@[0].inputs.len() == 0,
        r.transactions@[0].outputs.len() == 1,
        r.transactions@[0].outputs@[0].value_sats == reward_sats,
        r.transactions@[0].outputs@[0].recipient@ == coinbase_recipient@,
        r.previous_block_hash@ == previous_block_hash@,
        r.height == height,
        r.coinbase_recipient@ == coinbase_recipient@,
        r.reward_sats == reward_sats,
        r.timestamp == timestamp,
{
    let mut txid = String::from_str("coinbase-");
    push_decimal(&mut txid, height);
    let coinbase_transaction = Transaction::coinbase(txid.as_str(), coinbase_recipient, reward_sats);
    let mut transactions: Vec<Transaction> = Vec::new();
    transactions.push(coinbase_transaction);
    let mut drained = mempool.drain_for_candidate(max_mempool_txs);
    let ghost taken = drained@;
    transactions.append(&mut drained);
    assert(transactions@.skip(1) =~= taken);
    assert(tx_views(taken).len() == taken.len());
    CandidateBlock {
        previous_block_hash: String::from_str(previous_block_hash),
        height,
        transactions,
        coinbase_recipient: String::from_str(coinbase_recipient),
        reward_sats,
        timestamp,
    }
}

/// Build a concrete block from a candidate and nonce; a candidate without
/// transactions is rejected with `EmptyCandidate`.
pub fn build_candidate_block(candidate: &CandidateBlock, nonce: u64, difficulty_prefix: &str) -> (r: Result<Block, MinerError>)
    ensures
        candidate.transactions.len() == 0 ==> r == Err::<Block, MinerError>(MinerError::EmptyCandidate),
        candidate.transactions.len() > 0 ==> (r matches Ok(block)
            && block_from_candidate(*candidate, nonce, difficulty_prefix@, block)),
{
    if candidate.transactions.len() == 0 {
        return Err(MinerError::EmptyCandidate);
    }
    let merkle_root = match calculate_merkle_root(candidate.transactions.as_slice()) {
        Ok(root) => root,
        Err(e) => return Err(e),
    };
    let header = BlockHeader {
        previous_block_hash: candidate.previous_block_hash.clone(),
        merkle_root,
        timestamp: candidate.timestamp,
        nonce,
        difficulty_prefix: String::from_str(difficulty_prefix),
    };
    Ok(Block { header, height: candidate.height, transactions: copy_transactions(&candidate.transactions) })
}

/// Split the inclusive nonce range `start_nonce..=max_nonce` across workers as
/// evenly as possible, earlier workers taking one extra nonce when the range
/// does not divide evenly, and never handing out an empty range. No workers, or
/// a start past the end, is rejected with `InvalidDifficulty`.
pub fn split_nonce_ranges(start_nonce: u64, max_nonce: u64, worker_count: usize) -> (r: Result<Vec<(u64, u64)>, MinerError>)
    ensures
        split_outcome(start_nonce, max_nonce, worker_count, r),
{
    if worker_count == 0 || start_nonce > max_nonce {
        return Err(MinerError::InvalidDifficulty);
    }
    // The range may hold 2^64 nonces, so the arithmetic is done in u128.
    let total: u128 = max_nonce as u128 - start_nonce as u128 + 1;
    let workers: u128 = if (worker_count as u128) < total { worker_count as u128 } else { total };
    let base: u128 = total / workers;
    let remainder: u128 = total % workers;
    let ghost t = total as nat;
    let ghost w = workers as nat;
    proof {
        assert(workers as nat == effective_workers(start_nonce, max_nonce, worker_count));
        assert(w * base + remainder == t) by (nonlinear_arith)
            requires
                w > 0,
                base == t / w,
                remainder == t % w,
        ;
        assert(base >= 1) by (nonlinear_arith)
            requires
                w > 0,
                w <= t,
                base == t / w,
        ;
    }
    let mut ranges: Vec<(u64, u64)> = Vec::new();
    let mut current: u128 = start_nonce as u128;
    let mut index: u128 = 0;
    while index < workers
        invariant
            w == workers,
            t == total,
            w > 0,
            base == t / w,
            remainder == t % w,
            w * base + remainder == t,
            base >= 1,
            total == max_nonce - start_nonce + 1,
            w == effective_workers(start_nonce, max_nonce, worker_count),
            index <= workers,
            current == range_start(start_nonce, t, w, index as nat),
            ranges.len() == index,
            forall|i: int| 0 <= i < index ==> (#[trigger] ranges@[i]).0 == range_start(start_nonce, t, w, i as nat)
                && ranges@[i].1 == range_start(start_nonce, t, w, (i + 1) as nat) - 1,
        decreases workers - index,
    {
        proof {
            assert(base <= w * base) by (nonlinear_arith)
                requires
                    w >= 1,
            ;
        }
        let size: u128 = if index < remainder { base + 1 } else { base };
        proof {
            let i = index as nat;
            assert((i + 1) * base == i * base + base) by (nonlinear_arith);
            assert((i + 1) * base <= w * base) by (nonlinear_arith)
                requires
                    i + 1 <= w,
            ;
            assert(range_start(start_nonce, t, w, (i + 1) as nat) == current + size);
            assert(range_start(start_nonce, t, w, (i + 1) as nat) <= start_nonce + w * base + remainder);
        }
        let end: u128 = current + size - 1;
        ranges.push((current as u64, end as u64));
        current = end + 1;
        index += 1;
    }
    Ok(ranges)
}

/// A non-empty candidate's hash at `nonce` and whether it meets the prefix.
fn check_nonce(candidate: &CandidateBlock, difficulty_prefix: &str, nonce: u64) -> (r: Result<(String, bool), MinerError>)
    requires
        candidate.transactions.len() > 0,
    ensures
        prefix_is_invalid(difficulty_prefix@) ==> r == Err::<(String, bool), MinerError>(MinerError::InvalidDifficulty),
        !prefix_is_invalid(difficulty_prefix@) ==> (r matches Ok((hash, solved))
            && hash@ == candidate_hash(*candidate, nonce)
            && solved == nonce_solves(*candidate, difficulty_prefix@, nonce)),
{
    let hash = match hash_candidate(candidate, nonce) {
        Ok(h) => h,
        Err(e) => return Err(e),
    };
    match hash_meets_difficulty(hash.as_str(), difficulty_prefix) {
        Ok(solved) => Ok((hash, solved)),
        Err(e) => Err(e),
    }
}

/// Search the inclusive nonce range `start_nonce..=end_nonce` in order and
/// report the first nonce whose candidate hash meets the difficulty, counting
/// every nonce tried. A start past the end is rejected with `InvalidDifficulty`.
pub fn mine_range(
    candidate: &CandidateBlock,
    difficulty_prefix: &str,
    start_nonce: u64,
    end_nonce: u64,
    worker_id: usize,
) -> (r: Result<Option<MinedNonce>, MinerError>)
    requires
        !search_overflows_attempts(*candidate, difficulty_prefix@, start_nonce, end_nonce),
    ensures
        mine_range_outcome(*candidate, difficulty_prefix@, start_nonce, end_nonce, worker_id, r),
{
    if start_nonce > end_nonce {
        return Err(MinerError::InvalidDifficulty);
    }
    if candidate.transactions.len() == 0 {
        return Err(MinerError::EmptyCandidate);
    }
    let mut attempts: u64 = 0;
    let mut nonce: u64 = start_nonce;
    loop
        invariant
            candidate.transactions.len() > 0,
            start_nonce <= nonce <= end_nonce,
            !search_overflows_attempts(*candidate, difficulty_prefix@, start_nonce, end_nonce),
            nonce > start_nonce ==> !prefix_is_invalid(difficulty_prefix@),
            attempts == nonce - start_nonce,
            !prefix_is_invalid(difficulty_prefix@) ==> forall|n: u64|
                start_nonce <= n < nonce ==> !#[trigger] nonce_solves(*candidate, difficulty_prefix@, n),
        decreases end_nonce - nonce,
    {
        if start_nonce == 0 && nonce == u64::MAX {
            assert(no_solution_in(*candidate, difficulty_prefix@, 0, (u64::MAX - 1) as u64));
        }
        attempts += 1;
        let (hash, solved) = match check_nonce(candidate, difficulty_prefix, nonce) {
            Ok(checked) => checked,
            Err(e) => return Err(e),
        };
        if solved {
            return Ok(Some(MinedNonce { nonce, hash, attempts, worker_id }));
        }
        if nonce == end_nonce {
            return Ok(None);
        }
        nonce += 1;
    }
}

/// One step of a mining worker that shares its search with others: hash the
/// candidate at `nonce` and report it as found when the hash meets the
/// difficulty. A hash or prefix that cannot be checked counts as no solution,
/// so the worker moves on. `attempts` counts the nonces tried so far, this one
/// included.
pub fn try_nonce(
    candidate: &CandidateBlock,
    difficulty_prefix: &str,
    nonce: u64,
    attempts: u64,
    worker_id: usize,
) -> (r: Option<MinedNonce>)
    ensures
        r is Some <==> (candidate.transactions.len() > 0 && !prefix_is_invalid(difficulty_prefix@)
            && nonce_solves(*candidate, difficulty_prefix@, nonce)),
        r matches Some(mined) ==> mined.nonce == nonce && mined.hash@ == candidate_hash(*candidate, nonce)
            && mined.attempts == attempts && mined.worker_id == worker_id,
{
    if candidate.transactions.len() == 0 {
        return None;
    }
    match check_nonce(candidate, difficulty_prefix, nonce) {
        Ok((hash, true)) => Some(MinedNonce { nonce, hash, attempts, worker_id }),
        _ => None,
    }
}

/// Where a worker that shares a search stands: the next nonce it will try and
/// how many nonces it has tried so far.
#[derive(Clone, Copy, Debug, PartialEq, Eq)]
pub struct WorkerProgress {
    pub nonce: u64,
    pub attempts: u64,
}

/// What a worker does after one step.
#[derive(Clone, Debug, PartialEq, Eq)]
pub enum WorkerAction {
    /// Stop: the search was cancelled or the range is used up.
    Stop,
    /// Go on from this progress.
    Continue(WorkerProgress),
    /// Report this nonce and stop.
    Found(MinedNonce),
}

/// A worker's progress before it tries any nonce of the range starting at
/// `start_nonce`.
pub fn worker_start(start_nonce: u64) -> (r: WorkerProgress)
    ensures
        r.nonce == start_nonce,
        r.attempts == 0,
{
    WorkerProgress { nonce: start_nonce, attempts: 0 }
}

/// One step of a worker searching `start_nonce..=end_nonce` while other
/// workers search other ranges: stop when the search was cancelled; otherwise
/// try the next nonce, report it when it solves the candidate, and stop at the
/// end of the range. A hash or prefix that cannot be checked counts as no
/// solution.
pub fn worker_step(
    candidate: &CandidateBlock,
    difficulty_prefix: &str,
    start_nonce: u64,
    end_nonce: u64,
    worker_id: usize,
    progress: WorkerProgress,
    cancelled: bool,
) -> (r: WorkerAction)
    requires
        start_nonce <= progress.nonce <= end_nonce,
        progress.attempts == progress.nonce - start_nonce,
        progress.attempts < u64::MAX,
    ensures
        cancelled ==> r == WorkerAction::Stop,
        !cancelled ==> match r {
            WorkerAction::Found(mined) => {
                &&& mined.nonce == progress.nonce
                &&& start_nonce <= mined.nonce <= end_nonce
                &&& candidate.transactions.len() > 0
                &&& !prefix_is_invalid(difficulty_prefix@)
                &&& nonce_solves(*candidate, difficulty_prefix@, mined.nonce)
                &&& reports_nonce(*candidate, start_nonce, worker_id, mined.nonce, mined)
            },
            WorkerAction::Continue(next) => {
                &&& progress.nonce < end_nonce
                &&& next.nonce == progress.nonce + 1
                &&& next.attempts == progress.attempts + 1
                &&& !(candidate.transactions.len() > 0 && !prefix_is_invalid(difficulty_prefix@)
                    && nonce_solves(*candidate, difficulty_prefix@, progress.nonce))
            },
            WorkerAction::Stop => {
                &&& progress.nonce == end_nonce
                &&& !(candidate.transactions.len() > 0 && !prefix_is_invalid(difficulty_prefix@)
                    && nonce_solves(*candidate, difficulty_prefix@, progress.nonce))
            },
        },
{
    if cancelled {
        return WorkerAction::Stop;
    }
    let attempts = progress.attempts + 1;
    match try_nonce(candidate, difficulty_prefix, progress.nonce, attempts, worker_id) {
        Some(mined) => WorkerAction::Found(mined),
        None => {
            if progress.nonce == end_nonce {
                WorkerAction::Stop
            } else {
                WorkerAction::Continue(WorkerProgress { nonce: progress.nonce + 1, attempts })
            }
        },
    }
}

/// Run a worker over `start_nonce..=end_nonce` while other workers search other
/// ranges: before each nonce it asks `is_cancelled` whether another worker has
/// already found a solution, and stops if so; otherwise it steps through its
/// range until a nonce solves the candidate or the range is used up.
pub fn run_worker<F: Fn() -> bool>(
    candidate: &CandidateBlock,
    difficulty_prefix: &str,
    start_nonce: u64,
    end_nonce: u64,
    worker_id: usize,
    is_cancelled: F,
) -> (r: Option<MinedNonce>)
    requires
        call_requires(is_cancelled, ()),
        !worker_may_overflow(*candidate, difficulty_prefix@, start_nonce, end_nonce),
    ensures
        worker_outcome(
            *candidate,
            difficulty_prefix@,
            start_nonce,
            end_nonce,
            worker_id,
            call_ensures(is_cancelled, (), true),
            r,
        ),
{
    if start_nonce > end_nonce {
        return None;
    }
    let mut progress = worker_start(start_nonce);
    loop
        invariant
            call_requires(is_cancelled, ()),
            !worker_may_overflow(*candidate, difficulty_prefix@, start_nonce, end_nonce),
            start_nonce <= progress.nonce <= end_nonce,
            progress.attempts == progress.nonce - start_nonce,
            candidate.transactions.len() > 0 && !prefix_is_invalid(difficulty_prefix@) ==> forall|n: u64|
                start_nonce <= n < progress.nonce ==> !#[trigger] nonce_solves(*candidate, difficulty_prefix@, n),
        decreases end_nonce - progress.nonce,
    {
        let cancelled = is_cancelled();
        proof {
            if start_nonce == 0 && progress.nonce == u64::MAX && candidate.transactions.len() > 0
                && !prefix_is_invalid(difficulty_prefix@) {
                assert(no_solution_in(*candidate, difficulty_prefix@, 0, (u64::MAX - 1) as u64));
            }
        }
        match worker_step(candidate, difficulty_prefix, start_nonce, end_nonce, worker_id, progress, cancelled) {
            WorkerAction::Stop => {
                return None;
            },
            WorkerAction::Continue(next) => {
                progress = next;
            },
            WorkerAction::Found(mined) => {
                return Some(mined);
            },
        }
    }
}

/// Run a worker as `run_worker` does, after first testing whether its search
/// could count past `u64::MAX` attempts: for the whole nonce space it first
/// searches below `u64::MAX`, and gives `None` when that finds nothing.
pub fn run_worker_checked<F: Fn() -> bool>(
    candidate: &CandidateBlock,
    difficulty_prefix: &str,
    start_nonce: u64,
    end_nonce: u64,
    worker_id: usize,
    is_cancelled: F,
) -> (r: Option<Option<MinedNonce>>)
    requires
        call_requires(is_cancelled, ()),
    ensures
        r is None <==> worker_may_overflow(*candidate, difficulty_prefix@, start_nonce, end_nonce),
        r matches Some(found) ==> worker_outcome(
            *candidate,
            difficulty_prefix@,
            start_nonce,
            end_nonce,
            worker_id,
            call_ensures(is_cancelled, (), true),
            found,
        ),
{
    if start_nonce == 0 && end_nonce == u64::MAX {
        let below = mine_range(candidate, difficulty_prefix, 0, u64::MAX - 1, worker_id);
        match below {
            Ok(Some(_)) => {},
            _ => {
                return None;
            },
        }
    }
    Some(run_worker(candidate, difficulty_prefix, start_nonce, end_nonce, worker_id, is_cancelled))
}

/// Mine using a single worker over the configured nonce range; the report
/// gives a worker count of 1. A range without a solution ends with `NoSolution`.
pub fn mine_single_threaded(candidate: &CandidateBlock, config: &MiningConfig) -> (r: Result<MiningReport, MinerError>)
    requires
        !search_overflows_attempts(*candidate, config.difficulty_prefix@, config.start_nonce, config.max_nonce),
    ensures
        single_threaded_outcome(*candidate, *config, r),
{
    let found = match mine_range(
        candidate,
        config.difficulty_prefix.as_str(),
        config.start_nonce,
        config.max_nonce,
        0,
    ) {
        Ok(found) => found,
        Err(e) => return Err(e),
    };
    match found {
        Some(mined) => {
            let block = match build_candidate_block(candidate, mined.nonce, config.difficulty_prefix.as_str()) {
                Ok(block) => block,
                Err(e) => return Err(e),
            };
            Ok(MiningReport { block, nonce: mined.nonce, hash: mined.hash, attempts: mined.attempts, worker_count: 1 })
        },
        None => Err(MinerError::NoSolution),
    }
}

/// Finish a search shared by several workers: the first nonce reported becomes
/// the mined block, with the configured worker count in the report; no report
/// ends with `NoSolution`.
pub fn report_first_found(
    candidate: &CandidateBlock,
    config: &MiningConfig,
    first: Option<MinedNonce>,
) -> (r: Result<MiningReport, MinerError>)
    ensures
        first_found_outcome(*candidate, *config, first, r),
{
    match first {
        None => Err(MinerError::NoSolution),
        Some(mined) => {
            let block = match build_candidate_block(candidate, mined.nonce, config.difficulty_prefix.as_str()) {
                Ok(block) => block,
                Err(e) => return Err(e),
            };
            Ok(MiningReport {
                block,
                nonce: mined.nonce,
                hash: mined.hash,
                attempts: mined.attempts,
                worker_count: config.worker_count,
            })
        },
    }
}

/// `workers:<worker_count>|nonce:<nonce>|attempts:<attempts>|hash:<hash>`
pub open spec fn progress_text(report: MiningReport) -> Seq<char> {
    "workers:"@ + decimal(report.worker_count as nat) + "|nonce:"@ + decimal(report.nonce as nat)
        + "|attempts:"@ + decimal(report.attempts as nat) + "|hash:"@ + report.hash@
}

/// Build a compact mining progress line:
/// `workers:<worker_count>|nonce:<nonce>|attempts:<attempts>|hash:<hash>`
pub fn progress_line(report: &MiningReport) -> (r: String)
    ensures
        r@ == progress_text(*report),
{
    let mut line = String::from_str("workers:");
    push_decimal(&mut line, report.worker_count as u64);
    line.append("|nonce:");
    push_decimal(&mut line, report.nonce);
    line.append("|attempts:");
    push_decimal(&mut line, report.attempts);
    line.append("|hash:");
    line.append(report.hash.as_str());
    assert(line@ =~= progress_text(*report));
    line
}

} // verus!
