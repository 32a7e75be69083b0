//! Proof of work: the difficulty rule, the merkle root of a candidate's
//! transactions, and the hash of a candidate at a nonce.

use vstd::prelude::*;
use crate::hashing::{is_hex_digest, sha256_digest, sha256_hex};
use crate::merkle_tree::{lemma_merkle_root_of_four, merkle_root_from_hashes, merkle_top, string_views};
use crate::mining::error::{MinerError, MinerErrorView, result_view};
use crate::mining::types::{CandidateBlock, Hashable, Transaction, append_txid_list, tx_material, txid_list};
use crate::text::{decimal, push_decimal};

verus! {

/// An ASCII hexadecimal digit, in either case.
pub open spec fn is_hex_char(c: char) -> bool {
    let v = c as u32;
    (48 <= v && v <= 57) || (97 <= v && v <= 102) || (65 <= v && v <= 70)
}

/// The code point of `c` after ASCII lowercasing (`A`-`Z` become `a`-`z`).
pub open spec fn lower_code(c: char) -> u32 {
    let v = c as u32;
    if 65 <= v && v <= 90 {
        (v + 32) as u32
    } else {
        v
    }
}

/// `hash` starts with `prefix` once both are ASCII-lowercased.
pub open spec fn starts_with_ignoring_ascii_case(hash: Seq<char>, prefix: Seq<char>) -> bool {
    &&& prefix.len() <= hash.len()
    &&& forall|i: int| 0 <= i < prefix.len() ==> lower_code(#[trigger] hash[i]) == lower_code(prefix[i])
}

/// The difficulty rule: a prefix with a character other than an ASCII hex digit
/// is invalid; otherwise a hash meets it when it starts with it, ignoring ASCII
/// case.
pub open spec fn difficulty_check(hash: Seq<char>, prefix: Seq<char>) -> Result<bool, MinerErrorView> {
    if exists|i: int| 0 <= i < prefix.len() && !is_hex_char(#[trigger] prefix[i]) {
        Err(MinerErrorView::InvalidDifficulty)
    } else {
        Ok(starts_with_ignoring_ascii_case(hash, prefix))
    }
}

/// The leaf hashes of a list of transactions.
pub open spec fn tx_leaf_hashes(txs: Seq<Transaction>) -> Seq<Seq<char>> {
    txs.map_values(|t: Transaction| sha256_hex(tx_material(t)))
}

/// The merkle root of a non-empty list of transactions.
pub open spec fn tx_merkle_root(txs: Seq<Transaction>) -> Seq<char> {
    merkle_top(tx_leaf_hashes(txs))
}

/// `candidate:<previous_hash>|height:<height>|merkle:<merkle>|time:<timestamp>|nonce:<nonce>|txs:<txid>;...`
pub open spec fn candidate_material(candidate: CandidateBlock, nonce: u64) -> Seq<char> {
    "candidate:"@ + candidate.previous_block_hash@ + "|height:"@ + decimal(candidate.height as nat)
        + "|merkle:"@ + tx_merkle_root(candidate.transactions@) + "|time:"@
        + decimal(candidate.timestamp as nat) + "|nonce:"@ + decimal(nonce as nat) + "|txs:"@
        + txid_list(candidate.transactions@)
}

/// The hash of a candidate at a nonce.
pub open spec fn candidate_hash(candidate: CandidateBlock, nonce: u64) -> Seq<char> {
    sha256_hex(candidate_material(candidate, nonce))
}

/// The code point of `c` after ASCII lowercasing.
fn lower_code_of(c: char) -> (r: u32)
    ensures
        r == lower_code(c),
{
    let v = c as u32;
    if 65 <= v && v <= 90 {
        v + 32
    } else {
        v
    }
}

/// Return whether a hash starts with the difficulty prefix, comparing ASCII
/// letters without regard to case; a prefix with a character other than an
/// ASCII hex digit is rejected with `InvalidDifficulty`.
pub fn hash_meets_difficulty(hash: &str, difficulty_prefix: &str) -> (r: Result<bool, MinerError>)
    ensures
        result_view(r) == difficulty_check(hash@, difficulty_prefix@),
{
    let n = difficulty_prefix.unicode_len();
    let mut i: usize = 0;
    while i < n
        invariant
            n == difficulty_prefix@.len(),
            i <= n,
            forall|j: int| 0 <= j < i ==> is_hex_char(#[trigger] difficulty_prefix@[j]),
        decreases n - i,
    {
        let v = difficulty_prefix.get_char(i) as u32;
        if !((48 <= v && v <= 57) || (97 <= v && v <= 102) || (65 <= v && v <= 70)) {
            assert(!is_hex_char(difficulty_prefix@[i as int]));
            return Err(MinerError::InvalidDifficulty);
        }
        i += 1;
    }
    let m = hash.unicode_len();
    if m < n {
        return Ok(false);
    }
    let mut k: usize = 0;
    while k < n
        invariant
            n == difficulty_prefix@.len(),
            m == hash@.len(),
            n <= m,
            k <= n,
            forall|j: int| 0 <= j < n ==> is_hex_char(#[trigger] difficulty_prefix@[j]),
            forall|j: int| 0 <= j < k ==> lower_code(#[trigger] hash@[j]) == lower_code(difficulty_prefix@[j]),
        decreases n - k,
    {
        if lower_code_of(hash.get_char(k)) != lower_code_of(difficulty_prefix.get_char(k)) {
            assert(lower_code(hash@[k as int]) != lower_code(difficulty_prefix@[k as int]));
            return Ok(false);
        }
        k += 1;
    }
    Ok(true)
}

/// The SHA-256 hash of each transaction's material, in order.
fn leaf_hashes(transactions: &[Transaction]) -> (r: Vec<String>)
    ensures
        r.len() == transactions.len(),
        string_views(r@) == tx_leaf_hashes(transactions@),
        forall|i: int| 0 <= i < r.len() ==> is_hex_digest(#[trigger] r@[i]@),
{
    let mut hashes: Vec<String> = Vec::new();
    let mut i: usize = 0;
    while i < transactions.len()
        invariant
            i <= transactions.len(),
            hashes.len() == i,
            forall|j: int| 0 <= j < i ==> (#[trigger] hashes@[j])@ == sha256_hex(tx_material(transactions@[j])),
            forall|j: int| 0 <= j < i ==> is_hex_digest(#[trigger] hashes@[j]@),
        decreases transactions.len() - i,
    {
        let hash = transactions[i].hash_hex();
        hashes.push(hash);
        i += 1;
    }
    assert(string_views(hashes@) =~= tx_leaf_hashes(transactions@));
    hashes
}

/// Calculate the merkle root of the transactions' hashes, pairing hashes left
/// to right and pairing the last hash of an odd level with itself.
pub fn calculate_merkle_root(transactions: &[Transaction]) -> (r: Result<String, MinerError>)
    ensures
        transactions.len() == 0 ==> r == Err::<String, MinerError>(MinerError::EmptyCandidate),
        transactions.len() > 0 ==> (r matches Ok(root) && root@ == tx_merkle_root(transactions@)
            && is_hex_digest(root@)),
{
    if transactions.len() == 0 {
        return Err(MinerError::EmptyCandidate);
    }
    let hashes = leaf_hashes(transactions);
    Ok(merkle_root_from_hashes(hashes))
}

/// Build the deterministic hash material of a candidate at a nonce:
/// `candidate:<previous_hash>|height:<height>|merkle:<merkle>|time:<timestamp>|nonce:<nonce>|txs:<txid>;...`
pub fn candidate_hash_material(candidate: &CandidateBlock, nonce: u64) -> (r: Result<String, MinerError>)
    ensures
        candidate.transactions.len() == 0 ==> r == Err::<String, MinerError>(MinerError::EmptyCandidate),
        candidate.transactions.len() > 0 ==> (r matches Ok(m) && m@ == candidate_material(*candidate, nonce)),
{
    let merkle_root = match calculate_merkle_root(candidate.transactions.as_slice()) {
        Ok(root) => root,
        Err(e) => return Err(e),
    };
    let mut material = String::from_str("candidate:");
    material.append(candidate.previous_block_hash.as_str());
    material.append("|height:");
    push_decimal(&mut material, candidate.height);
    material.append("|merkle:");
    material.append(merkle_root.as_str());
    material.append("|time:");
    push_decimal(&mut material, candidate.timestamp);
    material.append("|nonce:");
    push_decimal(&mut material, nonce);
    material.append("|txs:");
    append_txid_list(&mut material, &candidate.transactions);
    assert(material@ =~= candidate_material(*candidate, nonce));
    Ok(material)
}

/// Hash a candidate block at one nonce.
pub fn hash_candidate(candidate: &CandidateBlock, nonce: u64) -> (r: Result<String, MinerError>)
    ensures
        candidate.transactions.len() == 0 ==> r == Err::<String, MinerError>(MinerError::EmptyCandidate),
        candidate.transactions.len() > 0 ==> (r matches Ok(h) && h@ == candidate_hash(*candidate, nonce)
            && is_hex_digest(h@)),
{
    let material = match candidate_hash_material(candidate, nonce) {
        Ok(m) => m,
        Err(e) => return Err(e),
    };
    Ok(sha256_digest(material))
}

/// Whether a prefix is valid and whether a hash meets it depend on the prefix
/// only up to ASCII case: `A` and `a` are treated the same.
pub proof fn lemma_difficulty_ignores_case(hash: Seq<char>, p: Seq<char>, q: Seq<char>)
    requires
        p.len() == q.len(),
        forall|i: int| 0 <= i < p.len() ==> lower_code(#[trigger] p[i]) == lower_code(q[i]),
    ensures
        difficulty_check(hash, p) == difficulty_check(hash, q),
{
    assert forall|i: int| 0 <= i < p.len() implies is_hex_char(#[trigger] p[i]) == is_hex_char(q[i]) by {
        assert(lower_code(p[i]) == lower_code(q[i]));
    }
    if exists|i: int| 0 <= i < p.len() && !is_hex_char(#[trigger] p[i]) {
        let i = choose|i: int| 0 <= i < p.len() && !is_hex_char(#[trigger] p[i]);
        assert(!is_hex_char(q[i]));
    } else if exists|i: int| 0 <= i < q.len() && !is_hex_char(#[trigger] q[i]) {
        let i = choose|i: int| 0 <= i < q.len() && !is_hex_char(#[trigger] q[i]);
        assert(!is_hex_char(p[i]));
    }
}

/// `c` with ASCII `a`-`z` turned into `A`-`Z`.
pub open spec fn ascii_upper_char(c: char) -> char {
    let v = c as u32;
    if 97 <= v && v <= 122 {
        (v - 32) as char
    } else {
        c
    }
}

/// `c` with ASCII `A`-`Z` turned into `a`-`z`.
pub open spec fn ascii_lower_char(c: char) -> char {
    let v = c as u32;
    if 65 <= v && v <= 90 {
        (v + 32) as char
    } else {
        c
    }
}

/// A text with its ASCII letters uppercased.
pub open spec fn ascii_uppercase(s: Seq<char>) -> Seq<char> {
    s.map_values(|c: char| ascii_upper_char(c))
}

/// A text with its ASCII letters lowercased.
pub open spec fn ascii_lowercase(s: Seq<char>) -> Seq<char> {
    s.map_values(|c: char| ascii_lower_char(c))
}

/// Changing the case of an ASCII letter keeps its lowercased code.
pub proof fn lemma_case_change_keeps_lower_code(c: char)
    ensures
        lower_code(ascii_upper_char(c)) == lower_code(c),
        lower_code(ascii_lower_char(c)) == lower_code(c),
{
    let v = c as u32;
    if 97 <= v && v <= 122 {
        assert(((v - 32) as char) as u32 == v - 32);
    }
    if 65 <= v && v <= 90 {
        assert(((v + 32) as char) as u32 == v + 32);
    }
}

/// Whether a hash meets a prefix depends on the hash only up to ASCII case.
pub proof fn lemma_difficulty_ignores_hash_case(h: Seq<char>, g: Seq<char>, p: Seq<char>)
    requires
        h.len() == g.len(),
        forall|i: int| 0 <= i < h.len() ==> lower_code(#[trigger] h[i]) == lower_code(g[i]),
    ensures
        difficulty_check(h, p) == difficulty_check(g, p),
{
    if starts_with_ignoring_ascii_case(h, p) {
        assert forall|i: int| 0 <= i < p.len() implies lower_code(#[trigger] g[i]) == lower_code(p[i]) by {
            assert(lower_code(h[i]) == lower_code(g[i]));
        }
    }
    if starts_with_ignoring_ascii_case(g, p) {
        assert forall|i: int| 0 <= i < p.len() implies lower_code(#[trigger] h[i]) == lower_code(p[i]) by {
            assert(lower_code(g[i]) == lower_code(p[i]));
        }
    }
}

/// Uppercasing the hash and lowercasing the prefix leave the difficulty check
/// as it was.
pub proof fn lemma_difficulty_case_normalized(h: Seq<char>, p: Seq<char>)
    ensures
        difficulty_check(ascii_uppercase(h), ascii_lowercase(p)) == difficulty_check(h, p),
{
    assert forall|i: int| 0 <= i < h.len() implies lower_code(#[trigger] ascii_uppercase(h)[i]) == lower_code(h[i]) by {
        lemma_case_change_keeps_lower_code(h[i]);
    }
    assert forall|i: int| 0 <= i < p.len() implies lower_code(#[trigger] ascii_lowercase(p)[i]) == lower_code(p[i]) by {
        lemma_case_change_keeps_lower_code(p[i]);
    }
    lemma_difficulty_ignores_hash_case(ascii_uppercase(h), h, ascii_lowercase(p));
    lemma_difficulty_ignores_case(h, ascii_lowercase(p), p);
}

/// A hash that meets a prefix also meets every shorter start of it.
pub proof fn lemma_difficulty_prefix_monotone(h: Seq<char>, p: Seq<char>, q: Seq<char>)
    requires
        difficulty_check(h, p + q) == Ok::<bool, MinerErrorView>(true),
    ensures
        difficulty_check(h, p) == Ok::<bool, MinerErrorView>(true),
{
    let pq = p + q;
    assert forall|i: int| 0 <= i < p.len() implies is_hex_char(#[trigger] p[i]) by {
        assert(pq[i] == p[i]);
        if !is_hex_char(p[i]) {
            assert(!is_hex_char(pq[i]));
        }
    }
    assert forall|i: int| 0 <= i < p.len() implies lower_code(#[trigger] h[i]) == lower_code(p[i]) by {
        assert(pq[i] == p[i]);
        assert(lower_code(h[i]) == lower_code(pq[i]));
    }
}

/// `x` and `y` are the same character once ASCII case is ignored: equal, or
/// the same ASCII letter in the two cases.
pub open spec fn same_ignoring_ascii_case(x: char, y: char) -> bool {
    let a = x as u32;
    let b = y as u32;
    a == b || (65 <= a <= 90 && b == a + 32) || (65 <= b <= 90 && a == b + 32)
}

/// `c` is one of `0`-`9` (code points 48 to 57), `a`-`f` (97 to 102) or
/// `A`-`F` (65 to 70).
pub open spec fn ascii_hex_digit(c: char) -> bool {
    let v = c as u32;
    48 <= v < 58 || 97 <= v < 103 || 65 <= v < 71
}

/// The difficulty rule, whatever the prefix's length: a prefix made of ASCII
/// hex digits is met by exactly the hashes at least as long that agree with
/// it, character by character and ignoring ASCII case, on its length; a prefix
/// holding any other character is rejected as invalid.
pub proof fn lemma_difficulty_is_case_blind_prefix_match(h: Seq<char>, p: Seq<char>)
    ensures
        (forall|i: int| 0 <= i < p.len() ==> ascii_hex_digit(#[trigger] p[i])) ==> difficulty_check(h, p)
            == Ok::<bool, MinerErrorView>(
            p.len() <= h.len() && forall|i: int| 0 <= i < p.len() ==> same_ignoring_ascii_case(#[trigger] h[i], p[i]),
        ),
        (exists|i: int| 0 <= i < p.len() && !ascii_hex_digit(#[trigger] p[i])) ==> difficulty_check(h, p)
            == Err::<bool, MinerErrorView>(MinerErrorView::InvalidDifficulty),
{
    assert forall|i: int| 0 <= i < p.len() implies ascii_hex_digit(#[trigger] p[i]) == is_hex_char(p[i]) by {}
    if exists|i: int| 0 <= i < p.len() && !ascii_hex_digit(#[trigger] p[i]) {
        let i = choose|i: int| 0 <= i < p.len() && !ascii_hex_digit(#[trigger] p[i]);
        assert(!is_hex_char(p[i]));
    }
    assert forall|i: int| 0 <= i < p.len() && i < h.len() implies same_ignoring_ascii_case(#[trigger] h[i], p[i])
        == (lower_code(h[i]) == lower_code(p[i])) by {}
}

/// A hash that starts with a valid prefix meets it, however long the prefix.
pub proof fn lemma_difficulty_met_by_extension(p: Seq<char>, rest: Seq<char>)
    requires
        forall|i: int| 0 <= i < p.len() ==> ascii_hex_digit(#[trigger] p[i]),
    ensures
        difficulty_check(p + rest, p) == Ok::<bool, MinerErrorView>(true),
{
    lemma_difficulty_is_case_blind_prefix_match(p + rest, p);
    assert forall|i: int| 0 <= i < p.len() implies same_ignoring_ascii_case(#[trigger] (p + rest)[i], p[i]) by {
        assert((p + rest)[i] == p[i]);
    }
}

/// Every hash meets the empty prefix.
pub proof fn lemma_empty_prefix_always_met(hash: Seq<char>)
    ensures
        difficulty_check(hash, Seq::empty()) == Ok::<bool, MinerErrorView>(true),
{
}

/// The merkle root of a single transaction is that transaction's hash.
pub proof fn lemma_single_transaction_root(tx: Transaction)
    ensures
        tx_merkle_root(seq![tx]) == sha256_hex(tx_material(tx)),
{
    assert(tx_leaf_hashes(seq![tx]).len() == 1);
}

/// The merkle root of four transactions: the hashes of the first two are
/// hashed together, then those of the last two, each left child first, and
/// then the two parents.
pub proof fn lemma_four_transaction_root(t1: Transaction, t2: Transaction, t3: Transaction, t4: Transaction)
    ensures
        tx_merkle_root(seq![t1, t2, t3, t4]) == sha256_hex(
            sha256_hex(sha256_hex(tx_material(t1)) + sha256_hex(tx_material(t2))) + sha256_hex(
                sha256_hex(tx_material(t3)) + sha256_hex(tx_material(t4)),
            ),
        ),
{
    let h1 = sha256_hex(tx_material(t1));
    let h2 = sha256_hex(tx_material(t2));
    let h3 = sha256_hex(tx_material(t3));
    let h4 = sha256_hex(tx_material(t4));
    assert(tx_leaf_hashes(seq![t1, t2, t3, t4]) =~= seq![h1, h2, h3, h4]);
    lemma_merkle_root_of_four(h1, h2, h3, h4);
}

} // verus!
