//! The pairwise merkle tree over hex digests shared by the ledger and the miner.
//!
//! A level is reduced by hashing neighbouring pairs left to right; when a level
//! has an odd number of entries, the last one is paired with itself.

use vstd::prelude::*;
use crate::hashing::{is_hex_digest, sha256_digest, sha256_hex};

verus! {

/// The character views of a sequence of strings.
pub open spec fn string_views(v: Seq<String>) -> Seq<Seq<char>> {
    v.map_values(|s: String| s@)
}

/// The hash of the concatenation of two child hashes.
pub open spec fn pair_digest(left: Seq<char>, right: Seq<char>) -> Seq<char> {
    sha256_hex(left + right)
}

/// Parent `i` of a level: the digest of children `2i` and `2i + 1`, the last
/// child standing in for its missing right sibling.
pub open spec fn merkle_parent(level: Seq<Seq<char>>, i: int) -> Seq<char> {
    let left = level[2 * i];
    let right = if 2 * i + 1 < level.len() { level[2 * i + 1] } else { left };
    pair_digest(left, right)
}

/// Number of parents of a level of `n` nodes.
pub open spec fn parent_count(n: nat) -> nat {
    (n / 2 + n % 2) as nat
}

/// The level above `level`.
pub open spec fn merkle_next_level(level: Seq<Seq<char>>) -> Seq<Seq<char>> {
    Seq::new(parent_count(level.len()), |i: int| merkle_parent(level, i))
}

/// The root reached by reducing `level` until one node remains.
pub open spec fn merkle_top(level: Seq<Seq<char>>) -> Seq<char>
    decreases level.len(),
{
    if level.len() <= 1 {
        level[0]
    } else {
        merkle_top(merkle_next_level(level))
    }
}

/// A level of two or more hashes has the same root as the level made by
/// hashing each left child followed by its right neighbour, left to right, the
/// last hash of an odd level followed by itself.
pub proof fn lemma_merkle_root_hashes_pairs_left_first(level: Seq<Seq<char>>)
    requires
        level.len() >= 2,
    ensures
        merkle_top(level) == merkle_top(
            Seq::new(
                ((level.len() + 1) / 2) as nat,
                |i: int|
                    sha256_hex(
                        level[2 * i] + (if 2 * i + 1 < level.len() {
                            level[2 * i + 1]
                        } else {
                            level[2 * i]
                        }),
                    ),
            ),
        ),
{
    let paired = Seq::new(
        ((level.len() + 1) / 2) as nat,
        |i: int|
            sha256_hex(
                level[2 * i] + (if 2 * i + 1 < level.len() {
                    level[2 * i + 1]
                } else {
                    level[2 * i]
                }),
            ),
    );
    assert(parent_count(level.len()) == (level.len() + 1) / 2);
    assert(merkle_next_level(level) =~= paired);
}

/// A single hash is its own root.
pub proof fn lemma_merkle_root_of_one(h: Seq<char>)
    ensures
        merkle_top(seq![h]) == h,
{
}

/// The root of two hashes is the hash of the first followed by the second.
pub proof fn lemma_merkle_root_of_two(h1: Seq<char>, h2: Seq<char>)
    ensures
        merkle_top(seq![h1, h2]) == sha256_hex(h1 + h2),
{
    lemma_merkle_root_hashes_pairs_left_first(seq![h1, h2]);
    let top = Seq::new(1, |i: int| sha256_hex(seq![h1, h2][2 * i] + seq![h1, h2][2 * i + 1]));
    assert(top =~= seq![sha256_hex(h1 + h2)]);
}

/// The root of three hashes: the third is paired with itself.
pub proof fn lemma_merkle_root_of_three(h1: Seq<char>, h2: Seq<char>, h3: Seq<char>)
    ensures
        merkle_top(seq![h1, h2, h3]) == sha256_hex(sha256_hex(h1 + h2) + sha256_hex(h3 + h3)),
{
    let level = seq![h1, h2, h3];
    lemma_merkle_root_hashes_pairs_left_first(level);
    assert(merkle_next_level(level) =~= seq![sha256_hex(h1 + h2), sha256_hex(h3 + h3)]);
    lemma_merkle_root_of_two(sha256_hex(h1 + h2), sha256_hex(h3 + h3));
}

/// The root of four hashes: the first two and the last two are hashed, left
/// child first, and then their two parents.
pub proof fn lemma_merkle_root_of_four(h1: Seq<char>, h2: Seq<char>, h3: Seq<char>, h4: Seq<char>)
    ensures
        merkle_top(seq![h1, h2, h3, h4]) == sha256_hex(sha256_hex(h1 + h2) + sha256_hex(h3 + h4)),
{
    let level = seq![h1, h2, h3, h4];
    lemma_merkle_root_hashes_pairs_left_first(level);
    assert(merkle_next_level(level) =~= seq![sha256_hex(h1 + h2), sha256_hex(h3 + h4)]);
    lemma_merkle_root_of_two(sha256_hex(h1 + h2), sha256_hex(h3 + h4));
}

/// Hash two child hashes into their parent merkle node: SHA-256 of `<left><right>`.
pub fn pair_hash(left: &str, right: &str) -> (r: String)
    ensures
        r@ == pair_digest(left@, right@),
        is_hex_digest(r@),
{
    let mut joined = String::from_str(left);
    joined.append(right);
    sha256_digest(joined)
}

/// Reduce one level to the level above it.
fn next_level(level: &Vec<String>) -> (next: Vec<String>)
    requires
        level.len() >= 1,
    ensures
        next.len() == parent_count(level.len() as nat),
        string_views(next@) == merkle_next_level(string_views(level@)),
        forall|j: int| 0 <= j < next.len() ==> is_hex_digest(#[trigger] next@[j]@),
{
    let n = level.len();
    let pairs = n / 2 + n % 2;
    let mut next: Vec<String> = Vec::new();
    let mut k: usize = 0;
    while k < pairs
        invariant
            n == level.len(),
            pairs == parent_count(n as nat),
            k <= pairs,
            next.len() == k,
            forall|j: int| 0 <= j < k ==> #[trigger] next@[j]@ == merkle_parent(string_views(level@), j),
            forall|j: int| 0 <= j < k ==> is_hex_digest(#[trigger] next@[j]@),
        decreases pairs - k,
    {
        let left = &level[2 * k];
        let right = if 2 * k + 1 < n { &level[2 * k + 1] } else { left };
        let parent = pair_hash(left.as_str(), right.as_str());
        next.push(parent);
        k += 1;
    }
    assert(string_views(next@) =~= merkle_next_level(string_views(level@)));
    next
}

/// Reduce a non-empty level of hashes to its merkle root.
pub fn merkle_root_from_hashes(hashes: Vec<String>) -> (r: String)
    requires
        hashes.len() >= 1,
    ensures
        r@ == merkle_top(string_views(hashes@)),
        (forall|i: int| 0 <= i < hashes.len() ==> is_hex_digest(#[trigger] hashes@[i]@)) ==> is_hex_digest(r@),
{
    let ghost all_digests = forall|i: int| 0 <= i < hashes.len() ==> is_hex_digest(#[trigger] hashes@[i]@);
    let mut level = hashes;
    while level.len() > 1
        invariant
            level.len() >= 1,
            merkle_top(string_views(level@)) == merkle_top(string_views(hashes@)),
            all_digests ==> forall|i: int| 0 <= i < level.len() ==> is_hex_digest(#[trigger] level@[i]@),
        decreases level.len(),
    {
        let next = next_level(&level);
        assert(next.len() < level.len());
        level = next;
    }
    level.remove(0)
}

} // verus!
