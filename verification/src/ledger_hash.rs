//! Deterministic hash material for ledger transactions and blocks, SHA-256
//! hashing of that material, and the merkle root of a block's transactions.

use vstd::prelude::*;
use crate::hashing::{is_hex_digest, sha256_digest, sha256_hex};
use crate::ledger::{Block, Transaction, TxInput, TxOutput, TxStatus};
use crate::merkle_tree::{lemma_merkle_root_of_four, merkle_root_from_hashes, merkle_top, string_views};
use crate::seq_sum::{concat_all, lemma_concat_take_step, lemma_concat_take_all};
use crate::text::{decimal, push_decimal};

pub use crate::merkle_tree::pair_hash;

verus! {

/// Errors of the merkle checks.
#[derive(Clone, Copy, Debug, PartialEq, Eq, Structural)]
pub enum BtcLibError {
    EmptyBlock,
    InvalidMerkleRoot,
}

/// Values with deterministic hash material.
pub trait Hashable {
    /// The material that is hashed, as characters.
    spec fn material(&self) -> Seq<char>;

    /// Return stable material that will be hashed.
    fn hash_material(&self) -> (r: String)
        ensures
            r@ == self.material(),
    ;

    /// Hash `hash_material()` with SHA-256 and return lowercase hex.
    fn hash_hex(&self) -> (r: String)
        ensures
            r@ == sha256_hex(self.material()),
            is_hex_digest(r@),
    {
        sha256_digest(self.hash_material())
    }
}

/// Lowercase text of an output status.
pub open spec fn status_text(status: TxStatus) -> Seq<char> {
    match status {
        TxStatus::Spent => "spent"@,
        TxStatus::Unspent => "unspent"@,
    }
}

/// `<previous_txid>:<previous_vout>;`
pub open spec fn input_part(input: TxInput) -> Seq<char> {
    input.previous_txid@ + ":"@ + decimal(input.previous_vout as nat) + ";"@
}

/// `<value>:<recipient>:<status>;`
pub open spec fn output_part(output: TxOutput) -> Seq<char> {
    decimal(output.value_sats as nat) + ":"@ + output.recipient@ + ":"@ + status_text(output.status) + ";"@
}

/// `<txid>;`
pub open spec fn txid_part(tx: Transaction) -> Seq<char> {
    tx.txid@ + ";"@
}

/// `tx:<txid>|inputs:<input>...|outputs:<output>...`
pub open spec fn tx_material(tx: Transaction) -> Seq<char> {
    "tx:"@ + tx.txid@ + "|inputs:"@ + concat_all(tx.inputs@.map_values(|i: TxInput| input_part(i)))
        + "|outputs:"@ + concat_all(tx.outputs@.map_values(|o: TxOutput| output_part(o)))
}

/// The material of a transaction lists every input, in order, as
/// `<previous_txid>:<previous_vout>;`, and then every output, in order.
pub proof fn lemma_tx_material_lists_every_part(tx: Transaction)
    ensures
        tx_material(tx) == "tx:"@ + tx.txid@ + "|inputs:"@ + concat_all(
            Seq::new(
                tx.inputs.len() as nat,
                |i: int| tx.inputs@[i].previous_txid@ + ":"@ + decimal(tx.inputs@[i].previous_vout as nat) + ";"@,
            ),
        ) + "|outputs:"@ + concat_all(
            Seq::new(
                tx.outputs.len() as nat,
                |j: int| decimal(tx.outputs@[j].value_sats as nat) + ":"@ + tx.outputs@[j].recipient@ + ":"@
                    + status_text(tx.outputs@[j].status) + ";"@,
            ),
        ),
{
    assert(Seq::new(
        tx.inputs.len() as nat,
        |i: int| tx.inputs@[i].previous_txid@ + ":"@ + decimal(tx.inputs@[i].previous_vout as nat) + ";"@,
    ) =~= tx.inputs@.map_values(|i: TxInput| input_part(i)));
    assert(Seq::new(
        tx.outputs.len() as nat,
        |j: int| decimal(tx.outputs@[j].value_sats as nat) + ":"@ + tx.outputs@[j].recipient@ + ":"@
                    + status_text(tx.outputs@[j].status) + ";"@,
    ) =~= tx.outputs@.map_values(|o: TxOutput| output_part(o)));
}

/// Appending an input to a transaction appends its part to the inputs section
/// of the material and leaves the rest as it was.
pub proof fn lemma_tx_material_append_input(tx: Transaction, longer: Transaction, input: TxInput)
    requires
        longer.txid@ == tx.txid@,
        longer.inputs@ == tx.inputs@.push(input),
        longer.outputs@ == tx.outputs@,
    ensures
        tx_material(longer) == "tx:"@ + tx.txid@ + "|inputs:"@ + concat_all(tx.inputs@.map_values(|i: TxInput| input_part(i)))
            + input.previous_txid@ + ":"@ + decimal(input.previous_vout as nat) + ";"@
            + "|outputs:"@ + concat_all(tx.outputs@.map_values(|o: TxOutput| output_part(o))),
{
    let parts = longer.inputs@.map_values(|i: TxInput| input_part(i));
    assert(parts.drop_last() =~= tx.inputs@.map_values(|i: TxInput| input_part(i)));
    assert(longer.outputs@.map_values(|o: TxOutput| output_part(o)) =~= tx.outputs@.map_values(|o: TxOutput| output_part(o)));
}

/// `block:<block_hash>|prev:<previous_block_hash>|merkle:<merkle_root>|height:<height>|txs:<txid>;...`
pub open spec fn block_material(block: Block) -> Seq<char> {
    "block:"@ + block.header.block_hash@ + "|prev:"@ + block.header.previous_block_hash@ + "|merkle:"@
        + block.header.merkle_root@ + "|height:"@ + decimal(block.height as nat) + "|txs:"@
        + concat_all(block.transactions@.map_values(|t: Transaction| txid_part(t)))
}

/// The leaf hashes of a list of transactions.
pub open spec fn tx_leaf_hashes(txs: Seq<Transaction>) -> Seq<Seq<char>> {
    txs.map_values(|t: Transaction| sha256_hex(tx_material(t)))
}

/// The merkle root of a non-empty list of transactions.
pub open spec fn tx_merkle_root(txs: Seq<Transaction>) -> Seq<char> {
    merkle_top(tx_leaf_hashes(txs))
}

fn append_input_part(s: &mut String, input: &TxInput)
    ensures
        final(s)@ == old(s)@ + input_part(*input),
{
    s.append(input.previous_txid.as_str());
    s.append(":");
    push_decimal(s, input.previous_vout as u64);
    s.append(";");
    assert(final(s)@ =~= old(s)@ + input_part(*input));
}

fn append_output_part(s: &mut String, output: &TxOutput)
    ensures
        final(s)@ == old(s)@ + output_part(*output),
{
    push_decimal(s, output.value_sats);
    s.append(":");
    s.append(output.recipient.as_str());
    s.append(":");
    match output.status {
        TxStatus::Spent => s.append("spent"),
        TxStatus::Unspent => s.append("unspent"),
    }
    s.append(";");
    assert(final(s)@ =~= old(s)@ + output_part(*output));
}

/// Append `<txid>;` for every transaction, in order.
pub(crate) fn append_txid_parts(s: &mut String, txs: &Vec<Transaction>)
    ensures
        final(s)@ == old(s)@ + concat_all(txs@.map_values(|t: Transaction| txid_part(t))),
{
    let ghost parts = txs@.map_values(|t: Transaction| txid_part(t));
    let ghost start = s@;
    let mut i: usize = 0;
    while i < txs.len()
        invariant
            parts == txs@.map_values(|t: Transaction| txid_part(t)),
            i <= txs.len(),
            s@ == start + concat_all(parts.take(i as int)),
        decreases txs.len() - i,
    {
        proof {
            lemma_concat_take_step(parts, i as int);
        }
        s.append(txs[i].txid.as_str());
        s.append(";");
        assert(s@ =~= start + concat_all(parts.take(i + 1)));
        i += 1;
    }
    proof {
        lemma_concat_take_all(parts);
    }
}

impl Hashable for Transaction {
    open spec fn material(&self) -> Seq<char> {
        tx_material(*self)
    }

    /// Return `tx:<txid>|inputs:<previous_txid>:<previous_vout>;...|outputs:<value>:<recipient>:<status>;...`
    /// with the status written `spent` or `unspent`.
    fn hash_material(&self) -> (r: String) {
        let mut material = String::from_str("tx:");
        material.append(self.txid.as_str());
        material.append("|inputs:");
        let ghost in_parts = self.inputs@.map_values(|i: TxInput| input_part(i));
        let ghost head = material@;
        let mut i: usize = 0;
        while i < self.inputs.len()
            invariant
                in_parts == self.inputs@.map_values(|i: TxInput| input_part(i)),
                i <= self.inputs.len(),
                material@ == head + concat_all(in_parts.take(i as int)),
            decreases self.inputs.len() - i,
        {
            proof {
                lemma_concat_take_step(in_parts, i as int);
            }
            append_input_part(&mut material, &self.inputs[i]);
            assert(material@ =~= head + concat_all(in_parts.take(i + 1)));
            i += 1;
        }
        proof {
            lemma_concat_take_all(in_parts);
        }
        material.append("|outputs:");
        let ghost out_parts = self.outputs@.map_values(|o: TxOutput| output_part(o));
        let ghost mid = material@;
        let mut j: usize = 0;
        while j < self.outputs.len()
            invariant
                out_parts == self.outputs@.map_values(|o: TxOutput| output_part(o)),
                j <= self.outputs.len(),
                material@ == mid + concat_all(out_parts.take(j as int)),
            decreases self.outputs.len() - j,
        {
            proof {
                lemma_concat_take_step(out_parts, j as int);
            }
            append_output_part(&mut material, &self.outputs[j]);
            assert(material@ =~= mid + concat_all(out_parts.take(j + 1)));
            j += 1;
        }
        proof {
            lemma_concat_take_all(out_parts);
        }
        assert(material@ =~= tx_material(*self));
        material
    }
}

impl Hashable for Block {
    open spec fn material(&self) -> Seq<char> {
        block_material(*self)
    }

    /// Return `block:<block_hash>|prev:<previous_block_hash>|merkle:<merkle_root>|height:<height>|txs:<txid>;...`
    fn hash_material(&self) -> (r: String) {
        let mut material = String::from_str("block:");
        material.append(self.header.block_hash.as_str());
        material.append("|prev:");
        material.append(self.header.previous_block_hash.as_str());
        material.append("|merkle:");
        material.append(self.header.merkle_root.as_str());
        material.append("|height:");
        push_decimal(&mut material, self.height);
        material.append("|txs:");
        append_txid_parts(&mut material, &self.transactions);
        assert(material@ =~= block_material(*self));
        material
    }
}

/// The SHA-256 hash of each transaction's material, in order.
pub(crate) fn leaf_hashes(transactions: &[Transaction]) -> (r: Vec<String>)
    ensures
        r.len() == transactions.len(),
        string_views(r@) == tx_leaf_hashes(transactions@),
        forall|i: int| 0 <= i < r.len() ==> is_hex_digest(#[trigger] r@[i]@),
{
    let mut hashes: Vec<String> = Vec::new();
    let mut i: usize = 0;
    while i < transactions.len()
        invariant
            i <= transactions.len(),
            hashes.len() == i,
            forall|j: int| 0 <= j < i ==> (#[trigger] hashes@[j])@ == sha256_hex(tx_material(transactions@[j])),
            forall|j: int| 0 <= j < i ==> is_hex_digest(#[trigger] hashes@[j]@),
        decreases transactions.len() - i,
    {
        let hash = transactions[i].hash_hex();
        hashes.push(hash);
        i += 1;
    }
    assert(string_views(hashes@) =~= tx_leaf_hashes(transactions@));
    hashes
}

/// A block's merkle check: it needs transactions, and its header must store
/// the merkle root of them.
pub open spec fn merkle_check(block: Block) -> Result<(), BtcLibError> {
    if block.transactions.len() == 0 {
        Err(BtcLibError::EmptyBlock)
    } else if tx_merkle_root(block.transactions@) == block.header.merkle_root@ {
        Ok(())
    } else {
        Err(BtcLibError::InvalidMerkleRoot)
    }
}

/// Calculate the merkle root of the transactions' hashes; a level with an odd
/// number of hashes pairs its last hash with itself.
pub fn calculate_merkle_root(transactions: &[Transaction]) -> (r: Result<String, BtcLibError>)
    ensures
        transactions.len() == 0 ==> r == Err::<String, BtcLibError>(BtcLibError::EmptyBlock),
        transactions.len() > 0 ==> (r matches Ok(root) && root@ == tx_merkle_root(transactions@)
            && is_hex_digest(root@)),
{
    if transactions.len() == 0 {
        return Err(BtcLibError::EmptyBlock);
    }
    let hashes = leaf_hashes(transactions);
    Ok(merkle_root_from_hashes(hashes))
}

/// Validate that the block header stores the merkle root of its transactions.
pub fn validate_merkle_root(block: &Block) -> (r: Result<(), BtcLibError>)
    ensures
        r == merkle_check(*block),
{
    let expected = match calculate_merkle_root(block.transactions.as_slice()) {
        Ok(root) => root,
        Err(e) => return Err(e),
    };
    if expected == block.header.merkle_root {
        Ok(())
    } else {
        Err(BtcLibError::InvalidMerkleRoot)
    }
}

/// A block whose header stores the root that `calculate_merkle_root` gives for
/// its transactions passes the merkle check, and one whose header stores any
/// other text fails it.
pub proof fn lemma_calculated_root_validates(block: Block, root: Seq<char>)
    requires
        block.transactions.len() > 0,
        root == tx_merkle_root(block.transactions@),
    ensures
        merkle_check(block) is Ok <==> block.header.merkle_root@ == root,
{
}

/// The merkle root of a single transaction is that transaction's hash.
pub proof fn lemma_single_transaction_root(tx: Transaction)
    ensures
        tx_merkle_root(seq![tx]) == sha256_hex(tx_material(tx)),
{
    assert(tx_leaf_hashes(seq![tx]).len() == 1);
}

/// The merkle root of four transactions: the hashes of the first two are
/// hashed together, then those of the last two, each left child first, and
/// then the two parents.
pub proof fn lemma_four_transaction_root(t1: Transaction, t2: Transaction, t3: Transaction, t4: Transaction)
    ensures
        tx_merkle_root(seq![t1, t2, t3, t4]) == sha256_hex(
            sha256_hex(sha256_hex(tx_material(t1)) + sha256_hex(tx_material(t2))) + sha256_hex(
                sha256_hex(tx_material(t3)) + sha256_hex(tx_material(t4)),
            ),
        ),
{
    let h1 = sha256_hex(tx_material(t1));
    let h2 = sha256_hex(tx_material(t2));
    let h3 = sha256_hex(tx_material(t3));
    let h4 = sha256_hex(tx_material(t4));
    assert(tx_leaf_hashes(seq![t1, t2, t3, t4]) =~= seq![h1, h2, h3, h4]);
    lemma_merkle_root_of_four(h1, h2, h3, h4);
}

} // verus!
