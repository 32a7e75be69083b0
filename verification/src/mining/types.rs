//! Transactions, blocks and candidates of the miner, their hash material, and
//! the fee a transaction pays given the values of the outputs it spends.

use vstd::prelude::*;
use crate::hashing::{is_hex_digest, sha256_digest, sha256_hex};
use crate::mining::error::{MinerError, MinerErrorView, result_view};
use crate::seq_sum::{
    concat_all, lemma_concat_take_all, lemma_concat_take_step, lemma_nat_sum_take_all,
    lemma_nat_sum_take_le, lemma_nat_sum_take_step, nat_sum,
};
use crate::text::{decimal, push_decimal};

verus! {

#[derive(Debug, PartialEq, Eq)]
pub struct TxInput {
    pub previous_txid: String,
    pub previous_vout: u32,
}

#[derive(Debug, PartialEq, Eq)]
pub struct TxOutput {
    pub value_sats: u64,
    pub recipient: String,
}

#[derive(Debug, PartialEq, Eq)]
pub struct Transaction {
    pub txid: String,
    pub inputs: Vec<TxInput>,
    pub outputs: Vec<TxOutput>,
}

/// A reference to one output of an earlier transaction.
#[derive(Clone, Debug, PartialEq, Eq, PartialOrd, Ord)]
pub struct OutPoint {
    pub txid: String,
    pub vout: u32,
}

/// An unspent output and where it lives.
#[derive(Clone, Debug, PartialEq, Eq)]
pub struct Utxo {
    pub outpoint: OutPoint,
    pub value_sats: u64,
    pub recipient: String,
}

#[derive(Clone, Debug, PartialEq, Eq)]
pub struct BlockHeader {
    pub previous_block_hash: String,
    pub merkle_root: String,
    pub timestamp: u64,
    pub nonce: u64,
    pub difficulty_prefix: String,
}

#[derive(Clone, Debug, PartialEq, Eq)]
pub struct Block {
    pub header: BlockHeader,
    pub height: u64,
    pub transactions: Vec<Transaction>,
}

/// Everything a block needs except its nonce and merkle root.
#[derive(Clone, Debug, PartialEq, Eq)]
pub struct CandidateBlock {
    pub previous_block_hash: String,
    pub height: u64,
    pub transactions: Vec<Transaction>,
    pub coinbase_recipient: String,
    pub reward_sats: u64,
    pub timestamp: u64,
}

impl Clone for TxInput {
    fn clone(&self) -> (r: Self)
        ensures
            r == *self,
    {
        TxInput { previous_txid: self.previous_txid.clone(), previous_vout: self.previous_vout }
    }
}

impl Clone for TxOutput {
    fn clone(&self) -> (r: Self)
        ensures
            r == *self,
    {
        TxOutput { value_sats: self.value_sats, recipient: self.recipient.clone() }
    }
}

/// A copy of a list of values whose clones equal them.
fn copy_inputs(v: &Vec<TxInput>) -> (r: Vec<TxInput>)
    ensures
        r@ == v@,
{
    let r = v.clone();
    assert(r@ =~= v@);
    r
}

fn copy_outputs(v: &Vec<TxOutput>) -> (r: Vec<TxOutput>)
    ensures
        r@ == v@,
{
    let r = v.clone();
    assert(r@ =~= v@);
    r
}

/// A transaction with its vectors taken as sequences.
pub struct TransactionView {
    pub txid: Seq<char>,
    pub inputs: Seq<TxInput>,
    pub outputs: Seq<TxOutput>,
}

impl View for Transaction {
    type V = TransactionView;

    open spec fn view(&self) -> TransactionView {
        TransactionView { txid: self.txid@, inputs: self.inputs@, outputs: self.outputs@ }
    }
}

/// The views of a list of transactions.
pub open spec fn tx_views(txs: Seq<Transaction>) -> Seq<TransactionView> {
    txs.map_values(|t: Transaction| t@)
}

impl Clone for Transaction {
    fn clone(&self) -> (r: Self)
        ensures
            r@ == self@,
    {
        Transaction {
            txid: self.txid.clone(),
            inputs: copy_inputs(&self.inputs),
            outputs: copy_outputs(&self.outputs),
        }
    }
}

/// Copies of a list of transactions.
pub(crate) fn copy_transactions(v: &Vec<Transaction>) -> (r: Vec<Transaction>)
    ensures
        tx_views(r@) == tx_views(v@),
{
    let mut copies: Vec<Transaction> = Vec::new();
    let mut i: usize = 0;
    while i < v.len()
        invariant
            i <= v.len(),
            copies.len() == i,
            forall|j: int| 0 <= j < i ==> (#[trigger] copies@[j])@ == v@[j]@,
        decreases v.len() - i,
    {
        copies.push(v[i].clone());
        i += 1;
    }
    assert(tx_views(copies@) =~= tx_views(v@));
    copies
}

/// Values with deterministic hash material.
pub trait Hashable {
    /// The material that is hashed, as characters.
    spec fn material(&self) -> Seq<char>;

    /// Return deterministic material that should be hashed.
    fn hash_material(&self) -> (r: String)
        ensures
            r@ == self.material(),
    ;

    /// Return a SHA-256 hex digest of `hash_material()`.
    fn hash_hex(&self) -> (r: String)
        ensures
            r@ == sha256_hex(self.material()),
            is_hex_digest(r@),
    {
        sha256_digest(self.hash_material())
    }
}

/// The output an input spends.
pub open spec fn input_outpoint(input: TxInput) -> OutPoint {
    OutPoint { txid: input.previous_txid, vout: input.previous_vout }
}

/// `<txid>:<vout>`, the label of an outpoint in error messages.
pub open spec fn outpoint_label(outpoint: OutPoint) -> Seq<char> {
    outpoint.txid@ + ":"@ + decimal(outpoint.vout as nat)
}

/// Total satoshi value of a list of outputs.
pub open spec fn output_total(outs: Seq<TxOutput>) -> nat {
    nat_sum(outs.map_values(|o: TxOutput| o.value_sats as nat))
}

/// Total output value of every transaction in a list.
pub open spec fn transactions_total(txs: Seq<Transaction>) -> nat {
    nat_sum(txs.map_values(|t: Transaction| output_total(t.outputs@)))
}

/// Adding up the looked-up values of the inputs from input `i` on, starting
/// from `acc`: the first missing value, or the first sum past `u64::MAX`, ends
/// the scan with an error.
pub open spec fn scan_input_values(
    tx: Transaction,
    values: Seq<Option<u64>>,
    i: int,
    acc: nat,
) -> Result<nat, MinerErrorView>
    decreases tx.inputs.len() - i,
{
    if i < 0 || i >= tx.inputs.len() {
        Ok(acc)
    } else {
        match values[i] {
            None => Err(MinerErrorView::MissingUtxo(outpoint_label(input_outpoint(tx.inputs@[i])))),
            Some(v) => if acc + v > u64::MAX {
                Err(MinerErrorView::InvalidSpend(tx.txid@))
            } else {
                scan_input_values(tx, values, i + 1, (acc + v) as nat)
            },
        }
    }
}

/// The fee a transaction pays when `values[i]` is the looked-up value of the
/// output spent by input `i`: zero for a coinbase transaction, otherwise the
/// input total less the output total.
pub open spec fn fee_from_values(tx: Transaction, values: Seq<Option<u64>>) -> Result<u64, MinerErrorView> {
    if tx.inputs.len() == 0 {
        Ok(0)
    } else {
        match scan_input_values(tx, values, 0, 0) {
            Err(e) => Err(e),
            Ok(total) => if output_total(tx.outputs@) > total {
                Err(MinerErrorView::InvalidSpend(tx.txid@))
            } else {
                Ok((total - output_total(tx.outputs@)) as u64)
            },
        }
    }
}

/// `<previous_txid>:<previous_vout>;`
pub open spec fn input_part(input: TxInput) -> Seq<char> {
    input.previous_txid@ + ":"@ + decimal(input.previous_vout as nat) + ";"@
}

/// `<value>:<recipient>;`
pub open spec fn output_part(output: TxOutput) -> Seq<char> {
    decimal(output.value_sats as nat) + ":"@ + output.recipient@ + ";"@
}

/// `<txid>;` for every transaction, in order.
pub open spec fn txid_list(txs: Seq<Transaction>) -> Seq<char> {
    concat_all(txs.map_values(|t: Transaction| t.txid@ + ";"@))
}

/// `tx:<txid>|inputs:<input>...|outputs:<output>...`
pub open spec fn tx_material(tx: Transaction) -> Seq<char> {
    "tx:"@ + tx.txid@ + "|inputs:"@ + concat_all(tx.inputs@.map_values(|i: TxInput| input_part(i)))
        + "|outputs:"@ + concat_all(tx.outputs@.map_values(|o: TxOutput| output_part(o)))
}

/// The material of a transaction lists every input, in order, as
/// `<previous_txid>:<previous_vout>;`, and then every output, in order.
pub proof fn lemma_tx_material_lists_every_part(tx: Transaction)
    ensures
        tx_material(tx) == "tx:"@ + tx.txid@ + "|inputs:"@ + concat_all(
            Seq::new(
                tx.inputs.len() as nat,
                |i: int| tx.inputs@[i].previous_txid@ + ":"@ + decimal(tx.inputs@[i].previous_vout as nat) + ";"@,
            ),
        ) + "|outputs:"@ + concat_all(
            Seq::new(
                tx.outputs.len() as nat,
                |j: int| decimal(tx.outputs@[j].value_sats as nat) + ":"@ + tx.outputs@[j].recipient@ + ";"@,
            ),
        ),
{
    assert(Seq::new(
        tx.inputs.len() as nat,
        |i: int| tx.inputs@[i].previous_txid@ + ":"@ + decimal(tx.inputs@[i].previous_vout as nat) + ";"@,
    ) =~= tx.inputs@.map_values(|i: TxInput| input_part(i)));
    assert(Seq::new(
        tx.outputs.len() as nat,
        |j: int| decimal(tx.outputs@[j].value_sats as nat) + ":"@ + tx.outputs@[j].recipient@ + ";"@,
    ) =~= tx.outputs@.map_values(|o: TxOutput| output_part(o)));
}

/// Appending an input to a transaction appends its part to the inputs section
/// of the material and leaves the rest as it was.
pub proof fn lemma_tx_material_append_input(tx: Transaction, longer: Transaction, input: TxInput)
    requires
        longer.txid@ == tx.txid@,
        longer.inputs@ == tx.inputs@.push(input),
        longer.outputs@ == tx.outputs@,
    ensures
        tx_material(longer) == "tx:"@ + tx.txid@ + "|inputs:"@ + concat_all(tx.inputs@.map_values(|i: TxInput| input_part(i)))
            + input.previous_txid@ + ":"@ + decimal(input.previous_vout as nat) + ";"@
            + "|outputs:"@ + concat_all(tx.outputs@.map_values(|o: TxOutput| output_part(o))),
{
    let parts = longer.inputs@.map_values(|i: TxInput| input_part(i));
    assert(parts.drop_last() =~= tx.inputs@.map_values(|i: TxInput| input_part(i)));
    assert(longer.outputs@.map_values(|o: TxOutput| output_part(o)) =~= tx.outputs@.map_values(|o: TxOutput| output_part(o)));
}

/// `block:<previous_hash>|height:<height>|merkle:<merkle>|time:<timestamp>|nonce:<nonce>|txs:<txid>;...`
pub open spec fn block_material(block: Block) -> Seq<char> {
    "block:"@ + block.header.previous_block_hash@ + "|height:"@ + decimal(block.height as nat)
        + "|merkle:"@ + block.header.merkle_root@ + "|time:"@ + decimal(block.header.timestamp as nat)
        + "|nonce:"@ + decimal(block.header.nonce as nat) + "|txs:"@ + txid_list(block.transactions@)
}

/// Append `<txid>;` for every transaction, in order.
pub(crate) fn append_txid_list(s: &mut String, txs: &Vec<Transaction>)
    ensures
        final(s)@ == old(s)@ + txid_list(txs@),
{
    let ghost parts = txs@.map_values(|t: Transaction| t.txid@ + ";"@);
    let ghost start = s@;
    let mut i: usize = 0;
    while i < txs.len()
        invariant
            parts == txs@.map_values(|t: Transaction| t.txid@ + ";"@),
            i <= txs.len(),
            s@ == start + concat_all(parts.take(i as int)),
        decreases txs.len() - i,
    {
        proof {
            lemma_concat_take_step(parts, i as int);
        }
        s.append(txs[i].txid.as_str());
        s.append(";");
        assert(s@ =~= start + concat_all(parts.take(i + 1)));
        i += 1;
    }
    proof {
        lemma_concat_take_all(parts);
    }
}

impl TxInput {
    /// Build an input by copying the previous transaction id and output index.
    pub fn new(previous_txid: &str, previous_vout: u32) -> (r: Self)
        ensures
            r.previous_txid@ == previous_txid@,
            r.previous_vout == previous_vout,
    {
        TxInput { previous_txid: String::from_str(previous_txid), previous_vout }
    }

    /// Return this input's previous output as an `OutPoint`.
    pub fn outpoint(&self) -> (r: OutPoint)
        ensures
            r == input_outpoint(*self),
    {
        OutPoint { txid: self.previous_txid.clone(), vout: self.previous_vout }
    }
}

impl TxOutput {
    /// Build an output by copying the recipient and storing the amount.
    pub fn new(value_sats: u64, recipient: &str) -> (r: Self)
        ensures
            r.value_sats == value_sats,
            r.recipient@ == recipient@,
    {
        TxOutput { value_sats, recipient: String::from_str(recipient) }
    }
}

impl Transaction {
    /// Build a transaction from explicit inputs and outputs.
    pub fn new(txid: &str, inputs: Vec<TxInput>, outputs: Vec<TxOutput>) -> (r: Self)
        ensures
            r.txid@ == txid@,
            r.inputs == inputs,
            r.outputs == outputs,
    {
        Transaction { txid: String::from_str(txid), inputs, outputs }
    }

    /// Build a simplified coinbase transaction: no inputs and one output paying
    /// the reward to the miner.
    pub fn coinbase(txid: &str, recipient: &str, reward_sats: u64) -> (r: Self)
        ensures
            r.txid@ == txid@,
            r.inputs.len() == 0,
            r.outputs.len() == 1,
            r.outputs@[0].value_sats == reward_sats,
            r.outputs@[0].recipient@ == recipient@,
    {
        Self::new(txid, Vec::new(), vec![TxOutput::new(reward_sats, recipient)])
    }

    /// Return true when the transaction has no inputs.
    pub fn is_coinbase(&self) -> (r: bool)
        ensures
            r == (self.inputs.len() == 0),
    {
        self.inputs.len() == 0
    }

    /// Sum every output amount.
    pub fn total_output_value(&self) -> (r: u64)
        requires
            output_total(self.outputs@) <= u64::MAX,
        ensures
            r == output_total(self.outputs@),
    {
        let ghost vals = self.outputs@.map_values(|o: TxOutput| o.value_sats as nat);
        let mut total: u64 = 0;
        let mut i: usize = 0;
        while i < self.outputs.len()
            invariant
                vals == self.outputs@.map_values(|o: TxOutput| o.value_sats as nat),
                nat_sum(vals) <= u64::MAX,
                i <= self.outputs.len(),
                total == nat_sum(vals.take(i as int)),
            decreases self.outputs.len() - i,
        {
            proof {
                lemma_nat_sum_take_step(vals, i as int);
                lemma_nat_sum_take_le(vals, i + 1);
            }
            total = total + self.outputs[i].value_sats;
            i += 1;
        }
        proof {
            lemma_nat_sum_take_all(vals);
        }
        total
    }

    /// The label `<txid>:<vout>` of an outpoint.
    fn outpoint_label_string(outpoint: &OutPoint) -> (r: String)
        ensures
            r@ == outpoint_label(*outpoint),
    {
        let mut label = outpoint.txid.clone();
        label.append(":");
        push_decimal(&mut label, outpoint.vout as u64);
        label
    }

    /// One step of the input scan: add the looked-up value of input `i` to
    /// `acc`, or report why the scan ends there.
    fn add_input_value(&self, i: usize, value: Option<u64>, acc: u64) -> (r: Result<u64, MinerError>)
        requires
            i < self.inputs.len(),
        ensures
            forall|values: Seq<Option<u64>>| #![trigger scan_input_values(*self, values, i as int, acc as nat)]
                i < values.len() && values[i as int] == value ==> match r {
                    Ok(next) => scan_input_values(*self, values, i as int, acc as nat)
                        == scan_input_values(*self, values, i + 1, next as nat),
                    Err(e) => scan_input_values(*self, values, i as int, acc as nat) == Err::<nat, MinerErrorView>(e@),
                },
    {
        match value {
            None => {
                let outpoint = self.inputs[i].outpoint();
                Err(MinerError::MissingUtxo(Self::outpoint_label_string(&outpoint)))
            },
            Some(v) => match acc.checked_add(v) {
                Some(next) => Ok(next),
                None => Err(MinerError::InvalidSpend(self.txid.clone())),
            },
        }
    }

    /// The fee once every input has been given a value adding up to `input_total`.
    fn fee_from_total(&self, input_total: u64) -> (r: Result<u64, MinerError>)
        requires
            output_total(self.outputs@) <= u64::MAX,
        ensures
            result_view(r) == (if output_total(self.outputs@) > input_total {
                Err(MinerErrorView::InvalidSpend(self.txid@))
            } else {
                Ok((input_total - output_total(self.outputs@)) as u64)
            }),
    {
        let output_total = self.total_output_value();
        if output_total > input_total {
            return Err(MinerError::InvalidSpend(self.txid.clone()));
        }
        Ok(input_total - output_total)
    }

    /// Return the fee paid by this transaction when `values[i]` is the value of
    /// the output spent by input `i` (`None` when that output is unknown).
    pub fn fee_from_input_values(&self, values: &[Option<u64>]) -> (r: Result<u64, MinerError>)
        requires
            values.len() == self.inputs.len(),
            self.inputs.len() > 0 && scan_input_values(*self, values@, 0, 0) is Ok
                ==> output_total(self.outputs@) <= u64::MAX,
        ensures
            result_view(r) == fee_from_values(*self, values@),
    {
        if self.is_coinbase() {
            return Ok(0);
        }
        let mut input_total: u64 = 0;
        let mut i: usize = 0;
        while i < self.inputs.len()
            invariant
                values.len() == self.inputs.len(),
                i <= self.inputs.len(),
                scan_input_values(*self, values@, 0, 0) == scan_input_values(*self, values@, i as int, input_total as nat),
            decreases self.inputs.len() - i,
        {
            match self.add_input_value(i, values[i], input_total) {
                Ok(next) => input_total = next,
                Err(e) => return Err(e),
            }
            i += 1;
        }
        self.fee_from_total(input_total)
    }

    /// Return the fee paid by this transaction, looking up the value of every
    /// output it spends with `lookup`; inputs are looked up in order until one
    /// is unknown or the running total passes `u64::MAX`.
    pub fn fee_from_utxos<F: FnMut(&OutPoint) -> Option<u64>>(&self, mut lookup: F) -> (r: Result<u64, MinerError>)
        requires
            forall|outpoint: OutPoint| call_requires(lookup, (&outpoint,)),
            self.inputs.len() > 0 ==> (forall|values: Seq<Option<u64>>|
                values.len() == self.inputs.len()
                    && (forall|i: int| 0 <= i < values.len()
                        ==> call_ensures(lookup, (&input_outpoint(self.inputs@[i]),), #[trigger] values[i]))
                    && scan_input_values(*self, values, 0, 0) is Ok
                ==> output_total(self.outputs@) <= u64::MAX),
        ensures
            self.inputs.len() == 0 ==> r == Ok::<u64, MinerError>(0),
            exists|got: Seq<Option<u64>>| {
                &&& got.len() <= self.inputs.len()
                &&& forall|i: int| 0 <= i < got.len()
                    ==> call_ensures(lookup, (&input_outpoint(self.inputs@[i]),), #[trigger] got[i])
                &&& forall|values: Seq<Option<u64>>|
                    values.len() == self.inputs.len() && values.take(got.len() as int) == got
                    ==> #[trigger] fee_from_values(*self, values) == result_view(r)
            },
    {
        let ghost mut got: Seq<Option<u64>> = Seq::empty();
        let ghost initial = lookup;
        if self.is_coinbase() {
            assert(got.len() <= self.inputs.len());
            assert(forall|values: Seq<Option<u64>>|
                values.len() == self.inputs.len() && values.take(got.len() as int) == got
                ==> #[trigger] fee_from_values(*self, values) == result_view(Ok::<u64, MinerError>(0)));
            return Ok(0);
        }
        let mut input_total: u64 = 0;
        let mut i: usize = 0;
        #[verifier::loop_isolation(false)]
        while i < self.inputs.len()
            invariant
                lookup == initial,
                forall|outpoint: OutPoint| call_requires(lookup, (&outpoint,)),
                forall|values: Seq<Option<u64>>|
                    values.len() == self.inputs.len()
                        && (forall|i: int| 0 <= i < values.len()
                            ==> call_ensures(lookup, (&input_outpoint(self.inputs@[i]),), #[trigger] values[i]))
                        && scan_input_values(*self, values, 0, 0) is Ok
                    ==> output_total(self.outputs@) <= u64::MAX,
                self.inputs.len() > 0,
                i <= self.inputs.len(),
                got.len() == i,
                forall|j: int| 0 <= j < got.len()
                    ==> call_ensures(lookup, (&input_outpoint(self.inputs@[j]),), #[trigger] got[j]),
                forall|values: Seq<Option<u64>>|
                    values.len() == self.inputs.len() && values.take(i as int) == got
                    ==> #[trigger] scan_input_values(*self, values, 0, 0)
                        == scan_input_values(*self, values, i as int, input_total as nat),
            decreases self.inputs.len() - i,
        {
            let outpoint = self.inputs[i].outpoint();
            let value = lookup(&outpoint);
            let ghost before = got;
            proof {
                got = got.push(value);
            }
            let step = self.add_input_value(i, value, input_total);
            assert forall|values: Seq<Option<u64>>|
                values.len() == self.inputs.len() && values.take(i + 1) == got
                implies values.take(i as int) == before && values[i as int] == value by {
                assert(values.take(i as int) =~= values.take(i + 1).take(i as int));
                assert(got.take(i as int) =~= before);
                assert(values[i as int] == values.take(i + 1)[i as int]);
            }
            match step {
                Ok(next) => input_total = next,
                Err(e) => {
                    assert forall|values: Seq<Option<u64>>|
                        values.len() == self.inputs.len() && values.take(got.len() as int) == got
                        implies #[trigger] fee_from_values(*self, values) == result_view(
                            Err::<u64, MinerError>(e),
                        ) by {
                        assert(scan_input_values(*self, values, 0, 0)
                            == scan_input_values(*self, values, i as int, input_total as nat));
                    }
                    assert(got.len() <= self.inputs.len());
                    assert(forall|j: int| 0 <= j < got.len()
                        ==> call_ensures(initial, (&input_outpoint(self.inputs@[j]),), #[trigger] got[j]));
                    return Err(e);
                },
            }
            i += 1;
        }
        assert(got.take(i as int) =~= got);
        assert(scan_input_values(*self, got, 0, 0) == scan_input_values(*self, got, i as int, input_total as nat));
        let r = self.fee_from_total(input_total);
        assert forall|values: Seq<Option<u64>>|
            values.len() == self.inputs.len() && values.take(got.len() as int) == got
            implies #[trigger] fee_from_values(*self, values) == result_view(r) by {
            assert(scan_input_values(*self, values, 0, 0)
                == scan_input_values(*self, values, i as int, input_total as nat));
        }
        r
    }
}

impl Hashable for Transaction {
    open spec fn material(&self) -> Seq<char> {
        tx_material(*self)
    }

    /// Return `tx:<txid>|inputs:<previous_txid>:<previous_vout>;...|outputs:<value>:<recipient>;...`
    fn hash_material(&self) -> (r: String) {
        let mut material = String::from_str("tx:");
        material.append(self.txid.as_str());
        material.append("|inputs:");
        let ghost in_parts = self.inputs@.map_values(|i: TxInput| input_part(i));
        let ghost head = material@;
        let mut i: usize = 0;
        while i < self.inputs.len()
            invariant
                in_parts == self.inputs@.map_values(|i: TxInput| input_part(i)),
                i <= self.inputs.len(),
                material@ == head + concat_all(in_parts.take(i as int)),
            decreases self.inputs.len() - i,
        {
            proof {
                lemma_concat_take_step(in_parts, i as int);
            }
            let ghost before = material@;
            material.append(self.inputs[i].previous_txid.as_str());
            material.append(":");
            push_decimal(&mut material, self.inputs[i].previous_vout as u64);
            material.append(";");
            assert(material@ =~= before + input_part(self.inputs@[i as int]));
            assert(material@ =~= head + concat_all(in_parts.take(i + 1)));
            i += 1;
        }
        proof {
            lemma_concat_take_all(in_parts);
        }
        material.append("|outputs:");
        let ghost out_parts = self.outputs@.map_values(|o: TxOutput| output_part(o));
        let ghost mid = material@;
        let mut j: usize = 0;
        while j < self.outputs.len()
            invariant
                out_parts == self.outputs@.map_values(|o: TxOutput| output_part(o)),
                j <= self.outputs.len(),
                material@ == mid + concat_all(out_parts.take(j as int)),
            decreases self.outputs.len() - j,
        {
            proof {
                lemma_concat_take_step(out_parts, j as int);
            }
            let ghost before = material@;
            push_decimal(&mut material, self.outputs[j].value_sats);
            material.append(":");
            material.append(self.outputs[j].recipient.as_str());
            material.append(";");
            assert(material@ =~= before + output_part(self.outputs@[j as int]));
            assert(material@ =~= mid + concat_all(out_parts.take(j + 1)));
            j += 1;
        }
        proof {
            lemma_concat_take_all(out_parts);
        }
        assert(material@ =~= tx_material(*self));
        material
    }
}

impl Hashable for Block {
    open spec fn material(&self) -> Seq<char> {
        block_material(*self)
    }

    /// Return `block:<previous_hash>|height:<height>|merkle:<merkle>|time:<timestamp>|nonce:<nonce>|txs:<txid>;...`
    fn hash_material(&self) -> (r: String) {
        let mut material = String::from_str("block:");
        material.append(self.header.previous_block_hash.as_str());
        material.append("|height:");
        push_decimal(&mut material, self.height);
        material.append("|merkle:");
        material.append(self.header.merkle_root.as_str());
        material.append("|time:");
        push_decimal(&mut material, self.header.timestamp);
        material.append("|nonce:");
        push_decimal(&mut material, self.header.nonce);
        material.append("|txs:");
        append_txid_list(&mut material, &self.transactions);
        assert(material@ =~= block_material(*self));
        material
    }
}

} // verus!
