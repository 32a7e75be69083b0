//! The ledger model: transactions with spent/unspent outputs, blocks, the
//! validation rules for both, and the network magic numbers.

use vstd::prelude::*;
use crate::seq_sum::{nat_sum, lemma_nat_sum_take_step, lemma_nat_sum_take_le, lemma_nat_sum_take_all};
use crate::text::str_eq;

verus! {

/// The Bitcoin networks this library knows.
#[derive(Clone, Copy, Debug, PartialEq, Eq, Structural)]
pub enum Network {
    Mainnet,
    Testnet,
    Signet,
    Regtest,
}

/// Whether a transaction output has been spent.
#[derive(Clone, Copy, Debug, PartialEq, Eq, Structural)]
pub enum TxStatus {
    Spent,
    Unspent,
}

/// The ways a transaction or a block can break the validation rules.
#[derive(Clone, Debug, PartialEq, Eq, Structural)]
pub enum ValidationError {
    EmptyTxId,
    MissingInputs,
    MissingOutputs,
    ZeroValueOutput,
    EmptyBlock,
    DuplicateTxId,
}

/// A reference to an output of an earlier transaction.
#[derive(Clone, Debug, PartialEq, Eq)]
pub struct TxInput {
    pub previous_txid: String,
    pub previous_vout: u32,
}

/// An amount paid to a recipient. `unique_id` holds the 128 bits of a random
/// (version 4) UUID, most significant byte first.
#[derive(Clone, Debug, PartialEq, Eq)]
pub struct TxOutput {
    pub value_sats: u64,
    pub unique_id: u128,
    pub recipient: String,
    pub status: TxStatus,
}

#[derive(Clone, Debug, PartialEq, Eq)]
pub struct Transaction {
    pub txid: String,
    pub inputs: Vec<TxInput>,
    pub outputs: Vec<TxOutput>,
}

#[derive(Clone, Debug, PartialEq, Eq)]
pub struct BlockHeader {
    pub block_hash: String,
    pub previous_block_hash: String,
    pub merkle_root: String,
    pub timestamp: u64,
    pub nonce: u64,
}

#[derive(Clone, Debug, PartialEq, Eq)]
pub struct Block {
    pub header: BlockHeader,
    pub transactions: Vec<Transaction>,
    pub height: u64,
    pub network: Network,
}

/// Values that carry a stable string identifier.
pub trait Identifiable {
    /// The identifier, as characters.
    spec fn id_view(&self) -> Seq<char>;

    /// Return the stable identifier for this value.
    fn id(&self) -> (r: &str)
        ensures
            r@ == self.id_view(),
    ;
}

/// The UUID version nibble and variant bits.
pub open spec fn uuid_v4_mask() -> u128 {
    0xF000_C000_0000_0000_0000u128
}

/// What every random (version 4) UUID holds under `uuid_v4_mask`: version 4,
/// variant `10`.
pub open spec fn uuid_v4_bits() -> u128 {
    0x4000_8000_0000_0000_0000u128
}

/// Calls `uuid::Uuid::new_v4` and converts the UUID with `as_u128`. The value is
/// random, so the contract claims only what the crate's source fixes for every
/// outcome: the version nibble is 4 and the variant bits are `10`.
#[verifier::external_body]
fn fresh_uuid_v4() -> (r: u128)
    ensures
        r & uuid_v4_mask() == uuid_v4_bits(),
{
    uuid::Uuid::new_v4().as_u128()
}

/// The simplified coinbase rule: txid `coinbase` and no inputs.
pub open spec fn tx_is_coinbase(tx: Transaction) -> bool {
    tx.inputs.len() == 0 && tx.txid@ == "coinbase"@
}

/// The satoshi values of a list of outputs.
pub open spec fn output_values(outs: Seq<TxOutput>) -> Seq<nat> {
    outs.map_values(|o: TxOutput| o.value_sats as nat)
}

/// Total satoshi value of a list of outputs.
pub open spec fn output_total(outs: Seq<TxOutput>) -> nat {
    nat_sum(output_values(outs))
}

/// One for each output with the given status, zero for the others.
pub open spec fn status_marks(outs: Seq<TxOutput>, status: TxStatus) -> Seq<nat> {
    outs.map_values(|o: TxOutput| if o.status == status { 1nat } else { 0nat })
}

/// Number of outputs with the given status.
pub open spec fn status_count(outs: Seq<TxOutput>, status: TxStatus) -> nat {
    nat_sum(status_marks(outs, status))
}

/// The first rule that a transaction breaks, in the order the rules are checked.
pub open spec fn tx_check(tx: Transaction) -> Result<(), ValidationError> {
    if tx.txid@.len() == 0 {
        Err(ValidationError::EmptyTxId)
    } else if !tx_is_coinbase(tx) && tx.inputs.len() == 0 {
        Err(ValidationError::MissingInputs)
    } else if tx.outputs.len() == 0 {
        Err(ValidationError::MissingOutputs)
    } else if exists|i: int| 0 <= i < tx.outputs.len() && #[trigger] tx.outputs@[i].value_sats == 0 {
        Err(ValidationError::ZeroValueOutput)
    } else {
        Ok(())
    }
}

/// Transaction `i` repeats the txid of an earlier transaction.
pub open spec fn txid_seen_before(txs: Seq<Transaction>, i: int) -> bool {
    exists|j: int| 0 <= j < i && #[trigger] txs[j].txid@ == txs[i].txid@
}

/// Block validation from transaction `i` on: each transaction is first checked
/// for a repeated txid, then against the transaction rules.
pub open spec fn block_check_from(txs: Seq<Transaction>, i: int) -> Result<(), ValidationError>
    decreases txs.len() - i,
{
    if i < 0 || i >= txs.len() {
        Ok(())
    } else if txid_seen_before(txs, i) {
        Err(ValidationError::DuplicateTxId)
    } else if tx_check(txs[i]) is Err {
        tx_check(txs[i])
    } else {
        block_check_from(txs, i + 1)
    }
}

/// The first rule that a block breaks.
pub open spec fn block_check(block: Block) -> Result<(), ValidationError> {
    if block.transactions.len() == 0 {
        Err(ValidationError::EmptyBlock)
    } else {
        block_check_from(block.transactions@, 0)
    }
}

/// Total output value of every transaction in a list.
pub open spec fn transactions_total(txs: Seq<Transaction>) -> nat {
    nat_sum(txs.map_values(|t: Transaction| output_total(t.outputs@)))
}

/// Number of unspent outputs across a list of transactions.
pub open spec fn transactions_unspent(txs: Seq<Transaction>) -> nat {
    nat_sum(txs.map_values(|t: Transaction| status_count(t.outputs@, TxStatus::Unspent)))
}

/// The values paid to `recipient` by a list of outputs (zero for other outputs).
pub open spec fn recipient_values(outs: Seq<TxOutput>, recipient: Seq<char>) -> Seq<nat> {
    outs.map_values(|o: TxOutput| if o.recipient@ == recipient { o.value_sats as nat } else { 0nat })
}

/// Value paid to `recipient` across a list of transactions.
pub open spec fn recipient_total(txs: Seq<Transaction>, recipient: Seq<char>) -> nat {
    nat_sum(txs.map_values(|t: Transaction| nat_sum(recipient_values(t.outputs@, recipient))))
}

/// The magic number of each network.
pub open spec fn magic_of(network: Network) -> u32 {
    match network {
        Network::Mainnet => 0xD9B4BEF9u32,
        Network::Testnet => 0x0709110Bu32,
        Network::Signet => 0x40CF030Au32,
        Network::Regtest => 0xDAB5BFFAu32,
    }
}

/// The network whose magic number is `magic`, if any.
pub open spec fn network_of_magic(magic: u32) -> Option<Network> {
    if magic == 0xD9B4BEF9u32 {
        Some(Network::Mainnet)
    } else if magic == 0x0709110Bu32 {
        Some(Network::Testnet)
    } else if magic == 0x40CF030Au32 {
        Some(Network::Signet)
    } else if magic == 0xDAB5BFFAu32 {
        Some(Network::Regtest)
    } else {
        None
    }
}

impl TxInput {
    /// Build a transaction input by copying the previous txid and storing vout.
    pub fn new(previous_txid: &str, previous_vout: u32) -> (r: Self)
        ensures
            r.previous_txid@ == previous_txid@,
            r.previous_vout == previous_vout,
    {
        TxInput { previous_txid: String::from_str(previous_txid), previous_vout }
    }
}

impl TxOutput {
    /// Build a transaction output by copying the recipient and storing value and
    /// status; the output gets a fresh random identifier.
    pub fn new(value_sats: u64, recipient: &str, status: TxStatus) -> (r: Self)
        ensures
            r.value_sats == value_sats,
            r.recipient@ == recipient@,
            r.status == status,
            r.unique_id & uuid_v4_mask() == uuid_v4_bits(),
    {
        TxOutput {
            value_sats,
            unique_id: fresh_uuid_v4(),
            recipient: String::from_str(recipient),
            status,
        }
    }

    /// Return true when this output status is `TxStatus::Unspent`.
    pub fn is_unspent(&self) -> (r: bool)
        ensures
            r == (self.status == TxStatus::Unspent),
    {
        self.status == TxStatus::Unspent
    }
}

impl Transaction {
    /// Build a transaction by copying the txid and storing the provided inputs
    /// and outputs.
    pub fn new(txid: &str, inputs: Vec<TxInput>, outputs: Vec<TxOutput>) -> (r: Self)
        ensures
            r.txid@ == txid@,
            r.inputs == inputs,
            r.outputs == outputs,
    {
        Transaction { txid: String::from_str(txid), inputs, outputs }
    }

    /// Return true for the simplified coinbase rule: txid is `"coinbase"` and
    /// there are no inputs.
    pub fn is_coinbase(&self) -> (r: bool)
        ensures
            r == tx_is_coinbase(*self),
    {
        self.inputs.len() == 0 && str_eq(self.txid.as_str(), "coinbase")
    }

    /// Sum the satoshi value of every output in this transaction.
    pub fn total_output_value(&self) -> (r: u64)
        requires
            output_total(self.outputs@) <= u64::MAX,
        ensures
            r == output_total(self.outputs@),
    {
        let ghost vals = output_values(self.outputs@);
        let mut total: u64 = 0;
        let mut i: usize = 0;
        while i < self.outputs.len()
            invariant
                vals == output_values(self.outputs@),
                nat_sum(vals) <= u64::MAX,
                i <= self.outputs.len(),
                total == nat_sum(vals.take(i as int)),
            decreases self.outputs.len() - i,
        {
            proof {
                lemma_nat_sum_take_step(vals, i as int);
                lemma_nat_sum_take_le(vals, i + 1);
            }
            total = total + self.outputs[i].value_sats;
            i += 1;
        }
        proof {
            lemma_nat_sum_take_all(vals);
        }
        total
    }

    /// Count outputs with the given status.
    fn count_status(&self, status: TxStatus) -> (r: usize)
        ensures
            r == status_count(self.outputs@, status),
    {
        let ghost marks = status_marks(self.outputs@, status);
        let mut count: usize = 0;
        let mut i: usize = 0;
        while i < self.outputs.len()
            invariant
                marks == status_marks(self.outputs@, status),
                i <= self.outputs.len(),
                count == nat_sum(marks.take(i as int)),
                count <= i,
            decreases self.outputs.len() - i,
        {
            proof {
                lemma_nat_sum_take_step(marks, i as int);
            }
            if self.outputs[i].status == status {
                count += 1;
            }
            i += 1;
        }
        proof {
            lemma_nat_sum_take_all(marks);
        }
        count
    }

    /// Count outputs whose status is `TxStatus::Unspent`.
    pub fn unspent_output_count(&self) -> (r: usize)
        ensures
            r == status_count(self.outputs@, TxStatus::Unspent),
    {
        self.count_status(TxStatus::Unspent)
    }

    /// Count outputs whose status is `TxStatus::Spent`.
    pub fn spent_output_count(&self) -> (r: usize)
        ensures
            r == status_count(self.outputs@, TxStatus::Spent),
    {
        self.count_status(TxStatus::Spent)
    }

    /// Validate this transaction: the first broken rule, otherwise `Ok(())`.
    pub fn validate(&self) -> (r: Result<(), ValidationError>)
        ensures
            r == tx_check(*self),
    {
        if self.txid.as_str().unicode_len() == 0 {
            return Err(ValidationError::EmptyTxId);
        }
        if !self.is_coinbase() && self.inputs.len() == 0 {
            return Err(ValidationError::MissingInputs);
        }
        if self.outputs.len() == 0 {
            return Err(ValidationError::MissingOutputs);
        }
        let mut i: usize = 0;
        while i < self.outputs.len()
            invariant
                self.txid@.len() != 0,
                tx_is_coinbase(*self) || self.inputs.len() != 0,
                self.outputs.len() != 0,
                i <= self.outputs.len(),
                forall|j: int| 0 <= j < i ==> self.outputs@[j].value_sats != 0,
            decreases self.outputs.len() - i,
        {
            if self.outputs[i].value_sats == 0 {
                assert(self.outputs@[i as int].value_sats == 0);
                return Err(ValidationError::ZeroValueOutput);
            }
            i += 1;
        }
        Ok(())
    }
}

impl Identifiable for Transaction {
    open spec fn id_view(&self) -> Seq<char> {
        self.txid@
    }

    /// Return this transaction's txid.
    fn id(&self) -> (r: &str) {
        self.txid.as_str()
    }
}

impl BlockHeader {
    /// Build a block header by copying the string fields and storing timestamp
    /// and nonce.
    pub fn new(
        block_hash: &str,
        previous_block_hash: &str,
        merkle_root: &str,
        timestamp: u64,
        nonce: u64,
    ) -> (r: Self)
        ensures
            r.block_hash@ == block_hash@,
            r.previous_block_hash@ == previous_block_hash@,
            r.merkle_root@ == merkle_root@,
            r.timestamp == timestamp,
            r.nonce == nonce,
    {
        BlockHeader {
            block_hash: String::from_str(block_hash),
            previous_block_hash: String::from_str(previous_block_hash),
            merkle_root: String::from_str(merkle_root),
            timestamp,
            nonce,
        }
    }
}

impl Block {
    /// Build a block from the provided header, transactions, height, and network.
    pub fn new(header: BlockHeader, transactions: Vec<Transaction>, height: u64, network: Network) -> (r: Self)
        ensures
            r.header == header,
            r.transactions == transactions,
            r.height == height,
            r.network == network,
    {
        Block { header, transactions, height, network }
    }

    /// Return how many transactions are in this block.
    pub fn transaction_count(&self) -> (r: usize)
        ensures
            r == self.transactions.len(),
    {
        self.transactions.len()
    }

    /// Sum the total output value of all transactions in this block.
    pub fn total_output_value(&self) -> (r: u64)
        requires
            transactions_total(self.transactions@) <= u64::MAX,
        ensures
            r == transactions_total(self.transactions@),
    {
        let ghost vals = self.transactions@.map_values(|t: Transaction| output_total(t.outputs@));
        let mut total: u64 = 0;
        let mut i: usize = 0;
        while i < self.transactions.len()
            invariant
                vals == self.transactions@.map_values(|t: Transaction| output_total(t.outputs@)),
                nat_sum(vals) <= u64::MAX,
                i <= self.transactions.len(),
                total == nat_sum(vals.take(i as int)),
            decreases self.transactions.len() - i,
        {
            proof {
                lemma_nat_sum_take_step(vals, i as int);
                lemma_nat_sum_take_le(vals, i + 1);
            }
            total = total + self.transactions[i].total_output_value();
            i += 1;
        }
        proof {
            lemma_nat_sum_take_all(vals);
        }
        total
    }

    /// Return the first coinbase transaction in this block, if one exists.
    pub fn coinbase_transaction(&self) -> (r: Option<&Transaction>)
        ensures
            match r {
                Some(t) => exists|i: int|
                    0 <= i < self.transactions.len() && *t == self.transactions@[i]
                        && tx_is_coinbase(self.transactions@[i])
                        && forall|j: int| 0 <= j < i ==> !tx_is_coinbase(#[trigger] self.transactions@[j]),
                None => forall|j: int|
                    0 <= j < self.transactions.len() ==> !tx_is_coinbase(#[trigger] self.transactions@[j]),
            },
    {
        let mut i: usize = 0;
        while i < self.transactions.len()
            invariant
                i <= self.transactions.len(),
                forall|j: int| 0 <= j < i ==> !tx_is_coinbase(#[trigger] self.transactions@[j]),
            decreases self.transactions.len() - i,
        {
            if self.transactions[i].is_coinbase() {
                return Some(&self.transactions[i]);
            }
            i += 1;
        }
        None
    }

    /// Return the first transaction with the matching txid, if one exists.
    pub fn find_transaction(&self, txid: &str) -> (r: Option<&Transaction>)
        ensures
            match r {
                Some(t) => exists|i: int|
                    0 <= i < self.transactions.len() && *t == self.transactions@[i]
                        && self.transactions@[i].txid@ == txid@
                        && forall|j: int| 0 <= j < i ==> (#[trigger] self.transactions@[j]).txid@ != txid@,
                None => forall|j: int|
                    0 <= j < self.transactions.len() ==> (#[trigger] self.transactions@[j]).txid@ != txid@,
            },
    {
        let mut i: usize = 0;
        while i < self.transactions.len()
            invariant
                i <= self.transactions.len(),
                forall|j: int| 0 <= j < i ==> (#[trigger] self.transactions@[j]).txid@ != txid@,
            decreases self.transactions.len() - i,
        {
            if str_eq(self.transactions[i].txid.as_str(), txid) {
                return Some(&self.transactions[i]);
            }
            i += 1;
        }
        None
    }

    /// Whether transaction `i` repeats the txid of an earlier transaction.
    fn repeats_earlier_txid(&self, i: usize) -> (r: bool)
        requires
            i < self.transactions.len(),
        ensures
            r == txid_seen_before(self.transactions@, i as int),
    {
        let mut j: usize = 0;
        while j < i
            invariant
                i < self.transactions.len(),
                j <= i,
                forall|k: int| 0 <= k < j ==> (#[trigger] self.transactions@[k]).txid@ != self.transactions@[i as int].txid@,
            decreases i - j,
        {
            if str_eq(self.transactions[j].txid.as_str(), self.transactions[i].txid.as_str()) {
                return true;
            }
            j += 1;
        }
        false
    }

    /// Validate this block: the first broken rule, otherwise `Ok(())`.
    pub fn validate(&self) -> (r: Result<(), ValidationError>)
        ensures
            r == block_check(*self),
    {
        if self.transactions.len() == 0 {
            return Err(ValidationError::EmptyBlock);
        }
        let mut i: usize = 0;
        while i < self.transactions.len()
            invariant
                i <= self.transactions.len(),
                block_check_from(self.transactions@, 0) == block_check_from(self.transactions@, i as int),
            decreases self.transactions.len() - i,
        {
            if self.repeats_earlier_txid(i) {
                return Err(ValidationError::DuplicateTxId);
            }
            let checked = self.transactions[i].validate();
            if checked.is_err() {
                return checked;
            }
            i += 1;
        }
        Ok(())
    }
}

impl Identifiable for Block {
    open spec fn id_view(&self) -> Seq<char> {
        self.header.block_hash@
    }

    /// Return this block's block hash.
    fn id(&self) -> (r: &str) {
        self.header.block_hash.as_str()
    }
}

/// Return the Bitcoin network magic value for a network.
pub fn network_magic(network: Network) -> (r: u32)
    ensures
        r == magic_of(network),
{
    match network {
        Network::Mainnet => 0xD9B4BEF9,
        Network::Testnet => 0x0709110B,
        Network::Signet => 0x40CF030A,
        Network::Regtest => 0xDAB5BFFA,
    }
}

/// Convert a known network magic value back to a `Network`; `None` for unknown
/// magic values.
pub fn network_from_magic(magic: u32) -> (r: Option<Network>)
    ensures
        r == network_of_magic(magic),
{
    if magic == 0xD9B4BEF9 {
        Some(Network::Mainnet)
    } else if magic == 0x0709110B {
        Some(Network::Testnet)
    } else if magic == 0x40CF030A {
        Some(Network::Signet)
    } else if magic == 0xDAB5BFFA {
        Some(Network::Regtest)
    } else {
        None
    }
}

/// Count unspent outputs across all transactions.
pub fn count_unspent_outputs(transactions: &[Transaction]) -> (r: usize)
    requires
        transactions_unspent(transactions@) <= usize::MAX,
    ensures
        r == transactions_unspent(transactions@),
{
    let ghost vals = transactions@.map_values(|t: Transaction| status_count(t.outputs@, TxStatus::Unspent));
    let mut total: usize = 0;
    let mut i: usize = 0;
    while i < transactions.len()
        invariant
            vals == transactions@.map_values(|t: Transaction| status_count(t.outputs@, TxStatus::Unspent)),
            nat_sum(vals) <= usize::MAX,
            i <= transactions.len(),
            total == nat_sum(vals.take(i as int)),
        decreases transactions.len() - i,
    {
        proof {
            lemma_nat_sum_take_step(vals, i as int);
            lemma_nat_sum_take_le(vals, i + 1);
        }
        total = total + transactions[i].unspent_output_count();
        i += 1;
    }
    proof {
        lemma_nat_sum_take_all(vals);
    }
    total
}

/// Value paid to `recipient` by one list of outputs.
fn outputs_value_for(outputs: &Vec<TxOutput>, recipient: &str) -> (r: u64)
    requires
        nat_sum(recipient_values(outputs@, recipient@)) <= u64::MAX,
    ensures
        r == nat_sum(recipient_values(outputs@, recipient@)),
{
    let ghost vals = recipient_values(outputs@, recipient@);
    let mut total: u64 = 0;
    let mut i: usize = 0;
    while i < outputs.len()
        invariant
            vals == recipient_values(outputs@, recipient@),
            nat_sum(vals) <= u64::MAX,
            i <= outputs.len(),
            total == nat_sum(vals.take(i as int)),
        decreases outputs.len() - i,
    {
        proof {
            lemma_nat_sum_take_step(vals, i as int);
            lemma_nat_sum_take_le(vals, i + 1);
        }
        if str_eq(outputs[i].recipient.as_str(), recipient) {
            total = total + outputs[i].value_sats;
        }
        i += 1;
    }
    proof {
        lemma_nat_sum_take_all(vals);
    }
    total
}

/// Sum output values whose recipient exactly matches `recipient`.
pub fn total_value_for_recipient(transactions: &[Transaction], recipient: &str) -> (r: u64)
    requires
        recipient_total(transactions@, recipient@) <= u64::MAX,
    ensures
        r == recipient_total(transactions@, recipient@),
{
    let ghost vals = transactions@.map_values(
        |t: Transaction| nat_sum(recipient_values(t.outputs@, recipient@)),
    );
    let mut total: u64 = 0;
    let mut i: usize = 0;
    while i < transactions.len()
        invariant
            vals == transactions@.map_values(
                |t: Transaction| nat_sum(recipient_values(t.outputs@, recipient@)),
            ),
            nat_sum(vals) <= u64::MAX,
            i <= transactions.len(),
            total == nat_sum(vals.take(i as int)),
        decreases transactions.len() - i,
    {
        proof {
            lemma_nat_sum_take_step(vals, i as int);
            lemma_nat_sum_take_le(vals, i + 1);
        }
        total = total + outputs_value_for(&transactions[i].outputs, recipient);
        i += 1;
    }
    proof {
        lemma_nat_sum_take_all(vals);
    }
    total
}

/// Compare two values through the `Identifiable` trait.
pub fn have_same_id<T: Identifiable, U: Identifiable>(left: &T, right: &U) -> (r: bool)
    ensures
        r == (left.id_view() == right.id_view()),
{
    str_eq(left.id(), right.id())
}

/// Collect ids from trait objects into owned strings, in input order.
pub fn collect_ids(items: &[Box<dyn Identifiable>]) -> (r: Vec<String>)
    ensures
        r.len() == items.len(),
        forall|i: int| 0 <= i < items.len() ==> (#[trigger] r@[i])@ == items@[i].id_view(),
{
    let mut ids: Vec<String> = Vec::new();
    let mut i: usize = 0;
    while i < items.len()
        invariant
            i <= items.len(),
            ids.len() == i,
            forall|j: int| 0 <= j < i ==> (#[trigger] ids@[j])@ == items@[j].id_view(),
        decreases items.len() - i,
    {
        let id = items[i].id();
        ids.push(String::from_str(id));
        i += 1;
    }
    ids
}

/// Block validation from `i` on succeeds exactly when no later transaction
/// repeats an earlier txid and every later transaction passes its own rules.
proof fn lemma_block_check_from_ok(txs: Seq<Transaction>, i: int)
    requires
        0 <= i <= txs.len(),
    ensures
        block_check_from(txs, i) is Ok <==> forall|k: int|
            i <= k < txs.len() ==> !txid_seen_before(txs, k) && (tx_check(#[trigger] txs[k]) is Ok),
    decreases txs.len() - i,
{
    if i < txs.len() {
        lemma_block_check_from_ok(txs, i + 1);
    }
}

/// A block is valid exactly when it has transactions, no two of them share a
/// txid, and each of them is valid on its own.
pub proof fn lemma_block_valid_iff(block: Block)
    ensures
        block_check(block) is Ok <==> {
            let txs = block.transactions@;
            &&& txs.len() > 0
            &&& forall|a: int, b: int|
                0 <= a < b < txs.len() ==> (#[trigger] txs[a]).txid@ != (#[trigger] txs[b]).txid@
            &&& forall|k: int| 0 <= k < txs.len() ==> tx_check(#[trigger] txs[k]) is Ok
        },
{
    let txs = block.transactions@;
    if txs.len() > 0 {
        lemma_block_check_from_ok(txs, 0);
        if block_check(block) is Ok {
            assert forall|a: int, b: int|
                0 <= a < b < txs.len() implies (#[trigger] txs[a]).txid@ != (#[trigger] txs[b]).txid@ by {
                assert(!txid_seen_before(txs, b));
            }
        }
    }
}

/// A transaction is valid exactly when its txid is non-empty, it has inputs
/// (or is the coinbase `coinbase` with none), it has outputs, and every output
/// carries a positive value, whatever the output's status.
pub proof fn lemma_tx_valid_iff(tx: Transaction)
    ensures
        tx_check(tx) is Ok <==> {
            &&& tx.txid@.len() > 0
            &&& tx.inputs.len() > 0 || tx.txid@ == "coinbase"@
            &&& tx.outputs.len() > 0
            &&& forall|i: int| 0 <= i < tx.outputs.len() ==> (#[trigger] tx.outputs@[i]).value_sats > 0
        },
{
}

/// A transaction that passes the txid, input and output-count rules but has
/// an output of value zero, spent or unspent, is rejected with
/// `ZeroValueOutput`.
pub proof fn lemma_zero_value_output_rejected(tx: Transaction, i: int)
    requires
        tx.txid@.len() > 0,
        tx.inputs.len() > 0 || tx.txid@ == "coinbase"@,
        0 <= i < tx.outputs.len(),
        tx.outputs@[i].value_sats == 0,
    ensures
        tx_check(tx) == Err::<(), ValidationError>(ValidationError::ZeroValueOutput),
{
    assert(tx.outputs@[i].value_sats == 0);
}

/// Every output of every transaction of a valid block carries a positive value.
pub proof fn lemma_valid_block_outputs_positive(block: Block)
    requires
        block_check(block) is Ok,
    ensures
        forall|k: int, i: int|
            0 <= k < block.transactions.len() && 0 <= i < block.transactions@[k].outputs.len()
                ==> (#[trigger] block.transactions@[k].outputs@[i]).value_sats > 0,
{
    lemma_block_valid_iff(block);
    assert forall|k: int, i: int|
        0 <= k < block.transactions.len() && 0 <= i < block.transactions@[k].outputs.len()
            implies (#[trigger] block.transactions@[k].outputs@[i]).value_sats > 0 by {
        assert(tx_check(block.transactions@[k]) is Ok);
        lemma_tx_valid_iff(block.transactions@[k]);
    }
}

/// Every output is either spent or unspent, so the two counts add up to the
/// number of outputs.
pub proof fn lemma_spent_unspent_partition(outs: Seq<TxOutput>)
    ensures
        status_count(outs, TxStatus::Spent) + status_count(outs, TxStatus::Unspent) == outs.len(),
    decreases outs.len(),
{
    if outs.len() > 0 {
        lemma_spent_unspent_partition(outs.drop_last());
        assert(status_marks(outs, TxStatus::Spent).drop_last() =~= status_marks(outs.drop_last(), TxStatus::Spent));
        assert(status_marks(outs, TxStatus::Unspent).drop_last() =~= status_marks(outs.drop_last(), TxStatus::Unspent));
    }
}

/// Converting a network to its magic number and back gives the same network,
/// and a magic number that converts to a network is that network's magic number.
pub proof fn lemma_network_magic_round_trip(network: Network, magic: u32)
    ensures
        network_of_magic(magic_of(network)) == Some(network),
        network_of_magic(magic) == Some(network) ==> magic_of(network) == magic,
{
}

} // verus!
