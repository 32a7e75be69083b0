//! Errors of the miner.

use vstd::prelude::*;

verus! {

/// The ways mining and mempool operations can fail.
#[derive(Clone, Debug, PartialEq, Eq)]
pub enum MinerError {
    DuplicateMempoolTransaction(String),
    TransactionNotFound(String),
    MissingUtxo(String),
    InvalidSpend(String),
    EmptyCandidate,
    InvalidDifficulty,
    NoSolution,
}

/// A `MinerError` with its text payloads taken as characters.
pub enum MinerErrorView {
    DuplicateMempoolTransaction(Seq<char>),
    TransactionNotFound(Seq<char>),
    MissingUtxo(Seq<char>),
    InvalidSpend(Seq<char>),
    EmptyCandidate,
    InvalidDifficulty,
    NoSolution,
}

impl View for MinerError {
    type V = MinerErrorView;

    open spec fn view(&self) -> MinerErrorView {
        match self {
            MinerError::DuplicateMempoolTransaction(s) => MinerErrorView::DuplicateMempoolTransaction(s@),
            MinerError::TransactionNotFound(s) => MinerErrorView::TransactionNotFound(s@),
            MinerError::MissingUtxo(s) => MinerErrorView::MissingUtxo(s@),
            MinerError::InvalidSpend(s) => MinerErrorView::InvalidSpend(s@),
            MinerError::EmptyCandidate => MinerErrorView::EmptyCandidate,
            MinerError::InvalidDifficulty => MinerErrorView::InvalidDifficulty,
            MinerError::NoSolution => MinerErrorView::NoSolution,
        }
    }
}

/// A result with its error taken by its view.
pub open spec fn result_view<T>(r: Result<T, MinerError>) -> Result<T, MinerErrorView> {
    match r {
        Ok(v) => Ok(v),
        Err(e) => Err(e@),
    }
}

} // verus!
