//! Error types of the relayer library.

use vstd::prelude::*;

verus! {

/// Why a named event field could not be decoded.
#[derive(Clone, Copy, Debug, PartialEq, Eq)]
pub enum FieldFault {
    /// No field of that name is present in the event data.
    Absent,
    /// The field, or one of its elements, holds the wrong kind of value.
    WrongKind,
    /// The sequence does not hold exactly 32 elements.
    WrongLength,
}

/// Errors of the source-contract side: decoding event data and
/// addressing the contract.
#[derive(Clone, Debug, PartialEq, Eq)]
#[non_exhaustive]
pub enum AzeroContractError {
    AlephClient(String),
    NotAccountId(String),
    InvalidUTF8(String),
    MissingOrInvalidField(String, FieldFault),
}

/// Errors of the listener pipeline.
#[derive(Clone, Debug, PartialEq, Eq)]
#[non_exhaustive]
pub enum AzeroListenerError {
    AlephClient(String),
    FromHex(String),
    Subxt(String),
    Provider(String),
    AzeroContract(AzeroContractError),
    EthConnection(String),
    EthContractListen(String),
    EthContractTx(String),
    BlockNotFound,
    TxNotPresentInBlockOrMempool,
    MissingEventData(String),
    AbiEncode(String),
    Redis(String),
    TooManyEventsInBlock,
    Unexpected,
}

} // verus!
