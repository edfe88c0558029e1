//! What goes to and comes back from the transaction pool: requests,
//! responses, and how a response, or the failure to get one, is read.

use vstd::prelude::*;
use crate::felt::{ContractAddress, Felt};
use crate::transaction::AccountTransaction;

verus! {

/// An account as the pool knows it.
#[derive(Clone, Copy, Debug, PartialEq, Eq, Hash, Structural)]
pub struct AccountState {
    pub address: ContractAddress,
    pub nonce: Felt,
}

/// A transaction to add, with the state of its sender's account.
#[derive(Clone, Copy, Debug)]
pub struct AddTransactionArgs {
    pub tx: AccountTransaction,
    pub account_state: AccountState,
}

/// What is known of where a transaction came from over the network.
#[derive(Clone, Debug, PartialEq, Eq)]
pub struct BroadcastedMessageMetadata {
    pub originator_id: Vec<u8>,
}

/// A transaction to add, with what is known of where it came from.
#[derive(Clone, Debug)]
pub struct AddTransactionArgsWrapper {
    pub args: AddTransactionArgs,
    pub p2p_message_metadata: Option<BroadcastedMessageMetadata>,
}

/// A block that was committed: the nonces it left and the transactions it
/// held.
#[derive(Clone, Debug, PartialEq, Eq)]
pub struct CommitBlockArgs {
    pub nonces: Vec<AccountState>,
    pub tx_hashes: Vec<Felt>,
}

/// A request to the pool.
#[derive(Clone, Debug)]
pub enum MempoolRequest {
    AddTransaction(AddTransactionArgsWrapper),
    CommitBlock(CommitBlockArgs),
    GetTransactions(usize),
}

/// Why the pool refused a request: the transaction, or the request, is at
/// fault, and trying again will not help.
#[derive(Clone, Copy, Debug, PartialEq, Eq, Structural)]
pub enum MempoolError {
    DuplicateNonce { address: ContractAddress, nonce: Felt },
    DuplicateTransaction { tx_hash: Felt },
    TransactionNotFound { tx_hash: Felt },
}

/// What the pool answers to each kind of request.
#[derive(Debug)]
pub enum MempoolResponse {
    AddTransaction(Result<(), MempoolError>),
    CommitBlock(Result<(), MempoolError>),
    GetTransactions(Result<Vec<AccountTransaction>, MempoolError>),
}

/// The kind of a response.
#[derive(Clone, Copy, Debug, PartialEq, Eq, Structural)]
pub enum ResponseKind {
    AddTransaction,
    CommitBlock,
    GetTransactions,
}

impl MempoolResponse {
    /// The kind of the response.
    pub open spec fn spec_kind(self) -> ResponseKind {
        match self {
            MempoolResponse::AddTransaction(_) => ResponseKind::AddTransaction,
            MempoolResponse::CommitBlock(_) => ResponseKind::CommitBlock,
            MempoolResponse::GetTransactions(_) => ResponseKind::GetTransactions,
        }
    }

    /// The kind of the response.
    pub fn kind(&self) -> (r: ResponseKind)
        ensures
            r == self.spec_kind(),
    {
        match self {
            MempoolResponse::AddTransaction(_) => ResponseKind::AddTransaction,
            MempoolResponse::CommitBlock(_) => ResponseKind::CommitBlock,
            MempoolResponse::GetTransactions(_) => ResponseKind::GetTransactions,
        }
    }
}

/// Why no usable response came back: the transport is at fault, and the
/// request may be tried again.
#[derive(Clone, Debug, PartialEq, Eq)]
pub enum ClientError {
    /// The request did not get through.
    CommunicationFailure(String),
    /// A response came back that could not be read.
    ResponseDeserializationFailure(String),
    /// A response of another kind came back than the request asks for.
    UnexpectedResponse(ResponseKind),
}

/// Why a call of the pool failed.
#[derive(Clone, Debug, PartialEq, Eq)]
pub enum MempoolClientError {
    /// The transport failed.
    ClientError(ClientError),
    /// The pool refused.
    MempoolError(MempoolError),
}

impl MempoolClientError {
    /// Whether the transport failed, so that the call may be tried again.
    pub fn is_transport_failure(&self) -> (r: bool)
        ensures
            r == (*self is ClientError),
    {
        match self {
            MempoolClientError::ClientError(_) => true,
            MempoolClientError::MempoolError(_) => false,
        }
    }
}

/// The request that adds a transaction.
pub fn add_tx_request(args: AddTransactionArgsWrapper) -> (r: MempoolRequest)
    ensures
        r == MempoolRequest::AddTransaction(args),
{
    MempoolRequest::AddTransaction(args)
}

/// The request that tells of a committed block.
pub fn commit_block_request(args: CommitBlockArgs) -> (r: MempoolRequest)
    ensures
        r == MempoolRequest::CommitBlock(args),
{
    MempoolRequest::CommitBlock(args)
}

/// The request for up to `n_txs` transactions.
pub fn get_txs_request(n_txs: usize) -> (r: MempoolRequest)
    ensures
        r == MempoolRequest::GetTransactions(n_txs),
{
    MempoolRequest::GetTransactions(n_txs)
}

/// Reads what came back for a request to add a transaction. A failure of
/// the transport stays one; a refusal of the pool is the pool's; a
/// response of another kind counts as a failure of the transport.
pub fn add_tx_result(response: Result<MempoolResponse, ClientError>) -> (r: Result<
    (),
    MempoolClientError,
>)
    ensures
        r == match response {
            Err(e) => Err::<(), MempoolClientError>(MempoolClientError::ClientError(e)),
            Ok(MempoolResponse::AddTransaction(Ok(()))) => Ok(()),
            Ok(MempoolResponse::AddTransaction(Err(e))) => Err(MempoolClientError::MempoolError(e)),
            Ok(other) => Err(
                MempoolClientError::ClientError(ClientError::UnexpectedResponse(other.spec_kind())),
            ),
        },
{
    match response {
        Err(e) => Err(MempoolClientError::ClientError(e)),
        Ok(MempoolResponse::AddTransaction(Ok(()))) => Ok(()),
        Ok(MempoolResponse::AddTransaction(Err(e))) => Err(MempoolClientError::MempoolError(e)),
        Ok(other) => Err(
            MempoolClientError::ClientError(ClientError::UnexpectedResponse(other.kind())),
        ),
    }
}

/// Reads what came back for a request that tells of a committed block.
pub fn commit_block_result(response: Result<MempoolResponse, ClientError>) -> (r: Result<
    (),
    MempoolClientError,
>)
    ensures
        r == match response {
            Err(e) => Err::<(), MempoolClientError>(MempoolClientError::ClientError(e)),
            Ok(MempoolResponse::CommitBlock(Ok(()))) => Ok(()),
            Ok(MempoolResponse::CommitBlock(Err(e))) => Err(MempoolClientError::MempoolError(e)),
            Ok(other) => Err(
                MempoolClientError::ClientError(ClientError::UnexpectedResponse(other.spec_kind())),
            ),
        },
{
    match response {
        Err(e) => Err(MempoolClientError::ClientError(e)),
        Ok(MempoolResponse::CommitBlock(Ok(()))) => Ok(()),
        Ok(MempoolResponse::CommitBlock(Err(e))) => Err(MempoolClientError::MempoolError(e)),
        Ok(other) => Err(
            MempoolClientError::ClientError(ClientError::UnexpectedResponse(other.kind())),
        ),
    }
}

/// Reads what came back for a request for transactions.
pub fn get_txs_result(response: Result<MempoolResponse, ClientError>) -> (r: Result<
    Vec<AccountTransaction>,
    MempoolClientError,
>)
    ensures
        r == match response {
            Err(e) => Err::<Vec<AccountTransaction>, MempoolClientError>(
                MempoolClientError::ClientError(e),
            ),
            Ok(MempoolResponse::GetTransactions(Ok(txs))) => Ok(txs),
            Ok(MempoolResponse::GetTransactions(Err(e))) => Err(MempoolClientError::MempoolError(e)),
            Ok(other) => Err(
                MempoolClientError::ClientError(ClientError::UnexpectedResponse(other.spec_kind())),
            ),
        },
{
    match response {
        Err(e) => Err(MempoolClientError::ClientError(e)),
        Ok(MempoolResponse::GetTransactions(Ok(txs))) => Ok(txs),
        Ok(MempoolResponse::GetTransactions(Err(e))) => Err(MempoolClientError::MempoolError(e)),
        Ok(other) => Err(
            MempoolClientError::ClientError(ClientError::UnexpectedResponse(other.kind())),
        ),
    }
}

} // verus!
