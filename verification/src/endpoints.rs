//! The plain data types of the ledger-facing API surface. The serialization
//! derives live on the unverified copies in the surrounding application
//! crate; here stand the bare types, the index codec of the block tag, and
//! the status rendering of a withdrawal.
//!
//! The wire format carries unbounded candid naturals and principals; here
//! they stand as plain values — amounts and indices as 128-bit numbers,
//! principals as their bytes — and the application shell converts.

use vstd::prelude::*;
use vstd::string::StringExecFns;

use crate::text::{decimal_of, u128_decimal};

verus! {

/// A transaction already sent to the other chain, identified by its hash.
#[derive(Clone, PartialEq, Eq, Hash, Debug)]
pub struct EthTransaction {
    pub transaction_hash: String,
}

/// Which block of the other chain a query refers to.
#[derive(Clone, Copy, PartialEq, Eq, Structural, Debug)]
pub enum CandidBlockTag {
    /// The latest mined block.
    Latest,
    /// The latest safe head block.
    Safe,
    /// The latest finalized block.
    Finalized,
}

impl Default for CandidBlockTag {
    fn default() -> (r: CandidBlockTag)
        ensures
            r == CandidBlockTag::Latest,
    {
        CandidBlockTag::Latest
    }
}

/// The compact index under which a block tag travels on the wire.
pub open spec fn block_tag_index_spec(t: CandidBlockTag) -> u8 {
    match t {
        CandidBlockTag::Latest => 0,
        CandidBlockTag::Safe => 1,
        CandidBlockTag::Finalized => 2,
    }
}

impl CandidBlockTag {
    /// Encodes the tag as its wire index.
    pub fn index(&self) -> (r: u8)
        ensures
            r == block_tag_index_spec(*self),
    {
        match self {
            CandidBlockTag::Latest => 0,
            CandidBlockTag::Safe => 1,
            CandidBlockTag::Finalized => 2,
        }
    }

    /// Decodes a wire index; indices outside the three tags are rejected.
    /// Decoding inverts encoding exactly.
    pub fn from_index(i: u8) -> (r: Option<CandidBlockTag>)
        ensures
            match r {
                Some(t) => block_tag_index_spec(t) == i,
                None => i > 2,
            },
            forall|t: CandidBlockTag| block_tag_index_spec(t) == i ==> r == Some(t),
    {
        match i {
            0 => Some(CandidBlockTag::Latest),
            1 => Some(CandidBlockTag::Safe),
            2 => Some(CandidBlockTag::Finalized),
            _ => None,
        }
    }
}

/// A window of the event log: `length` events starting at `start`.
#[derive(Clone, Copy, Debug)]
pub struct GetEventsArg {
    pub start: u64,
    pub length: u64,
}

/// Whether a finalized transaction succeeded on the other chain.
#[derive(Clone, Copy, PartialEq, Eq, Structural, Debug)]
pub enum TransactionStatus {
    Success,
    Failure,
}

/// The price of one transaction under the fee-market rules.
#[derive(Clone, PartialEq, Eq, Debug)]
pub struct Eip1559TransactionPrice {
    pub gas_limit: u128,
    pub max_fee_per_gas: u128,
    pub max_priority_fee_per_gas: u128,
    pub max_transaction_fee: u128,
    pub timestamp: Option<u64>,
}

/// One supported wrapped token.
#[derive(Clone, PartialEq, Eq, Debug)]
pub struct CkErc20Token {
    pub ckerc20_token_symbol: String,
    pub erc20_contract_address: String,
    pub ledger_canister_id: Vec<u8>,
}

/// The latest fee estimate.
#[derive(Clone, Copy, PartialEq, Eq, Debug)]
pub struct GasFeeEstimate {
    pub max_fee_per_gas: u128,
    pub max_priority_fee_per_gas: u128,
    pub timestamp: u64,
}

/// A snapshot of the minter's configuration and observed chain state.
#[derive(Clone, PartialEq, Eq, Debug)]
pub struct MinterInfo {
    pub minter_address: Option<String>,
    pub eth_helper_contract_address: Option<String>,
    pub erc20_helper_contract_address: Option<String>,
    pub supported_ckerc20_tokens: Vec<CkErc20Token>,
    pub minimum_withdrawal_amount: Option<u128>,
    pub ethereum_block_height: Option<CandidBlockTag>,
    pub last_observed_block_number: Option<u128>,
    pub eth_balance: Option<u128>,
    pub last_gas_fee_estimate: Option<GasFeeEstimate>,
}

/// The receipt of an accepted withdrawal request: the burn's ledger index.
#[derive(Clone, Copy, PartialEq, Eq, Debug)]
pub struct RetrieveEthRequest {
    pub block_index: u128,
}

/// How a finalized withdrawal transaction ended.
#[derive(Clone, PartialEq, Eq, Debug)]
pub enum TxFinalizedStatus {
    /// The transaction succeeded on the other chain.
    Success(EthTransaction),
    /// The transaction failed; the reimbursement is on its way.
    PendingReimbursement(EthTransaction),
    /// The transaction failed and the amount was reimbursed.
    Reimbursed { transaction_hash: String, reimbursed_amount: u128, reimbursed_in_block: u128 },
}

/// Where a withdrawal request stands.
#[derive(Clone, PartialEq, Eq, Debug)]
pub enum RetrieveEthStatus {
    NotFound,
    Pending,
    TxCreated,
    TxSent(EthTransaction),
    TxFinalized(TxFinalizedStatus),
}

/// The status line of a withdrawal request.
pub open spec fn retrieve_eth_status_string(s: RetrieveEthStatus) -> Seq<char> {
    match s {
        RetrieveEthStatus::NotFound => "Not Found"@,
        RetrieveEthStatus::Pending => "Pending"@,
        RetrieveEthStatus::TxCreated => "Created"@,
        RetrieveEthStatus::TxSent(tx) => "Sent("@ + tx.transaction_hash@ + ")"@,
        RetrieveEthStatus::TxFinalized(TxFinalizedStatus::Success(tx)) => "Confirmed("@
            + tx.transaction_hash@ + ")"@,
        RetrieveEthStatus::TxFinalized(TxFinalizedStatus::PendingReimbursement(tx)) => {
            "PendingReimbursement("@ + tx.transaction_hash@ + ")"@
        }
        RetrieveEthStatus::TxFinalized(
            TxFinalizedStatus::Reimbursed { transaction_hash, reimbursed_amount, reimbursed_in_block },
        ) => {
            "Failure("@ + transaction_hash@ + ", reimbursed: "@ + decimal_of(
                reimbursed_amount as nat,
            ) + " Wei in block: "@ + decimal_of(reimbursed_in_block as nat) + ")"@
        }
    }
}

impl RetrieveEthStatus {
    /// Renders the status for logs and user output.
    pub fn status_string(&self) -> (r: String)
        ensures
            r@ == retrieve_eth_status_string(*self),
    {
        match self {
            RetrieveEthStatus::NotFound => "Not Found".to_owned(),
            RetrieveEthStatus::Pending => "Pending".to_owned(),
            RetrieveEthStatus::TxCreated => "Created".to_owned(),
            RetrieveEthStatus::TxSent(tx) => {
                let mut s = "Sent(".to_owned();
                s.append(tx.transaction_hash.as_str());
                s.append(")");
                s
            }
            RetrieveEthStatus::TxFinalized(TxFinalizedStatus::Success(tx)) => {
                let mut s = "Confirmed(".to_owned();
                s.append(tx.transaction_hash.as_str());
                s.append(")");
                s
            }
            RetrieveEthStatus::TxFinalized(TxFinalizedStatus::PendingReimbursement(tx)) => {
                let mut s = "PendingReimbursement(".to_owned();
                s.append(tx.transaction_hash.as_str());
                s.append(")");
                s
            }
            RetrieveEthStatus::TxFinalized(
                TxFinalizedStatus::Reimbursed {
                    transaction_hash,
                    reimbursed_amount,
                    reimbursed_in_block,
                },
            ) => {
                let mut s = "Failure(".to_owned();
                s.append(transaction_hash.as_str());
                s.append(", reimbursed: ");
                let amount = u128_decimal(*reimbursed_amount);
                s.append(amount.as_str());
                s.append(" Wei in block: ");
                let block = u128_decimal(*reimbursed_in_block);
                s.append(block.as_str());
                s.append(")");
                proof {
                    assert(s@ =~= retrieve_eth_status_string(*self));
                }
                s
            }
        }
    }
}

/// A withdrawal order: the amount and the receiving address.
#[derive(Clone, PartialEq, Eq, Debug)]
pub struct WithdrawalArg {
    pub amount: u128,
    pub recipient: String,
}

/// Why a withdrawal was refused.
#[derive(Clone, PartialEq, Eq, Debug)]
pub enum WithdrawalError {
    AmountTooLow { min_withdrawal_amount: u128 },
    InsufficientFunds { balance: u128 },
    InsufficientAllowance { allowance: u128 },
    RecipientAddressBlocked { address: String },
    TemporarilyUnavailable(String),
}

/// An order to start supporting one more wrapped token.
#[derive(Clone, PartialEq, Eq, Debug)]
pub struct AddCkErc20Token {
    pub chain_id: u128,
    pub address: String,
    pub ckerc20_token_symbol: String,
    pub ckerc20_ledger_id: Vec<u8>,
}

/// A window of the event log with the total count for paging.
#[derive(Clone, PartialEq, Eq, Debug)]
pub struct GetEventsResult {
    pub events: Vec<Event>,
    pub total_event_count: u64,
}

/// One audit-log event: when it happened and what happened.
#[derive(Clone, PartialEq, Eq, Debug)]
pub struct Event {
    pub timestamp: u64,
    pub payload: EventPayload,
}

/// The on-chain log entry an event refers to.
#[derive(Clone, PartialEq, Eq, Debug)]
pub struct EventSource {
    pub transaction_hash: String,
    pub log_index: u128,
}

/// One entry of a transaction's access list.
#[derive(Clone, PartialEq, Eq, Debug)]
pub struct AccessListItem {
    pub address: String,
    pub storage_keys: Vec<Vec<u8>>,
}

/// A transaction prepared for signing.
#[derive(Clone, PartialEq, Eq, Debug)]
pub struct UnsignedTransaction {
    pub chain_id: u128,
    pub nonce: u128,
    pub max_priority_fee_per_gas: u128,
    pub max_fee_per_gas: u128,
    pub gas_limit: u128,
    pub destination: String,
    pub value: u128,
    pub data: Vec<u8>,
    pub access_list: Vec<AccessListItem>,
}

/// The receipt of a mined transaction.
#[derive(Clone, PartialEq, Eq, Debug)]
pub struct TransactionReceipt {
    pub block_hash: String,
    pub block_number: u128,
    pub effective_gas_price: u128,
    pub gas_used: u128,
    pub status: TransactionStatus,
    pub transaction_hash: String,
}

/// What the audit log records. The lifecycle payloads (the initialisation
/// and upgrade arguments) belong to the lifecycle configuration and are not
/// carried here.
#[derive(Clone, PartialEq, Eq, Debug)]
pub enum EventPayload {
    AcceptedDeposit {
        transaction_hash: String,
        block_number: u128,
        log_index: u128,
        from_address: String,
        value: u128,
        principal: Vec<u8>,
    },
    AcceptedErc20Deposit {
        transaction_hash: String,
        block_number: u128,
        log_index: u128,
        from_address: String,
        value: u128,
        principal: Vec<u8>,
        erc20_contract_address: String,
    },
    InvalidDeposit { event_source: EventSource, reason: String },
    MintedCkEth { event_source: EventSource, mint_block_index: u128 },
    SyncedToBlock { block_number: u128 },
    AcceptedEthWithdrawalRequest {
        withdrawal_amount: u128,
        destination: String,
        ledger_burn_index: u128,
        from: Vec<u8>,
        from_subaccount: Option<[u8; 32]>,
        created_at: Option<u64>,
    },
    CreatedTransaction { withdrawal_id: u128, transaction: UnsignedTransaction },
    SignedTransaction { withdrawal_id: u128, raw_transaction: String },
    ReplacedTransaction { withdrawal_id: u128, transaction: UnsignedTransaction },
    FinalizedTransaction { withdrawal_id: u128, transaction_receipt: TransactionReceipt },
    ReimbursedEthWithdrawal {
        reimbursed_in_block: u128,
        withdrawal_id: u128,
        reimbursed_amount: u128,
        transaction_hash: Option<String>,
    },
    SkippedBlock { block_number: u128 },
    AddedCkErc20Token {
        chain_id: u128,
        address: String,
        ckerc20_token_symbol: String,
        ckerc20_ledger_id: Vec<u8>,
    },
    AcceptedErc20WithdrawalRequest {
        max_transaction_fee: u128,
        withdrawal_amount: u128,
        ckerc20_token_symbol: String,
        destination: String,
        cketh_ledger_burn_index: u128,
        ckerc20_ledger_burn_index: u128,
        from: Vec<u8>,
        from_subaccount: Option<[u8; 32]>,
        created_at: u64,
    },
    MintedCkErc20 {
        event_source: EventSource,
        mint_block_index: u128,
        ckerc20_token_symbol: String,
        erc20_contract_address: String,
    },
}

} // verus!
