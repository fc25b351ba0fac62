//! The verification client's decision logic.
//!
//! Fetching a transaction's receipt, body and block from the ledger is I/O
//! and lives in the surrounding application; it condenses what it found into
//! a [`LedgerLookup`]. Everything decided from those facts — who sent the
//! transaction, where it went, whether the forum contract saw it, whether
//! enough was paid — is decided here and proved.
//!
//! Addresses compare as ledger address values do: case-insensitively,
//! folded through the library's lowercase item, so a mixed-case claimed
//! author still matches the sender the receipt names.

use vstd::prelude::*;
use crate::text::{lower_of, str_eq, to_lowercase};

verus! {

/// Why a transaction failed verification.
#[derive(Debug, PartialEq, Eq, Structural)]
pub enum VerificationError {
    /// No receipt for the reference.
    TransactionNotFound,
    /// A receipt exists but names no block yet.
    TransactionNotMined,
    /// The sender is not the claimed author.
    SenderMismatch,
    /// The transaction went to another address than the forum contract.
    WrongTargetContract,
    /// No event of the forum contract appears in the receipt.
    NoMatchingEvent,
    /// Less than the required cost was paid.
    InsufficientPayment,
}

/// Where the forum contract lives: network, chain, contract address and
/// the endpoint the fetch layer speaks to.
#[derive(Debug)]
pub struct ContractConfig {
    pub network_name: String,
    pub chain_id: u64,
    pub contract_address: String,
    pub rpc_url: String,
}

/// What the ledger answered for a transaction reference.
#[derive(Debug)]
pub enum LedgerLookup {
    /// No transaction under that reference.
    NotFound,
    /// Known, but not yet included in a block.
    NotMined,
    /// Mined, with the facts read from receipt, body and block. This
    /// covers reverted transactions too: a reverted receipt carries no
    /// logs, so its verification fails with
    /// [`VerificationError::NoMatchingEvent`].
    Mined(TransactionDetails),
}

/// The plain facts fetched for a mined transaction.
#[derive(Debug)]
pub struct TransactionDetails {
    pub hash: String,
    pub from: String,
    pub to: Option<String>,
    pub value: u128,
    pub gas_used: u128,
    pub block_number: u64,
    pub block_timestamp: u64,
    /// Emitting contract address of each receipt log, in order.
    pub log_addresses: Vec<String>,
}

/// Outcome of verifying a post transaction.
#[derive(Debug)]
pub struct PostTransactionVerification {
    pub transaction_hash: String,
    pub sender: String,
    pub block_number: u64,
    pub block_timestamp: u64,
    pub post_id: u64,
    pub points_earned: u64,
    pub value_paid: u128,
    pub gas_used: u128,
    pub verified: bool,
}

/// Outcome of verifying a comment transaction.
#[derive(Debug)]
pub struct CommentTransactionVerification {
    pub transaction_hash: String,
    pub sender: String,
    pub block_number: u64,
    pub block_timestamp: u64,
    pub comment_id: u64,
    pub post_id: u64,
    pub points_earned: u64,
    pub value_paid: u128,
    pub gas_used: u128,
    pub verified: bool,
}

/// The message text of each verification failure.
pub open spec fn spec_error_message(e: VerificationError) -> Seq<char> {
    match e {
        VerificationError::TransactionNotFound => "Transaction does not exist or is not yet confirmed"@,
        VerificationError::TransactionNotMined => "Transaction has not been included in a block yet"@,
        VerificationError::SenderMismatch => "Transaction sender mismatch"@,
        VerificationError::WrongTargetContract => "Transaction target contract address incorrect"@,
        VerificationError::NoMatchingEvent => "No contract event found in transaction"@,
        VerificationError::InsufficientPayment => "Insufficient payment amount"@,
    }
}

impl VerificationError {
    /// Human-readable text of this failure.
    pub fn message(&self) -> (r: String)
        ensures
            r@ == spec_error_message(*self),
    {
        match self {
            VerificationError::TransactionNotFound => "Transaction does not exist or is not yet confirmed".to_owned(),
            VerificationError::TransactionNotMined => "Transaction has not been included in a block yet".to_owned(),
            VerificationError::SenderMismatch => "Transaction sender mismatch".to_owned(),
            VerificationError::WrongTargetContract => "Transaction target contract address incorrect".to_owned(),
            VerificationError::NoMatchingEvent => "No contract event found in transaction".to_owned(),
            VerificationError::InsufficientPayment => "Insufficient payment amount".to_owned(),
        }
    }
}

/// Which failure, if any, verification of a mined transaction yields, given
/// the expected sender, the forum contract's address and the required cost.
pub open spec fn spec_check_details(
    d: TransactionDetails,
    expected_sender: Seq<char>,
    contract_address: Seq<char>,
    required_cost: u128,
) -> Option<VerificationError> {
    if lower_of(d.from@) != lower_of(expected_sender) {
        Some(VerificationError::SenderMismatch)
    } else if !(d.to matches Some(t) && lower_of(t@) == lower_of(contract_address)) {
        Some(VerificationError::WrongTargetContract)
    } else if !(exists|i: int|
        0 <= i < d.log_addresses@.len() && lower_of(d.log_addresses@[i]@) == lower_of(
            contract_address,
        )) {
        Some(VerificationError::NoMatchingEvent)
    } else if d.value < required_cost {
        Some(VerificationError::InsufficientPayment)
    } else {
        None
    }
}

/// Which failure, if any, a lookup yields as a whole.
pub open spec fn spec_verification_outcome(
    lookup: LedgerLookup,
    expected_sender: Seq<char>,
    contract_address: Seq<char>,
    required_cost: u128,
) -> Option<VerificationError> {
    match lookup {
        LedgerLookup::NotFound => Some(VerificationError::TransactionNotFound),
        LedgerLookup::NotMined => Some(VerificationError::TransactionNotMined),
        LedgerLookup::Mined(d) => spec_check_details(d, expected_sender, contract_address, required_cost),
    }
}

/// Whether any address in `v` equals `a` up to letter case.
fn contains_address(v: &Vec<String>, a: &str) -> (r: bool)
    ensures
        r == (exists|i: int| 0 <= i < v@.len() && lower_of(v@[i]@) == lower_of(a@)),
{
    let a_folded = to_lowercase(a);
    let n = v.len();
    let mut i: usize = 0;
    while i < n
        invariant
            n == v@.len(),
            i <= n,
            a_folded@ == lower_of(a@),
            forall|j: int| 0 <= j < i ==> lower_of(v@[j]@) != lower_of(a@),
        decreases n - i,
    {
        let e_folded = to_lowercase(v[i].as_str());
        if str_eq(e_folded.as_str(), a_folded.as_str()) {
            return true;
        }
        i = i + 1;
    }
    false
}

/// Whether two addresses are the same up to letter case.
fn address_eq(a: &str, b: &str) -> (r: bool)
    ensures
        r == (lower_of(a@) == lower_of(b@)),
{
    let a_folded = to_lowercase(a);
    let b_folded = to_lowercase(b);
    str_eq(a_folded.as_str(), b_folded.as_str())
}

/// Verifies a post-payment transaction: the sender must be the claimed
/// author, the target the forum contract, some receipt log must come from
/// that contract — addresses compared case-insensitively — and at least
/// `required_cost` must have been paid. On success the extracted facts are
/// returned; on failure, exactly the first failing check's error.
pub fn verify_post_transaction(
    lookup: LedgerLookup,
    expected_sender: &str,
    contract_address: &str,
    required_cost: u128,
) -> (r: Result<PostTransactionVerification, VerificationError>)
    ensures
        match spec_verification_outcome(lookup, expected_sender@, contract_address@, required_cost) {
            Some(e) => r == Err::<PostTransactionVerification, VerificationError>(e),
            None => {
                &&& r is Ok
                &&& lookup matches LedgerLookup::Mined(d) && {
                    let v = r->Ok_0;
                    &&& v.transaction_hash@ == d.hash@
                    &&& v.sender@ == d.from@
                    &&& v.block_number == d.block_number
                    &&& v.block_timestamp == d.block_timestamp
                    &&& v.post_id == 1
                    &&& v.points_earned == 100
                    &&& v.value_paid == d.value
                    &&& v.gas_used == d.gas_used
                    &&& v.verified
                }
            },
        },
{
    let d = match lookup {
        LedgerLookup::NotFound => {
            return Err(VerificationError::TransactionNotFound);
        },
        LedgerLookup::NotMined => {
            return Err(VerificationError::TransactionNotMined);
        },
        LedgerLookup::Mined(d) => d,
    };
    if !address_eq(d.from.as_str(), expected_sender) {
        return Err(VerificationError::SenderMismatch);
    }
    let target_ok = match &d.to {
        Some(t) => address_eq(t.as_str(), contract_address),
        None => false,
    };
    if !target_ok {
        return Err(VerificationError::WrongTargetContract);
    }
    if !contains_address(&d.log_addresses, contract_address) {
        return Err(VerificationError::NoMatchingEvent);
    }
    if d.value < required_cost {
        return Err(VerificationError::InsufficientPayment);
    }
    Ok(PostTransactionVerification {
        transaction_hash: d.hash,
        sender: d.from,
        block_number: d.block_number,
        block_timestamp: d.block_timestamp,
        post_id: 1,
        points_earned: 100,
        value_paid: d.value,
        gas_used: d.gas_used,
        verified: true,
    })
}

/// Verifies a comment-payment transaction; the checks are those of
/// [`verify_post_transaction`], against the comment cost.
pub fn verify_comment_transaction(
    lookup: LedgerLookup,
    expected_sender: &str,
    contract_address: &str,
    required_cost: u128,
) -> (r: Result<CommentTransactionVerification, VerificationError>)
    ensures
        match spec_verification_outcome(lookup, expected_sender@, contract_address@, required_cost) {
            Some(e) => r == Err::<CommentTransactionVerification, VerificationError>(e),
            None => {
                &&& r is Ok
                &&& lookup matches LedgerLookup::Mined(d) && {
                    let v = r->Ok_0;
                    &&& v.transaction_hash@ == d.hash@
                    &&& v.sender@ == d.from@
                    &&& v.block_number == d.block_number
                    &&& v.block_timestamp == d.block_timestamp
                    &&& v.comment_id == 1
                    &&& v.post_id == 1
                    &&& v.points_earned == 50
                    &&& v.value_paid == d.value
                    &&& v.gas_used == d.gas_used
                    &&& v.verified
                }
            },
        },
{
    let d = match lookup {
        LedgerLookup::NotFound => {
            return Err(VerificationError::TransactionNotFound);
        },
        LedgerLookup::NotMined => {
            return Err(VerificationError::TransactionNotMined);
        },
        LedgerLookup::Mined(d) => d,
    };
    if !address_eq(d.from.as_str(), expected_sender) {
        return Err(VerificationError::SenderMismatch);
    }
    let target_ok = match &d.to {
        Some(t) => address_eq(t.as_str(), contract_address),
        None => false,
    };
    if !target_ok {
        return Err(VerificationError::WrongTargetContract);
    }
    if !contains_address(&d.log_addresses, contract_address) {
        return Err(VerificationError::NoMatchingEvent);
    }
    if d.value < required_cost {
        return Err(VerificationError::InsufficientPayment);
    }
    Ok(CommentTransactionVerification {
        transaction_hash: d.hash,
        sender: d.from,
        block_number: d.block_number,
        block_timestamp: d.block_timestamp,
        comment_id: 1,
        post_id: 1,
        points_earned: 50,
        value_paid: d.value,
        gas_used: d.gas_used,
        verified: true,
    })
}

} // verus!
