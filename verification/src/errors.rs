//! The error taxonomy of the service.
//!
//! Every fallible operation of the crate reports one of these variants; the
//! HTTP layer maps each to a status code through [`CloudError::status_code`].

use vstd::prelude::*;

verus! {

/// All failures the service can report. Variants carrying a `String` hold a
/// free-form detail that is included in the rendered message.
#[derive(Clone, Debug, PartialEq, Eq)]
pub enum CloudError {
    BadRequest(String),
    CustodyLockError,
    StateSyncError,
    IncorrectAccountId,
    AccountNotFound,
    DuplicateAccountId,
    InvalidTransactionId,
    DuplicateTransactionId,
    DataBaseReadError(String),
    DataBaseWriteError(String),
    RelayerSendError,
    TransactionNotFound,
    InternalError(String),
    RetriesExhausted,
    TaskRejectedByRelayer(String),
    RetryNeeded,
    AccessDenied,
    PreviousTxFailed,
    InsufficientBalance,
    AccountIsBusy,
    AccountIsNotSynced,
    ServiceIsBusy,
    TransactionExpired,
    TransactionStatusUnknown,
    ConfigError(String),
    Web3Error,
    ReportNotFound,
}

impl CloudError {
    /// The HTTP status the error surfaces as: malformed input, unknown
    /// accounts and bad or duplicate transaction ids are the caller's fault
    /// (400), a failed bearer check is 401, and everything else is an
    /// internal failure (500).
    pub open spec fn status_code_spec(&self) -> u16 {
        match self {
            CloudError::TransactionNotFound
            | CloudError::DuplicateTransactionId
            | CloudError::InvalidTransactionId
            | CloudError::BadRequest(_)
            | CloudError::IncorrectAccountId
            | CloudError::AccountNotFound => 400,
            CloudError::AccessDenied => 401,
            _ => 500,
        }
    }

    pub fn status_code(&self) -> (code: u16)
        ensures
            code == self.status_code_spec(),
    {
        match self {
            CloudError::TransactionNotFound
            | CloudError::DuplicateTransactionId
            | CloudError::InvalidTransactionId
            | CloudError::BadRequest(_)
            | CloudError::IncorrectAccountId
            | CloudError::AccountNotFound => 400,
            CloudError::AccessDenied => 401,
            _ => 500,
        }
    }

    /// The rendered message of the error, as the HTTP layer and the
    /// transaction status report show it.
    pub open spec fn message_spec(&self) -> Seq<char> {
        match self {
            CloudError::BadRequest(d) => "request malformed or invalid: "@ + d@,
            CloudError::CustodyLockError => "internal error"@,
            CloudError::StateSyncError => "internal error"@,
            CloudError::IncorrectAccountId => "bad account id"@,
            CloudError::AccountNotFound => "bad account id"@,
            CloudError::DuplicateAccountId => "duplicate account id"@,
            CloudError::InvalidTransactionId => "request id cannot contain '.'"@,
            CloudError::DuplicateTransactionId => "request id already exists"@,
            CloudError::DataBaseReadError(_) => "internal error"@,
            CloudError::DataBaseWriteError(_) => "internal error"@,
            CloudError::RelayerSendError => "internal error"@,
            CloudError::TransactionNotFound => "request not found"@,
            CloudError::InternalError(d) => "general error occured:'"@ + d@ + "'"@,
            CloudError::RetriesExhausted => "retries exhausted"@,
            CloudError::TaskRejectedByRelayer(d) => "relayer returned error: '"@ + d@ + "'"@,
            CloudError::RetryNeeded => "need retry"@,
            CloudError::AccessDenied => "access denied"@,
            CloudError::PreviousTxFailed => "previous tx failed"@,
            CloudError::InsufficientBalance => "insufficient balance"@,
            CloudError::AccountIsBusy => "account is busy"@,
            CloudError::AccountIsNotSynced => "account is not synced yet"@,
            CloudError::ServiceIsBusy => "service is busy"@,
            CloudError::TransactionExpired => "transaction expired"@,
            CloudError::TransactionStatusUnknown => "transaction status is unknown"@,
            CloudError::ConfigError(_) => "failed to parse config"@,
            CloudError::Web3Error => "rpc error"@,
            CloudError::ReportNotFound => "bad report id"@,
        }
    }

    pub fn message(&self) -> (msg: String)
        ensures
            msg@ == self.message_spec(),
    {
        match self {
            CloudError::BadRequest(d) => {
                let mut msg = String::from_str("request malformed or invalid: ");
                msg.append(d.as_str());
                msg
            },
            CloudError::CustodyLockError => String::from_str("internal error"),
            CloudError::StateSyncError => String::from_str("internal error"),
            CloudError::IncorrectAccountId => String::from_str("bad account id"),
            CloudError::AccountNotFound => String::from_str("bad account id"),
            CloudError::DuplicateAccountId => String::from_str("duplicate account id"),
            CloudError::InvalidTransactionId => String::from_str("request id cannot contain '.'"),
            CloudError::DuplicateTransactionId => String::from_str("request id already exists"),
            CloudError::DataBaseReadError(_) => String::from_str("internal error"),
            CloudError::DataBaseWriteError(_) => String::from_str("internal error"),
            CloudError::RelayerSendError => String::from_str("internal error"),
            CloudError::TransactionNotFound => String::from_str("request not found"),
            CloudError::InternalError(d) => {
                let mut msg = String::from_str("general error occured:'");
                msg.append(d.as_str());
                msg.append("'");
                msg
            },
            CloudError::RetriesExhausted => String::from_str("retries exhausted"),
            CloudError::TaskRejectedByRelayer(d) => {
                let mut msg = String::from_str("relayer returned error: '");
                msg.append(d.as_str());
                msg.append("'");
                msg
            },
            CloudError::RetryNeeded => String::from_str("need retry"),
            CloudError::AccessDenied => String::from_str("access denied"),
            CloudError::PreviousTxFailed => String::from_str("previous tx failed"),
            CloudError::InsufficientBalance => String::from_str("insufficient balance"),
            CloudError::AccountIsBusy => String::from_str("account is busy"),
            CloudError::AccountIsNotSynced => String::from_str("account is not synced yet"),
            CloudError::ServiceIsBusy => String::from_str("service is busy"),
            CloudError::TransactionExpired => String::from_str("transaction expired"),
            CloudError::TransactionStatusUnknown => {
                String::from_str("transaction status is unknown")
            },
            CloudError::ConfigError(_) => String::from_str("failed to parse config"),
            CloudError::Web3Error => String::from_str("rpc error"),
            CloudError::ReportNotFound => String::from_str("bad report id"),
        }
    }
}

} // verus!
