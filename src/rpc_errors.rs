//! JSON-RPC error codes and messages for the node's API. The optional
//! `data` of an error (a debug rendering of its cause) is attached by the
//! caller.

use vstd::prelude::*;
use vstd::string::StringExecFns;

verus! {
pub const UNSUPPORTED_REQUEST: i64 = -32000;
pub const NO_WORK: i64 = -32001;
pub const NO_AUTHOR: i64 = -32002;
pub const NO_NEW_WORK: i64 = -32003;
pub const NOT_ENOUGH_DATA: i64 = -32006;
pub const UNKNOWN_ERROR: i64 = -32009;
pub const TRANSACTION_ERROR: i64 = -32010;
pub const EXECUTION_ERROR: i64 = -32015;
pub const EXCEPTION_ERROR: i64 = -32016;
pub const ACCOUNT_LOCKED: i64 = -32020;
pub const PASSWORD_INVALID: i64 = -32021;
pub const ACCOUNT_ERROR: i64 = -32023;
pub const SIGNER_DISABLED: i64 = -32030;
pub const DAPPS_DISABLED: i64 = -32031;
pub const NETWORK_DISABLED: i64 = -32035;
pub const REQUEST_REJECTED: i64 = -32040;
pub const REQUEST_REJECTED_LIMIT: i64 = -32041;
pub const REQUEST_NOT_FOUND: i64 = -32042;
pub const COMPILATION_ERROR: i64 = -32050;
pub const ENCRYPTION_ERROR: i64 = -32055;
pub const FETCH_ERROR: i64 = -32060;
pub const NO_FILTER_ERROR: i64 = -32065;

/// The code of a JSON-RPC error.
#[derive(Clone, Copy, Debug, PartialEq, Eq)]
pub enum ErrorCode {
    /// A code from the server range, -32099 to -32000.
    ServerError(i64),
    /// -32603.
    InternalError,
    /// -32602.
    InvalidParams,
}

impl ErrorCode {
    /// The number sent on the wire.
    pub fn code(&self) -> (r: i64)
        ensures
            r == match *self {
                ErrorCode::ServerError(c) => c as int,
                ErrorCode::InternalError => -32603,
                ErrorCode::InvalidParams => -32602,
            },
    {
        match *self {
            ErrorCode::ServerError(c) => c,
            ErrorCode::InternalError => -32603,
            ErrorCode::InvalidParams => -32602,
        }
    }
}

/// A JSON-RPC error without its data.
#[derive(Debug, PartialEq, Eq)]
pub struct RpcError {
    pub code: ErrorCode,
    pub message: String,
}

/// `prefix` followed by `detail`.
fn joined(prefix: &str, detail: &str) -> (r: String)
    ensures
        r@ == prefix@ + detail@,
{
    let mut v = prefix.to_owned();
    v.append(detail);
    v
}

/// The request is not implemented.
pub fn unimplemented() -> (r: RpcError)
    ensures
        r.code == ErrorCode::ServerError(UNSUPPORTED_REQUEST),
        r.message@ == "This request is not implemented yet. Please create an issue on Github repo."@,
{
    RpcError { code: ErrorCode::ServerError(UNSUPPORTED_REQUEST), message: "This request is not implemented yet. Please create an issue on Github repo.".to_owned() }
}

/// No request with this id is pending.
pub fn request_not_found() -> (r: RpcError)
    ensures
        r.code == ErrorCode::ServerError(REQUEST_NOT_FOUND),
        r.message@ == "Request not found."@,
{
    RpcError { code: ErrorCode::ServerError(REQUEST_NOT_FOUND), message: "Request not found.".to_owned() }
}

/// The request was rejected.
pub fn request_rejected() -> (r: RpcError)
    ensures
        r.code == ErrorCode::ServerError(REQUEST_REJECTED),
        r.message@ == "Request has been rejected."@,
{
    RpcError { code: ErrorCode::ServerError(REQUEST_REJECTED), message: "Request has been rejected.".to_owned() }
}

/// The request queue is full.
pub fn request_rejected_limit() -> (r: RpcError)
    ensures
        r.code == ErrorCode::ServerError(REQUEST_REJECTED_LIMIT),
        r.message@ == "Request has been rejected because of queue limit."@,
{
    RpcError { code: ErrorCode::ServerError(REQUEST_REJECTED_LIMIT), message: "Request has been rejected because of queue limit.".to_owned() }
}

/// Compiling code failed.
pub fn compilation() -> (r: RpcError)
    ensures
        r.code == ErrorCode::ServerError(COMPILATION_ERROR),
        r.message@ == "Error while compiling code."@,
{
    RpcError { code: ErrorCode::ServerError(COMPILATION_ERROR), message: "Error while compiling code.".to_owned() }
}

/// Executing a transaction failed.
pub fn execution() -> (r: RpcError)
    ensures
        r.code == ErrorCode::ServerError(EXECUTION_ERROR),
        r.message@ == "Transaction execution error."@,
{
    RpcError { code: ErrorCode::ServerError(EXECUTION_ERROR), message: "Transaction execution error.".to_owned() }
}

/// The state the request needs was pruned.
pub fn state_pruned() -> (r: RpcError)
    ensures
        r.code == ErrorCode::ServerError(UNSUPPORTED_REQUEST),
        r.message@ == "This request is not supported because your node is running with state pruning. Run with --pruning=archive."@,
{
    RpcError { code: ErrorCode::ServerError(UNSUPPORTED_REQUEST), message: "This request is not supported because your node is running with state pruning. Run with --pruning=archive.".to_owned() }
}

/// Execution ended in an exception.
pub fn exceptional() -> (r: RpcError)
    ensures
        r.code == ErrorCode::ServerError(EXCEPTION_ERROR),
        r.message@ == "The execution failed due to an exception."@,
{
    RpcError { code: ErrorCode::ServerError(EXCEPTION_ERROR), message: "The execution failed due to an exception.".to_owned() }
}

/// No work while syncing.
pub fn no_work() -> (r: RpcError)
    ensures
        r.code == ErrorCode::ServerError(NO_WORK),
        r.message@ == "Still syncing."@,
{
    RpcError { code: ErrorCode::ServerError(NO_WORK), message: "Still syncing.".to_owned() }
}

/// The work has not changed.
pub fn no_new_work() -> (r: RpcError)
    ensures
        r.code == ErrorCode::ServerError(NO_NEW_WORK),
        r.message@ == "Work has not changed."@,
{
    RpcError { code: ErrorCode::ServerError(NO_NEW_WORK), message: "Work has not changed.".to_owned() }
}

/// No author is configured.
pub fn no_author() -> (r: RpcError)
    ensures
        r.code == ErrorCode::ServerError(NO_AUTHOR),
        r.message@ == "Author not configured. Run Parity with --author to configure."@,
{
    RpcError { code: ErrorCode::ServerError(NO_AUTHOR), message: "Author not configured. Run Parity with --author to configure.".to_owned() }
}

/// Too little data for a statistic.
pub fn not_enough_data() -> (r: RpcError)
    ensures
        r.code == ErrorCode::ServerError(NOT_ENOUGH_DATA),
        r.message@ == "The node does not have enough data to compute the given statistic."@,
{
    RpcError { code: ErrorCode::ServerError(NOT_ENOUGH_DATA), message: "The node does not have enough data to compute the given statistic.".to_owned() }
}

/// Saving authorization tokens failed.
pub fn token() -> (r: RpcError)
    ensures
        r.code == ErrorCode::ServerError(UNKNOWN_ERROR),
        r.message@ == "There was an error when saving your authorization tokens."@,
{
    RpcError { code: ErrorCode::ServerError(UNKNOWN_ERROR), message: "There was an error when saving your authorization tokens.".to_owned() }
}

/// The trusted signer is disabled.
pub fn signer_disabled() -> (r: RpcError)
    ensures
        r.code == ErrorCode::ServerError(SIGNER_DISABLED),
        r.message@ == "Trusted Signer is disabled. This API is not available."@,
{
    RpcError { code: ErrorCode::ServerError(SIGNER_DISABLED), message: "Trusted Signer is disabled. This API is not available.".to_owned() }
}

/// The dapps server is disabled.
pub fn dapps_disabled() -> (r: RpcError)
    ensures
        r.code == ErrorCode::ServerError(DAPPS_DISABLED),
        r.message@ == "Dapps Server is disabled. This API is not available."@,
{
    RpcError { code: ErrorCode::ServerError(DAPPS_DISABLED), message: "Dapps Server is disabled. This API is not available.".to_owned() }
}

/// The network is down.
pub fn network_disabled() -> (r: RpcError)
    ensures
        r.code == ErrorCode::ServerError(NETWORK_DISABLED),
        r.message@ == "Network is disabled or not yet up."@,
{
    RpcError { code: ErrorCode::ServerError(NETWORK_DISABLED), message: "Network is disabled or not yet up.".to_owned() }
}

/// Encryption or decryption failed.
pub fn encryption_error() -> (r: RpcError)
    ensures
        r.code == ErrorCode::ServerError(ENCRYPTION_ERROR),
        r.message@ == "Encryption error."@,
{
    RpcError { code: ErrorCode::ServerError(ENCRYPTION_ERROR), message: "Encryption error.".to_owned() }
}

/// Fetching content failed.
pub fn from_fetch_error() -> (r: RpcError)
    ensures
        r.code == ErrorCode::ServerError(FETCH_ERROR),
        r.message@ == "Error while fetching content."@,
{
    RpcError { code: ErrorCode::ServerError(FETCH_ERROR), message: "Error while fetching content.".to_owned() }
}

/// Signing failed because the account is locked.
pub fn from_signing_error() -> (r: RpcError)
    ensures
        r.code == ErrorCode::ServerError(ACCOUNT_LOCKED),
        r.message@ == "Your account is locked. Unlock the account via CLI, personal_unlockAccount or use Trusted Signer."@,
{
    RpcError { code: ErrorCode::ServerError(ACCOUNT_LOCKED), message: "Your account is locked. Unlock the account via CLI, personal_unlockAccount or use Trusted Signer.".to_owned() }
}

/// The password is wrong or the account unknown.
pub fn from_password_error() -> (r: RpcError)
    ensures
        r.code == ErrorCode::ServerError(PASSWORD_INVALID),
        r.message@ == "Account password is invalid or account does not exist."@,
{
    RpcError { code: ErrorCode::ServerError(PASSWORD_INVALID), message: "Account password is invalid or account does not exist.".to_owned() }
}

/// The RLP input does not decode.
pub fn from_rlp_error() -> (r: RpcError)
    ensures
        r.code == ErrorCode::InvalidParams,
        r.message@ == "Invalid RLP."@,
{
    RpcError { code: ErrorCode::InvalidParams, message: "Invalid RLP.".to_owned() }
}

/// The block is unknown.
pub fn unknown_block() -> (r: RpcError)
    ensures
        r.code == ErrorCode::ServerError(UNSUPPORTED_REQUEST),
        r.message@ == "Unknown block number"@,
{
    RpcError { code: ErrorCode::ServerError(UNSUPPORTED_REQUEST), message: "Unknown block number".to_owned() }
}

/// No filter with this id.
pub fn no_filter_error() -> (r: RpcError)
    ensures
        r.code == ErrorCode::ServerError(NO_FILTER_ERROR),
        r.message@ == "Filter not found"@,
{
    RpcError { code: ErrorCode::ServerError(NO_FILTER_ERROR), message: "Filter not found".to_owned() }
}

/// An account error with the given message.
pub fn account(error: &str) -> (r: RpcError)
    ensures
        r.code == ErrorCode::ServerError(ACCOUNT_ERROR),
        r.message@ == error@,
{
    RpcError { code: ErrorCode::ServerError(ACCOUNT_ERROR), message: error.to_owned() }
}

/// An internal error, described.
pub fn internal(error: &str) -> (r: RpcError)
    ensures
        r.code == ErrorCode::InternalError,
        r.message@ == "Internal error occurred: "@ + error@,
{
    RpcError { code: ErrorCode::InternalError, message: joined("Internal error occurred: ", error) }
}

/// Parameters that do not parse, naming the parameter.
pub fn invalid_params(param: &str) -> (r: RpcError)
    ensures
        r.code == ErrorCode::InvalidParams,
        r.message@ == "Couldn't parse parameters: "@ + param@,
{
    RpcError { code: ErrorCode::InvalidParams, message: joined("Couldn't parse parameters: ", param) }
}

/// A 256-bit unsigned amount: four 64-bit words, least significant first.
#[derive(Clone, Copy, Debug, PartialEq, Eq)]
pub struct U256(pub [u64; 4]);

/// The number that little-endian 64-bit words stand for.
pub open spec fn words_value(w: Seq<u64>) -> nat
    decreases w.len(),
{
    if w.len() == 0 {
        0
    } else {
        w[0] as nat + 0x1_0000_0000_0000_0000 * words_value(w.drop_first())
    }
}

impl U256 {
    pub open spec fn value(self) -> nat {
        words_value(self.0@)
    }
}

/// The character of a decimal digit.
pub open spec fn digit_char(d: nat) -> char {
    if d == 0 {
        '0'
    } else if d == 1 {
        '1'
    } else if d == 2 {
        '2'
    } else if d == 3 {
        '3'
    } else if d == 4 {
        '4'
    } else if d == 5 {
        '5'
    } else if d == 6 {
        '6'
    } else if d == 7 {
        '7'
    } else if d == 8 {
        '8'
    } else {
        '9'
    }
}

/// The decimal digits of `n`, most significant first, without leading zeros.
pub open spec fn decimal(n: nat) -> Seq<char>
    decreases n,
{
    if n < 10 {
        seq![digit_char(n)]
    } else {
        decimal(n / 10).push(digit_char(n % 10))
    }
}

/// Relies on `Display` for `ethereum_types::U256` (from `uint`): the
/// decimal digits of the number, with no sign or padding.
#[verifier::external_body]
fn decimal_string(x: &U256) -> (r: String)
    ensures
        r@ == decimal(x.value()),
{
    ethereum_types::U256(x.0).to_string()
}

/// Bounds a value was found outside of.
#[derive(Clone, Copy, Debug, PartialEq, Eq)]
pub struct OutOfBounds {
    pub min: Option<U256>,
    pub max: Option<U256>,
    pub found: U256,
}

/// Why the transaction queue refused a transaction.
#[derive(Clone, Copy, Debug, PartialEq, Eq)]
pub enum TransactionError {
    AlreadyImported,
    Old,
    TooCheapToReplace,
    LimitReached,
    InsufficientGas { minimal: U256, got: U256 },
    InsufficientGasPrice { minimal: U256, got: U256 },
    InsufficientBalance { balance: U256, cost: U256 },
    GasLimitExceeded { limit: U256, got: U256 },
    InvalidNetworkId,
    InvalidGasLimit(OutOfBounds),
    SenderBanned,
    RecipientBanned,
    CodeBanned,
}

/// A message around two amounts: `a`, the first, `b`, the second, `c`.
pub open spec fn around(a: Seq<char>, x: U256, b: Seq<char>, y: U256, c: Seq<char>) -> Seq<char> {
    a + decimal(x.value()) + b + decimal(y.value()) + c
}

/// The message shown for a refused transaction.
pub open spec fn transaction_text(e: TransactionError) -> Seq<char> {
    match e {
        TransactionError::AlreadyImported => "Transaction with the same hash was already imported."@,
        TransactionError::Old => "Transaction nonce is too low. Try incrementing the nonce."@,
        TransactionError::TooCheapToReplace => "Transaction gas price is too low. There is another transaction with same nonce in the queue. Try increasing the gas price or incrementing the nonce."@,
        TransactionError::LimitReached => "There are too many transactions in the queue. Your transaction was dropped due to limit. Try increasing the fee."@,
        TransactionError::InsufficientGas { minimal, got } => around(
            "Transaction gas is too low. There is not enough gas to cover minimal cost of the transaction (minimal: "@,
            minimal,
            ", got: "@,
            got,
            "). Try increasing supplied gas."@,
        ),
        TransactionError::InsufficientGasPrice { minimal, got } => around(
            "Transaction gas price is too low. It does not satisfy your node's minimal gas price (minimal: "@,
            minimal,
            ", got: "@,
            got,
            "). Try increasing the gas price."@,
        ),
        TransactionError::InsufficientBalance { balance, cost } => around(
            "Insufficient funds. The account you tried to send transaction from does not have enough funds. Required "@,
            cost,
            " and got: "@,
            balance,
            "."@,
        ),
        TransactionError::GasLimitExceeded { limit, got } => around(
            "Transaction cost exceeds current gas limit. Limit: "@,
            limit,
            ", got: "@,
            got,
            ". Try decreasing supplied gas."@,
        ),
        TransactionError::InvalidNetworkId => "Invalid network id."@,
        TransactionError::InvalidGasLimit(_) => "Supplied gas is beyond limit."@,
        TransactionError::SenderBanned => "Sender is banned in local queue."@,
        TransactionError::RecipientBanned => "Recipient is banned in local queue."@,
        TransactionError::CodeBanned => "Code is banned in local queue."@,
    }
}

fn around_string(a: &str, x: &U256, b: &str, y: &U256, c: &str) -> (r: String)
    ensures
        r@ == around(a@, *x, b@, *y, c@),
{
    let mut v = a.to_owned();
    let xs = decimal_string(x);
    v.append(xs.as_str());
    v.append(b);
    let ys = decimal_string(y);
    v.append(ys.as_str());
    v.append(c);
    assert(v@ =~= around(a@, *x, b@, *y, c@));
    v
}

/// The message shown for a refused transaction.
pub fn transaction_message(error: TransactionError) -> (r: String)
    ensures
        r@ == transaction_text(error),
{
    match error {
        TransactionError::AlreadyImported => "Transaction with the same hash was already imported.".to_owned(),
        TransactionError::Old => "Transaction nonce is too low. Try incrementing the nonce.".to_owned(),
        TransactionError::TooCheapToReplace => "Transaction gas price is too low. There is another transaction with same nonce in the queue. Try increasing the gas price or incrementing the nonce.".to_owned(),
        TransactionError::LimitReached => "There are too many transactions in the queue. Your transaction was dropped due to limit. Try increasing the fee.".to_owned(),
        TransactionError::InsufficientGas { minimal, got } => around_string(
            "Transaction gas is too low. There is not enough gas to cover minimal cost of the transaction (minimal: ",
            &minimal,
            ", got: ",
            &got,
            "). Try increasing supplied gas.",
        ),
        TransactionError::InsufficientGasPrice { minimal, got } => around_string(
            "Transaction gas price is too low. It does not satisfy your node's minimal gas price (minimal: ",
            &minimal,
            ", got: ",
            &got,
            "). Try increasing the gas price.",
        ),
        TransactionError::InsufficientBalance { balance, cost } => around_string(
            "Insufficient funds. The account you tried to send transaction from does not have enough funds. Required ",
            &cost,
            " and got: ",
            &balance,
            ".",
        ),
        TransactionError::GasLimitExceeded { limit, got } => around_string(
            "Transaction cost exceeds current gas limit. Limit: ",
            &limit,
            ", got: ",
            &got,
            ". Try decreasing supplied gas.",
        ),
        TransactionError::InvalidNetworkId => "Invalid network id.".to_owned(),
        TransactionError::InvalidGasLimit(_) => "Supplied gas is beyond limit.".to_owned(),
        TransactionError::SenderBanned => "Sender is banned in local queue.".to_owned(),
        TransactionError::RecipientBanned => "Recipient is banned in local queue.".to_owned(),
        TransactionError::CodeBanned => "Code is banned in local queue.".to_owned(),
    }
}

/// An error from sending a transaction: the queue refused it, or something
/// else failed.
#[derive(Clone, Copy, Debug, PartialEq, Eq)]
pub enum SendError {
    Transaction(TransactionError),
    Other,
}

/// The error for a failed send: a refused transaction with its message, or
/// an unknown error (whose cause the caller attaches as data).
pub fn from_transaction_error(error: SendError) -> (r: RpcError)
    ensures
        match error {
            SendError::Transaction(e) => r.code == ErrorCode::ServerError(TRANSACTION_ERROR)
                && r.message@ == transaction_text(e),
            SendError::Other => r.code == ErrorCode::ServerError(UNKNOWN_ERROR) && r.message@
                == "Unknown error when sending transaction."@,
        },
{
    match error {
        SendError::Transaction(e) => RpcError {
            code: ErrorCode::ServerError(TRANSACTION_ERROR),
            message: transaction_message(e),
        },
        SendError::Other => RpcError {
            code: ErrorCode::ServerError(UNKNOWN_ERROR),
            message: "Unknown error when sending transaction.".to_owned(),
        },
    }
}

/// Why a call failed.
#[derive(Clone, Copy, Debug, PartialEq, Eq)]
pub enum CallError {
    StatePruned,
    Exceptional,
    Execution,
    TransactionNotFound,
}

/// The error for a failed call.
pub fn from_call_error(error: CallError) -> (r: RpcError)
    ensures
        match error {
            CallError::StatePruned => r.code == ErrorCode::ServerError(UNSUPPORTED_REQUEST)
                && r.message@ == "This request is not supported because your node is running with state pruning. Run with --pruning=archive."@,
            CallError::Exceptional => r.code == ErrorCode::ServerError(EXCEPTION_ERROR)
                && r.message@ == "The execution failed due to an exception."@,
            CallError::Execution => r.code == ErrorCode::ServerError(EXECUTION_ERROR) && r.message@
                == "Transaction execution error."@,
            CallError::TransactionNotFound => r.code == ErrorCode::InternalError && r.message@
                == "Internal error occurred: "@ + "{}, this should not be the case with eth_call, most likely a bug."@,
        },
{
    match error {
        CallError::StatePruned => state_pruned(),
        CallError::Exceptional => exceptional(),
        CallError::Execution => execution(),
        CallError::TransactionNotFound => internal(
            "{}, this should not be the case with eth_call, most likely a bug.",
        ),
    }
}

} // verus!
