use account_provider::rpc_errors::{
    account, encryption_error, from_password_error, from_signing_error, from_transaction_error,
    internal, invalid_params, transaction_message, unimplemented, ErrorCode, OutOfBounds,
    TransactionError, U256, SendError, CallError, from_call_error,
};

fn amount(n: u64) -> U256 {
    U256([n, 0, 0, 0])
}

#[test]
fn transaction_messages_carry_amounts() {
    assert_eq!(
        transaction_message(TransactionError::InsufficientGas { minimal: amount(21000), got: amount(100) }),
        "Transaction gas is too low. There is not enough gas to cover minimal cost of the transaction (minimal: 21000, got: 100). Try increasing supplied gas."
    );
    assert_eq!(
        transaction_message(TransactionError::InsufficientBalance { balance: amount(0), cost: U256([0, 1, 0, 0]) }),
        "Insufficient funds. The account you tried to send transaction from does not have enough funds. Required 18446744073709551616 and got: 0."
    );
    assert_eq!(
        transaction_message(TransactionError::GasLimitExceeded { limit: amount(5), got: amount(7) }),
        "Transaction cost exceeds current gas limit. Limit: 5, got: 7. Try decreasing supplied gas."
    );
    assert_eq!(
        transaction_message(TransactionError::InsufficientGasPrice { minimal: amount(20), got: amount(1) }),
        "Transaction gas price is too low. It does not satisfy your node's minimal gas price (minimal: 20, got: 1). Try increasing the gas price."
    );
}

#[test]
fn transaction_messages_without_amounts() {
    assert_eq!(transaction_message(TransactionError::Old), "Transaction nonce is too low. Try incrementing the nonce.");
    assert_eq!(transaction_message(TransactionError::CodeBanned), "Code is banned in local queue.");
    let bounds = OutOfBounds { min: None, max: Some(amount(10)), found: amount(11) };
    assert_eq!(transaction_message(TransactionError::InvalidGasLimit(bounds)), "Supplied gas is beyond limit.");
    let e = from_transaction_error(SendError::Transaction(TransactionError::InvalidNetworkId));
    assert_eq!(e.code.code(), -32010);
    assert_eq!(e.message, "Invalid network id.");
    let e = from_transaction_error(SendError::Other);
    assert_eq!(e.code.code(), -32009);
    assert_eq!(e.message, "Unknown error when sending transaction.");
}

#[test]
fn error_codes_follow_the_table() {
    assert_eq!(unimplemented().code.code(), -32000);
    assert_eq!(from_signing_error().code.code(), -32020);
    assert_eq!(from_password_error().code.code(), -32021);
    assert_eq!(account("bad").code.code(), -32023);
    assert_eq!(account("bad").message, "bad");
    assert_eq!(encryption_error().code.code(), -32055);
    assert_eq!(internal("boom").code, ErrorCode::InternalError);
    assert_eq!(internal("boom").message, "Internal error occurred: boom");
    assert_eq!(invalid_params("x").code.code(), -32602);
    assert_eq!(invalid_params("x").message, "Couldn't parse parameters: x");
}

#[test]
fn call_errors() {
    assert_eq!(from_call_error(CallError::StatePruned).code.code(), -32000);
    assert_eq!(from_call_error(CallError::Exceptional).code.code(), -32016);
    assert_eq!(from_call_error(CallError::Execution).message, "Transaction execution error.");
    let e = from_call_error(CallError::TransactionNotFound);
    assert_eq!(e.code, ErrorCode::InternalError);
    assert_eq!(e.message, "Internal error occurred: {}, this should not be the case with eth_call, most likely a bug.");
}
