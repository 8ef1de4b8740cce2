//! Account management for an Ethereum node: in-memory key stores, an
//! unlock table with one-shot, permanent and timed unlocks, rolling session
//! tokens, an address book and per-application visibility of addresses;
//! besides, query-string parameters and the JSON-RPC error table.

pub mod types;
pub mod crypto;
pub mod keystore;
pub mod unlock;
pub mod keyed;
pub mod dapps;
pub mod hardware;
pub mod provider;
pub mod laws;
pub mod dir;
pub mod query;
pub mod rpc_errors;
