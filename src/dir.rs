//! Key directory types: which directory to read, vault keys, and how a
//! failed change of a vault key left the directory.

use vstd::prelude::*;
use crate::keystore::StoreError;

verus! {

/// Which network's key directory to use.
#[derive(Clone, Copy, Debug, PartialEq, Eq)]
pub enum DirectoryType {
    Testnet,
    Main,
}

/// Error of setting a vault key.
#[derive(Debug, PartialEq, Eq)]
pub enum SetKeyError {
    /// The directory is probably inconsistent.
    Fatal(StoreError),
    /// The directory was reverted to its state before the change.
    NonFatalOld(StoreError),
    /// The directory is consistent with the new key.
    NonFatalNew(StoreError),
}

/// A vault's key.
#[derive(Debug, PartialEq, Eq)]
pub struct VaultKey {
    /// Vault password.
    pub password: String,
    /// Number of iterations used to derive the key from the password.
    pub iterations: u32,
}

impl VaultKey {
    /// A vault key from a password and an iteration count.
    pub fn new(password: &str, iterations: u32) -> (r: Self)
        ensures
            r.password@ == password@,
            r.iterations == iterations,
    {
        VaultKey { password: password.to_owned(), iterations }
    }
}

} // verus!
