//! Hardware wallets as the provider sees them: the devices last enumerated
//! and the errors a device reports. Talking to the devices over USB is left
//! to the caller, which hands the device list and signing outcomes in.

use vstd::prelude::*;
use crate::types::Address;

verus! {

/// An error reported by a hardware wallet.
#[derive(Debug, PartialEq, Eq)]
pub enum Error {
    /// The device failed; the text describes how.
    LedgerDeviceError(String),
    /// No connected device holds the key for the address.
    KeyNotFound,
}

impl Error {
    /// The description of the error.
    pub open spec fn text(self) -> Seq<char> {
        match self {
            Error::KeyNotFound => "Key not found for given address."@,
            Error::LedgerDeviceError(d) => d@,
        }
    }

    /// A description of the error.
    pub fn message(&self) -> (r: String)
        ensures
            r@ == self.text(),
    {
        match self {
            Error::KeyNotFound => "Key not found for given address.".to_owned(),
            Error::LedgerDeviceError(d) => d.clone(),
        }
    }
}

/// Which derivation path the devices use.
#[derive(Clone, Copy, Debug, PartialEq, Eq)]
pub enum KeyPath {
    Ethereum,
    EthereumClassic,
}

/// A connected hardware wallet.
#[derive(Debug, PartialEq, Eq)]
pub struct WalletInfo {
    /// Device name.
    pub name: String,
    /// Device manufacturer.
    pub manufacturer: String,
    /// Device serial number.
    pub serial: String,
    /// The address of the key the device holds.
    pub address: Address,
}

pub fn copy_wallet(w: &WalletInfo) -> (r: WalletInfo)
    ensures
        r.name@ == w.name@,
        r.manufacturer@ == w.manufacturer@,
        r.serial@ == w.serial@,
        r.address == w.address,
{
    WalletInfo {
        name: w.name.clone(),
        manufacturer: w.manufacturer.clone(),
        serial: w.serial.clone(),
        address: w.address,
    }
}

/// The devices that are ready to use, and the derivation path chosen for them.
pub struct HardwareWalletManager {
    wallets: Vec<WalletInfo>,
    key_path: KeyPath,
}

impl View for HardwareWalletManager {
    type V = Seq<WalletInfo>;

    closed spec fn view(&self) -> Seq<WalletInfo> {
        self.wallets@
    }
}

impl HardwareWalletManager {
    /// The derivation path in use.
    pub closed spec fn path(&self) -> KeyPath {
        self.key_path
    }

    /// Some connected device holds the key of `a`.
    pub open spec fn knows(&self, a: Address) -> bool {
        exists|i: int| 0 <= i < self@.len() && (#[trigger] self@[i]).address == a
    }

    /// No devices yet, on the Ethereum path.
    pub fn new() -> (r: Self)
        ensures
            r@ == Seq::<WalletInfo>::empty(),
            r.path() == KeyPath::Ethereum,
    {
        HardwareWalletManager { wallets: Vec::new(), key_path: KeyPath::Ethereum }
    }

    /// Selects the derivation path.
    pub fn set_key_path(&mut self, key_path: KeyPath)
        ensures
            final(self)@ == old(self)@,
            final(self).path() == key_path,
    {
        self.key_path = key_path;
    }

    /// Replaces the device list with a fresh enumeration.
    pub fn update_devices(&mut self, wallets: Vec<WalletInfo>)
        ensures
            final(self)@ == wallets@,
            final(self).path() == old(self).path(),
    {
        self.wallets = wallets;
    }

    /// The connected wallets.
    pub fn list_wallets(&self) -> (r: Vec<WalletInfo>)
        ensures
            r@.len() == self@.len(),
            forall|i: int|
                0 <= i < r@.len() ==> (#[trigger] r@[i]).address == self@[i].address
                    && r@[i].name@ == self@[i].name@ && r@[i].manufacturer@
                    == self@[i].manufacturer@ && r@[i].serial@ == self@[i].serial@,
    {
        let mut r: Vec<WalletInfo> = Vec::new();
        let mut i: usize = 0;
        while i < self.wallets.len()
            invariant
                0 <= i <= self.wallets.len(),
                r@.len() == i,
                forall|j: int|
                    0 <= j < i ==> (#[trigger] r@[j]).address == self@[j].address && r@[j].name@
                        == self@[j].name@ && r@[j].manufacturer@ == self@[j].manufacturer@
                        && r@[j].serial@ == self@[j].serial@,
            decreases self.wallets.len() - i,
        {
            r.push(copy_wallet(&self.wallets[i]));
            i += 1;
        }
        r
    }

    /// The first connected wallet that holds the key of `a`.
    pub fn wallet_info(&self, a: &Address) -> (r: Option<WalletInfo>)
        ensures
            match r {
                Some(w) => exists|i: int|
                    0 <= i < self@.len() && (#[trigger] self@[i]).address == *a && w.address == *a
                        && w.name@ == self@[i].name@ && w.manufacturer@ == self@[i].manufacturer@
                        && w.serial@ == self@[i].serial@,
                None => !self.knows(*a),
            },
    {
        let mut i: usize = 0;
        while i < self.wallets.len()
            invariant
                0 <= i <= self.wallets.len(),
                forall|j: int| 0 <= j < i ==> (#[trigger] self@[j]).address != *a,
            decreases self.wallets.len() - i,
        {
            if self.wallets[i].address.same_as(a) {
                let w = copy_wallet(&self.wallets[i]);
                assert(self@[i as int].address == *a);
                return Some(w);
            }
            i += 1;
        }
        None
    }
}

} // verus!
