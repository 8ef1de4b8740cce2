//! The account provider: accounts, unlocking, signing and decryption,
//! session tokens, the address book and what each application may see.

use vstd::prelude::*;
use crate::types::{Address, Message, Public, Secret, Signature};
use crate::crypto::{
    address_of_public,
    generate_key_pair,
    public_of,
    random_string,
    instant_now,
    millis_since,
    signature_of,
    unix_millis,
};
use crate::keystore::{
    KeyState,
    SecretStore,
    decrypt_result,
    password_digest,
    holds_bytes,
    opens_with,
    position,
    KeyStore,
    StoreError,
    StoredKey,
    TransientStore,
    VaultRef,
};
use crate::unlock::{take_step, unlock_step, Unlock, UnlockRecord, UnlockTable};
use crate::dapps::{AccountMeta, AddressBook, DappId, DappsSettingsStore, NewDappsPolicy};
use crate::hardware::{Error as HardwareError, HardwareWalletManager, WalletInfo};

verus! {

/// Errors of signing and decryption.
#[derive(Debug, PartialEq, Eq)]
pub enum SignError {
    /// The account is not unlocked.
    NotUnlocked,
    /// No account with this address.
    NotFound,
    /// The hardware wallet failed.
    Hardware(HardwareError),
    /// The key store failed.
    SStore(StoreError),
}

impl SignError {
    /// A description of the error.
    pub fn message(&self) -> (r: String)
        ensures
            r@ == match *self {
                SignError::NotUnlocked => "Account is locked"@,
                SignError::NotFound => "Account does not exist"@,
                SignError::Hardware(e) => e.text(),
                SignError::SStore(e) => e.text(),
            },
    {
        match self {
            SignError::NotUnlocked => "Account is locked".to_owned(),
            SignError::NotFound => "Account does not exist".to_owned(),
            SignError::Hardware(e) => e.message(),
            SignError::SStore(e) => e.message(),
        }
    }
}

/// Errors of the provider's other operations.
pub type Error = StoreError;

/// Length of a session token.
pub const TOKEN_LENGTH: usize = 16;

impl AccountProvider<KeyStore> {
    /// A provider kept in memory only, without hardware wallets.
    pub fn transient_provider() -> (r: Self)
        ensures
            r.wf(),
            r.store()@ == Seq::<StoredKey>::empty(),
            r.transient()@ == Seq::<StoredKey>::empty(),
            r.unlocks() == Map::<Address, UnlockRecord>::empty(),
            r.book() == Map::<Address, AccountMeta>::empty(),
            r.dapps().whitelist() is None,
            r.dapps().pinned() == Map::<Seq<char>, Seq<Address>>::empty(),
            r.hardware() is None,
            r.hardware_view() is None,
    {
        AccountProvider {
            unlocked: UnlockTable::new(),
            address_book: AddressBook::new(),
            dapps_settings: DappsSettingsStore::new(),
            sstore: KeyStore::new(),
            transient_sstore: transient_sstore(),
            hardware_store: None,
            clock_origin: instant_now(),
        }
    }
}

/// An empty store for session copies.
fn transient_sstore() -> (r: TransientStore)
    ensures
        r.wf(),
        r@ == Seq::<StoredKey>::empty(),
{
    TransientStore::new()
}

/// The view of an optional password.
pub open spec fn opt_view(p: Option<String>) -> Option<Seq<char>> {
    match p {
        Some(s) => Some(s@),
        None => None,
    }
}

/// Account management: holds the key stores, the unlock table, the address
/// book and the application settings.
pub struct AccountProvider<S: SecretStore> {
    unlocked: UnlockTable,
    address_book: AddressBook,
    dapps_settings: DappsSettingsStore,
    sstore: S,
    transient_sstore: TransientStore,
    hardware_store: Option<HardwareWalletManager>,
    /// The monotonic clock's origin; timed unlocks count from it.
    clock_origin: std::time::Instant,
}

impl<S: SecretStore> AccountProvider<S> {
    /// Every part is well formed, and only accounts of the store are unlocked.
    pub closed spec fn wf(&self) -> bool {
        &&& self.unlocked.wf()
        &&& self.address_book.wf()
        &&& self.dapps_settings.wf()
        &&& self.sstore.state().wf()
        &&& self.transient_sstore.wf()
        &&& forall|a: Address| #[trigger] self.unlocked@.contains_key(a) ==> self.sstore.state().has(a)
    }

    /// The main key store.
    pub closed spec fn store(&self) -> KeyState {
        self.sstore.state()
    }

    /// The store of session copies.
    pub closed spec fn transient(&self) -> TransientStore {
        self.transient_sstore
    }

    /// The unlock table.
    pub closed spec fn unlocks(&self) -> Map<Address, UnlockRecord> {
        self.unlocked@
    }

    /// The address book.
    pub closed spec fn book(&self) -> Map<Address, AccountMeta> {
        self.address_book.view()
    }

    /// The application settings.
    pub closed spec fn dapps(&self) -> DappsSettingsStore {
        self.dapps_settings
    }

    /// The hardware wallets, if this provider has a manager for them.
    pub closed spec fn hardware(&self) -> Option<HardwareWalletManager> {
        self.hardware_store
    }

    /// The account addresses, in the store's order.
    pub open spec fn accounts_view(&self) -> Seq<Address> {
        self.store().addresses()
    }

    /// `a` is an account or in the address book.
    pub open spec fn visible(&self, a: Address) -> bool {
        self.book().contains_key(a) || self.accounts_view().contains(a)
    }

    /// The addresses of `s` that are accounts or in the address book, in order.
    pub open spec fn filtered(&self, s: Seq<Address>) -> Seq<Address> {
        s.filter(|a: Address| self.visible(a))
    }

    /// The addresses application `d` sees.
    pub open spec fn dapp_view(&self, d: Seq<char>) -> Seq<Address> {
        if self.dapps().pinned().contains_key(d) {
            self.dapps().pinned()[d]
        } else {
            match self.dapps().whitelist() {
                None => self.accounts_view(),
                Some(w) => self.filtered(w),
            }
        }
    }

    /// The unlock table after unlocking `a` with `pw` in `mode`, and the outcome.
    pub open spec fn unlock_outcome(&self, a: Address, pw: Seq<char>, mode: Unlock) -> (Map<
        Address,
        UnlockRecord,
    >, Result<(), StoreError>) {
        match self.store().check(a, pw) {
            Err(e) => (self.unlocks(), Err(e)),
            Ok(_) => (unlock_step(self.unlocks(), a, pw, mode), Ok(())),
        }
    }

    /// The password an operation on `a` uses at time `now` (the one given,
    /// else the unlock table's), and the table afterwards.
    pub open spec fn password_source(&self, a: Address, password: Option<Seq<char>>, now: u64) -> (
        Map<Address, UnlockRecord>,
        Option<Seq<char>>,
    ) {
        match password {
            Some(p) => (self.unlocks(), Some(p)),
            None => take_step(self.unlocks(), a, now),
        }
    }

    /// The unlock table after signing `message` with `a` at time `now`, and the outcome.
    pub open spec fn sign_outcome(
        &self,
        a: Address,
        password: Option<Seq<char>>,
        message: Message,
        now: u64,
    ) -> (Map<Address, UnlockRecord>, Result<Seq<u8>, SignError>) {
        if !self.store().has(a) {
            (self.unlocks(), Err(SignError::SStore(StoreError::InvalidAccount)))
        } else {
            let (m, pw) = self.password_source(a, password, now);
            match pw {
                None => (m, Err(SignError::NotUnlocked)),
                Some(p) => (
                    m,
                    match self.store().check(a, p) {
                        Err(e) => Err(SignError::SStore(e)),
                        Ok(_) => Ok(
                            signature_of(self.store().entry(a).secret.0@, message.0@)->Some_0,
                        ),
                    },
                ),
            }
        }
    }

    /// The unlock table after decrypting with `a` at time `now`, and the outcome.
    pub open spec fn decrypt_outcome(
        &self,
        a: Address,
        password: Option<Seq<char>>,
        shared_mac: Seq<u8>,
        message: Seq<u8>,
        now: u64,
    ) -> (Map<Address, UnlockRecord>, Result<Seq<u8>, SignError>) {
        if !self.store().has(a) {
            (self.unlocks(), Err(SignError::SStore(StoreError::InvalidAccount)))
        } else {
            let (m, pw) = self.password_source(a, password, now);
            match pw {
                None => (m, Err(SignError::NotUnlocked)),
                Some(p) => (
                    m,
                    match self.store().check(a, p) {
                        Err(e) => Err(SignError::SStore(e)),
                        Ok(_) => match decrypt_result(
                            self.store().entry(a).secret,
                            shared_mac,
                            message,
                        ) {
                            Ok(plain) => Ok(plain),
                            Err(e) => Err(SignError::SStore(e)),
                        },
                    },
                ),
            }
        }
    }

    /// The identifier the key store gave account `a`, if any.
    pub closed spec fn sstore_uuid(&self, a: Address) -> Option<Seq<char>> {
        self.sstore.uuid_of(a)
    }

    /// The wallets of the hardware manager, if there is one.
    pub closed spec fn hardware_view(&self) -> Option<Seq<WalletInfo>> {
        match self.hardware_store {
            Some(h) => Some(h@),
            None => None,
        }
    }

    /// The application settings of `self` and `other` agree.
    pub open spec fn same_dapps(&self, other: &Self) -> bool {
        &&& self.dapps().whitelist() == other.dapps().whitelist()
        &&& self.dapps().pinned() == other.dapps().pinned()
        &&& self.dapps().recent() == other.dapps().recent()
    }

    /// Only the unlock table may differ between `self` and `other`.
    pub open spec fn same_but_unlocks(&self, other: &Self) -> bool {
        &&& self.store()@ == other.store()@
        &&& self.transient()@ == other.transient()@
        &&& self.book() == other.book()
        &&& self.same_dapps(other)
        &&& self.hardware_view() == other.hardware_view()
    }

    /// Only the address book may differ between `self` and `other`.
    pub open spec fn same_but_book(&self, other: &Self) -> bool {
        &&& self.store()@ == other.store()@
        &&& self.transient()@ == other.transient()@
        &&& self.unlocks() == other.unlocks()
        &&& self.same_dapps(other)
        &&& self.hardware_view() == other.hardware_view()
    }

    /// Only the application settings may differ between `self` and `other`.
    pub open spec fn same_but_dapps(&self, other: &Self) -> bool {
        &&& self.store()@ == other.store()@
        &&& self.transient()@ == other.transient()@
        &&& self.unlocks() == other.unlocks()
        &&& self.book() == other.book()
        &&& self.hardware_view() == other.hardware_view()
    }

    /// Only the main store may differ between `self` and `other`.
    pub open spec fn same_but_store(&self, other: &Self) -> bool {
        &&& self.transient()@ == other.transient()@
        &&& self.unlocks() == other.unlocks()
        &&& self.book() == other.book()
        &&& self.same_dapps(other)
        &&& self.hardware_view() == other.hardware_view()
    }

    /// Only the key stores and the unlock table may differ between `self` and `other`.
    pub open spec fn same_but_stores(&self, other: &Self) -> bool {
        &&& self.book() == other.book()
        &&& self.same_dapps(other)
        &&& self.hardware_view() == other.hardware_view()
    }

    /// Only the transient store may differ between `self` and `other`.
    pub open spec fn same_but_transient(&self, other: &Self) -> bool {
        &&& self.store()@ == other.store()@
        &&& self.unlocks() == other.unlocks()
        &&& self.book() == other.book()
        &&& self.same_dapps(other)
        &&& self.hardware_view() == other.hardware_view()
    }
}

impl<S: SecretStore> AccountProvider<S> {
    /// A provider over `sstore`, with a hardware wallet manager.
    pub fn new(sstore: S) -> (r: Self)
        requires
            sstore.state().wf(),
        ensures
            r.wf(),
            r.store() == sstore.state(),
            r.transient()@ == Seq::<StoredKey>::empty(),
            r.unlocks() == Map::<Address, UnlockRecord>::empty(),
            r.book() == Map::<Address, AccountMeta>::empty(),
            r.dapps().whitelist() is None,
            r.dapps().pinned() == Map::<Seq<char>, Seq<Address>>::empty(),
            r.hardware() is Some,
            r.hardware_view() == Some(Seq::<WalletInfo>::empty()),
    {
        AccountProvider {
            unlocked: UnlockTable::new(),
            address_book: AddressBook::new(),
            dapps_settings: DappsSettingsStore::new(),
            sstore,
            transient_sstore: transient_sstore(),
            hardware_store: Some(HardwareWalletManager::new()),
            clock_origin: instant_now(),
        }
    }

    /// Adds an account for `secret` under `password`; it is not unlocked. A
    /// secret that is not a valid key, or whose address is already an
    /// account, is refused.
    pub fn insert_account(&mut self, secret: Secret, password: &str) -> (r: Result<Address, Error>)
        requires
            old(self).wf(),
        ensures
            final(self).wf(),
            final(self).same_but_store(&*old(self)),
            match r {
                Ok(a) => {
                    &&& address_of_public(public_of(secret.0@)->Some_0) == a.0@
                    &&& public_of(secret.0@) is Some
                    &&& !old(self).store().has(a)
                    &&& final(self).accounts_view() == old(self).accounts_view().push(a)
                    &&& final(self).store().password_is(a, password@)
                    &&& final(self).store().entry(a).secret == secret
                },
                Err(e) => final(self).store()@ == old(self).store()@ && (e
                    == StoreError::CreationFailed || e == StoreError::AccountExists),
            },
            public_of(secret.0@) is None <==> r == Err::<Address, Error>(StoreError::CreationFailed),
            r == Err::<Address, Error>(StoreError::AccountExists) <==> (public_of(secret.0@) is Some
                && holds_bytes(old(self).store()@, address_of_public(public_of(secret.0@)->Some_0))),
            r is Ok <==> (public_of(secret.0@) is Some && !holds_bytes(
                old(self).store()@,
                address_of_public(public_of(secret.0@)->Some_0),
            )),
    {
        let r = self.sstore.insert_account(secret, password);
        proof {
            if let Ok(a) = r {
                let s = self.sstore.state()@;
                crate::keystore::lemma_position(s, s.len() - 1);
                assert(self.accounts_view() =~= old(self).accounts_view().push(a));
                crate::keystore::lemma_holds_bytes(old(self).sstore.state()@, a);
            }
        }
        r
    }
}

impl<S: SecretStore> AccountProvider<S> {
    /// Creates an account with a fresh random key; it is not unlocked.
    pub fn new_account(&mut self, password: &str) -> (r: Result<Address, Error>)
        requires
            old(self).wf(),
        ensures
            final(self).wf(),
            final(self).same_but_store(&*old(self)),
            match r {
                Ok(a) => {
                    &&& !old(self).store().has(a)
                    &&& final(self).accounts_view() == old(self).accounts_view().push(a)
                    &&& final(self).store().password_is(a, password@)
                },
                Err(e) => final(self).store()@ == old(self).store()@ && e
                    == StoreError::AccountExists,
            },
            r is Err ==> old(self).store()@.len() > 0,
    {
        match self.new_account_and_public(password) {
            Ok((a, _)) => Ok(a),
            Err(e) => Err(e),
        }
    }

    /// Creates an account with a fresh random key and returns its address
    /// and public key; it is not unlocked.
    pub fn new_account_and_public(
        &mut self,
        password: &str,
    ) -> (r: Result<(Address, Public), Error>)
        requires
            old(self).wf(),
        ensures
            final(self).wf(),
            final(self).same_but_store(&*old(self)),
            match r {
                Ok((a, p)) => {
                    &&& address_of_public(p.0@) == a.0@
                    &&& !old(self).store().has(a)
                    &&& final(self).accounts_view() == old(self).accounts_view().push(a)
                    &&& final(self).store().password_is(a, password@)
                    &&& public_of(final(self).store().entry(a).secret.0@) == Some(p.0@)
                },
                Err(e) => final(self).store()@ == old(self).store()@ && e
                    == StoreError::AccountExists,
            },
            r is Err ==> old(self).store()@.len() > 0,
            r is Err ==> exists|p: Seq<u8>| holds_bytes(old(self).store()@, #[trigger] address_of_public(p)),
    {
        let (secret, public) = generate_key_pair();
        match self.insert_account(secret, password) {
            Ok(a) => {
                assert(public_of(secret.0@) == Some(public.0@));
                Ok((a, public))
            },
            Err(e) => {
                proof {
                    let b = address_of_public(public.0@);
                    assert(holds_bytes(old(self).store()@, b));
                    let i = choose|i: int| 0 <= i < old(self).store()@.len() && (#[trigger] old(self).store()@[i]).address.0@ == b;
                }
                Err(e)
            },
        }
    }

    /// Whether `a` is an account.
    pub fn has_account(&self, a: Address) -> (r: Result<bool, Error>)
        ensures
            r == Ok::<bool, Error>(self.accounts_view().contains(a)),
    {
        let accounts = self.sstore.accounts();
        let mut i: usize = 0;
        while i < accounts.len()
            invariant
                0 <= i <= accounts@.len(),
                accounts@ == self.accounts_view(),
                forall|j: int| 0 <= j < i ==> accounts@[j] != a,
            decreases accounts@.len() - i,
        {
            if accounts[i].same_as(&a) {
                return Ok(true);
            }
            i += 1;
        }
        Ok(false)
    }

    /// The addresses of all accounts, in the store's order.
    pub fn accounts(&self) -> (r: Result<Vec<Address>, Error>)
        ensures
            r is Ok,
            r->Ok_0@ == self.accounts_view(),
    {
        Ok(self.sstore.accounts())
    }

    /// The addresses of the connected hardware wallets (none without a manager).
    pub fn hardware_accounts(&self) -> (r: Result<Vec<Address>, Error>)
        ensures
            r is Ok,
            match self.hardware_view() {
                None => r->Ok_0@ == Seq::<Address>::empty(),
                Some(ws) => r->Ok_0@ == ws.map_values(|w: WalletInfo| w.address),
            },
    {
        let mut out: Vec<Address> = Vec::new();
        match &self.hardware_store {
            None => {},
            Some(h) => {
                let wallets = h.list_wallets();
                let mut i: usize = 0;
                while i < wallets.len()
                    invariant
                        0 <= i <= wallets@.len(),
                        wallets@.len() == h@.len(),
                        forall|j: int| 0 <= j < wallets@.len() ==> (#[trigger] wallets@[j]).address == h@[j].address,
                        out@ == h@.take(i as int).map_values(|w: WalletInfo| w.address),
                    decreases wallets@.len() - i,
                {
                    out.push(wallets[i].address);
                    i += 1;
                    assert(out@ =~= h@.take(i as int).map_values(|w: WalletInfo| w.address));
                }
                assert(h@.take(h@.len() as int) =~= h@);
            },
        }
        assert(out@ =~= Seq::<Address>::empty() || self.hardware_view() is Some);
        Ok(out)
    }

    /// Unlocks `a` with `password` in `mode`, after checking the password
    /// by signing the zero message.
    fn unlock_account(
        &mut self,
        a: Address,
        password: String,
        mode: Unlock,
    ) -> (r: Result<(), Error>)
        requires
            old(self).wf(),
        ensures
            final(self).wf(),
            final(self).same_but_unlocks(&*old(self)),
            (final(self).unlocks(), r) == old(self).unlock_outcome(a, password@, mode),
    {
        if let Err(e) = self.sstore.sign(&a, password.as_str(), &Message([0u8; 32])) {
            return Err(e);
        }
        self.unlocked.unlock(a, password, mode);
        Ok(())
    }

    /// Unlocks `a` until the process ends or it is locked again.
    pub fn unlock_account_permanently(
        &mut self,
        a: Address,
        password: String,
    ) -> (r: Result<(), Error>)
        requires
            old(self).wf(),
        ensures
            final(self).wf(),
            final(self).same_but_unlocks(&*old(self)),
            (final(self).unlocks(), r) == old(self).unlock_outcome(a, password@, Unlock::Perm),
    {
        self.unlock_account(a, password, Unlock::Perm)
    }

    /// Unlocks `a` for one signing or decryption.
    pub fn unlock_account_temporarily(
        &mut self,
        a: Address,
        password: String,
    ) -> (r: Result<(), Error>)
        requires
            old(self).wf(),
        ensures
            final(self).wf(),
            final(self).same_but_unlocks(&*old(self)),
            (final(self).unlocks(), r) == old(self).unlock_outcome(a, password@, Unlock::Temp),
    {
        self.unlock_account(a, password, Unlock::Temp)
    }

    /// Unlocks `a` for `duration_ms` milliseconds from `now` (a clock in
    /// milliseconds); the deadline saturates at the largest `u64`.
    pub fn unlock_account_timed_at(
        &mut self,
        a: Address,
        password: String,
        duration_ms: u32,
        now: u64,
    ) -> (r: Result<(), Error>)
        requires
            old(self).wf(),
        ensures
            final(self).wf(),
            final(self).same_but_unlocks(&*old(self)),
            (final(self).unlocks(), r) == old(self).unlock_outcome(
                a,
                password@,
                Unlock::Timed(if now + duration_ms <= u64::MAX { (now + duration_ms) as u64 } else { u64::MAX }),
            ),
    {
        let deadline = now.saturating_add(duration_ms as u64);
        self.unlock_account(a, password, Unlock::Timed(deadline))
    }

    /// Unlocks `a` for `duration_ms` milliseconds from now.
    pub fn unlock_account_timed(
        &mut self,
        a: Address,
        password: String,
        duration_ms: u32,
    ) -> (r: Result<(), Error>)
        requires
            old(self).wf(),
        ensures
            final(self).wf(),
            final(self).same_but_unlocks(&*old(self)),
            exists|deadline: u64|
                (final(self).unlocks(), r) == old(self).unlock_outcome(a, password@, Unlock::Timed(deadline)),
    {
        let now = millis_since(&self.clock_origin);
        let r = self.unlock_account_timed_at(a, password, duration_ms, now);
        let ghost d = if now + duration_ms <= u64::MAX { (now + duration_ms) as u64 } else { u64::MAX };
        assert((self.unlocks(), r) == old(self).unlock_outcome(a, password@, Unlock::Timed(d)));
        r
    }

    /// Whether `a` is unlocked (an expired timed unlock counts until it is next used).
    pub fn is_unlocked(&self, a: Address) -> (r: bool)
        requires
            self.wf(),
        ensures
            r == self.unlocks().contains_key(a),
    {
        self.unlocked.is_unlocked(&a)
    }

    /// Locks `a` again.
    pub fn lock_account(&mut self, a: Address)
        requires
            old(self).wf(),
        ensures
            final(self).wf(),
            final(self).same_but_unlocks(&*old(self)),
            final(self).unlocks() == old(self).unlocks().remove(a),
    {
        self.unlocked.lock(&a);
    }

    /// The password for an operation on `a` at time `now`.
    fn password_for(
        &mut self,
        a: &Address,
        password: Option<String>,
        now: u64,
    ) -> (r: Option<String>)
        requires
            old(self).wf(),
        ensures
            final(self).wf(),
            final(self).same_but_unlocks(&*old(self)),
            (final(self).unlocks(), opt_view(r)) == old(self).password_source(*a, opt_view(password), now),
    {
        match password {
            Some(p) => Some(p),
            None => self.unlocked.take_password(a, now),
        }
    }

    /// Signs `message` with `a` at time `now` (a clock in milliseconds):
    /// with `password` if given, else with the password of an unlocked account.
    pub fn sign_at(
        &mut self,
        a: Address,
        password: Option<String>,
        message: Message,
        now: u64,
    ) -> (r: Result<Signature, SignError>)
        requires
            old(self).wf(),
        ensures
            final(self).wf(),
            final(self).same_but_unlocks(&*old(self)),
            final(self).unlocks() == old(self).sign_outcome(a, opt_view(password), message, now).0,
            match old(self).sign_outcome(a, opt_view(password), message, now).1 {
                Ok(s) => r is Ok && r->Ok_0.0@ == s,
                Err(e) => r == Err::<Signature, SignError>(e),
            },
    {
        if let Err(e) = self.sstore.account_ref(&a) {
            return Err(SignError::SStore(e));
        }
        let pw = match self.password_for(&a, password, now) {
            Some(p) => p,
            None => return Err(SignError::NotUnlocked),
        };
        match self.sstore.sign(&a, pw.as_str(), &message) {
            Ok(s) => Ok(s),
            Err(e) => Err(SignError::SStore(e)),
        }
    }

    /// Signs `message` with `a`: with `password` if given, else with the
    /// password of an unlocked account.
    pub fn sign(
        &mut self,
        a: Address,
        password: Option<String>,
        message: Message,
    ) -> (r: Result<Signature, SignError>)
        requires
            old(self).wf(),
        ensures
            final(self).wf(),
            final(self).same_but_unlocks(&*old(self)),
            exists|now: u64| {
                &&& final(self).unlocks() == old(self).sign_outcome(a, opt_view(password), message, now).0
                &&& match old(self).sign_outcome(a, opt_view(password), message, now).1 {
                    Ok(s) => r is Ok && r->Ok_0.0@ == s,
                    Err(e) => r == Err::<Signature, SignError>(e),
                }
            },
    {
        let now = millis_since(&self.clock_origin);
        self.sign_at(a, password, message, now)
    }

    /// Decrypts `message` with `a` at time `now` (a clock in milliseconds):
    /// with `password` if given, else with the password of an unlocked account.
    pub fn decrypt_at(
        &mut self,
        a: Address,
        password: Option<String>,
        shared_mac: &[u8],
        message: &[u8],
        now: u64,
    ) -> (r: Result<Vec<u8>, SignError>)
        requires
            old(self).wf(),
        ensures
            final(self).wf(),
            final(self).same_but_unlocks(&*old(self)),
            final(self).unlocks() == old(self).decrypt_outcome(a, opt_view(password), shared_mac@, message@, now).0,
            match old(self).decrypt_outcome(a, opt_view(password), shared_mac@, message@, now).1 {
                Ok(plain) => r is Ok && r->Ok_0@ == plain,
                Err(e) => r == Err::<Vec<u8>, SignError>(e),
            },
    {
        if let Err(e) = self.sstore.account_ref(&a) {
            return Err(SignError::SStore(e));
        }
        let pw = match self.password_for(&a, password, now) {
            Some(p) => p,
            None => return Err(SignError::NotUnlocked),
        };
        match self.sstore.decrypt(&a, pw.as_str(), shared_mac, message) {
            Ok(plain) => Ok(plain),
            Err(e) => Err(SignError::SStore(e)),
        }
    }

    /// Decrypts `message` with `a`: with `password` if given, else with the
    /// password of an unlocked account.
    pub fn decrypt(
        &mut self,
        a: Address,
        password: Option<String>,
        shared_mac: &[u8],
        message: &[u8],
    ) -> (r: Result<Vec<u8>, SignError>)
        requires
            old(self).wf(),
        ensures
            final(self).wf(),
            final(self).same_but_unlocks(&*old(self)),
            exists|now: u64| {
                &&& final(self).unlocks() == old(self).decrypt_outcome(a, opt_view(password), shared_mac@, message@, now).0
                &&& match old(self).decrypt_outcome(a, opt_view(password), shared_mac@, message@, now).1 {
                    Ok(plain) => r is Ok && r->Ok_0@ == plain,
                    Err(e) => r == Err::<Vec<u8>, SignError>(e),
                }
            },
    {
        let now = millis_since(&self.clock_origin);
        self.decrypt_at(a, password, shared_mac, message, now)
    }
}

/// The clock in milliseconds since the Unix epoch (zero if it reads earlier).
fn current_millis() -> u64 {
    match unix_millis() {
        Some(t) => t,
        None => 0,
    }
}

/// `next` is `old` with every copy of `a` that opens with `from` moved to
/// password `to`.
pub open spec fn rotated(old: Seq<StoredKey>, next: Seq<StoredKey>, a: Address, from: Seq<char>, to: Seq<char>) -> bool {
    &&& next.len() == old.len()
    &&& forall|j: int|
        0 <= j < old.len() ==> {
            &&& (#[trigger] next[j]).address == old[j].address
            &&& next[j].secret == old[j].secret
            &&& next[j].digest@ == if opens_with(old[j], a, from) {
                password_digest(a, to)
            } else {
                old[j].digest@
            }
        }
}

impl<S: SecretStore> AccountProvider<S> {
    /// Whether `token` starts or continues a session on `a`: `Ok(true)` when it
    /// is the account's own password, `Ok(false)` when it opens a session
    /// copy, else the error.
    pub open spec fn token_check(&self, a: Address, token: Seq<char>) -> Result<bool, SignError> {
        if !self.store().has(a) {
            Err(SignError::SStore(StoreError::InvalidAccount))
        } else if self.store().password_is(a, token) {
            Ok(true)
        } else {
            match self.transient().check(a, token) {
                Err(e) => Err(SignError::SStore(e)),
                Ok(_) => Ok(false),
            }
        }
    }

    /// `next` is `self` after a session step on `a` that presents `token`
    /// and hands out `new_token`: on first use a copy of the account goes to
    /// the transient store under `new_token`; afterwards the copies that open
    /// with `token` move to `new_token`.
    pub open spec fn token_transition(&self, next: &Self, a: Address, token: Seq<char>, new_token: Seq<char>) -> bool {
        &&& next.wf()
        &&& next.same_but_transient(self)
        &&& match self.token_check(a, token) {
            Err(_) => next.transient()@ == self.transient()@,
            Ok(true) => {
                &&& next.transient()@.drop_last() == self.transient()@
                &&& next.transient()@.len() == self.transient()@.len() + 1
                &&& next.transient()@.last().address == a
                &&& next.transient()@.last().secret == self.store().entry(a).secret
                &&& next.transient()@.last().digest@ == password_digest(a, new_token)
            },
            Ok(false) => rotated(self.transient()@, next.transient()@, a, token, new_token),
        }
    }

    /// The outcome of signing `message` in a session step from `self` to `next`.
    pub open spec fn token_signed(
        &self,
        next: &Self,
        a: Address,
        token: Seq<char>,
        new_token: Seq<char>,
        message: Message,
        r: Result<(Signature, String), SignError>,
    ) -> bool {
        match self.token_check(a, token) {
            Err(e) => r == Err::<(Signature, String), SignError>(e),
            Ok(true) => r is Ok && r->Ok_0.1@ == new_token && signature_of(
                self.store().entry(a).secret.0@,
                message.0@,
            ) == Some(r->Ok_0.0.0@),
            Ok(false) => r is Ok && r->Ok_0.1@ == new_token && exists|i: int|
                0 <= i < next.transient()@.len() && opens_with(
                    #[trigger] next.transient()@[i],
                    a,
                    new_token,
                ) && signature_of(next.transient()@[i].secret.0@, message.0@) == Some(
                    r->Ok_0.0.0@,
                ),
        }
    }

    /// The outcome of decrypting in a session step from `self` to `next`.
    pub open spec fn token_decrypted(
        &self,
        next: &Self,
        a: Address,
        token: Seq<char>,
        new_token: Seq<char>,
        shared_mac: Seq<u8>,
        message: Seq<u8>,
        r: Result<(Vec<u8>, String), SignError>,
    ) -> bool {
        match self.token_check(a, token) {
            Err(e) => r == Err::<(Vec<u8>, String), SignError>(e),
            Ok(true) => match decrypt_result(self.store().entry(a).secret, shared_mac, message) {
                Ok(plain) => r is Ok && r->Ok_0.1@ == new_token && r->Ok_0.0@ == plain,
                Err(e) => r == Err::<(Vec<u8>, String), SignError>(SignError::SStore(e)),
            },
            Ok(false) => exists|i: int|
                0 <= i < next.transient()@.len() && opens_with(
                    #[trigger] next.transient()@[i],
                    a,
                    new_token,
                ) && match decrypt_result(next.transient()@[i].secret, shared_mac, message) {
                    Ok(plain) => r is Ok && r->Ok_0.1@ == new_token && r->Ok_0.0@ == plain,
                    Err(e) => r == Err::<(Vec<u8>, String), SignError>(SignError::SStore(e)),
                },
        }
    }

    /// Moves the session on `a` from `token` to `new_token`, as
    /// `token_transition` says, and reports which store the operation uses
    /// (`true`: the main store under `token`).
    fn advance_token(
        &mut self,
        a: &Address,
        token: &str,
        new_token: &str,
    ) -> (r: Result<bool, SignError>)
        requires
            old(self).wf(),
        ensures
            old(self).token_transition(&*final(self), *a, token@, new_token@),
            r == old(self).token_check(*a, token@),
            r == Ok::<bool, SignError>(false) ==> final(self).transient().check(*a, new_token@) is Ok,
    {
        if let Err(e) = self.sstore.account_ref(a) {
            return Err(SignError::SStore(e));
        }
        let is_std = match self.sstore.test_password(a, token) {
            Ok(b) => b,
            Err(e) => return Err(SignError::SStore(e)),
        };
        if is_std {
            if let Err(e) = self.sstore.copy_account(&mut self.transient_sstore, a, token, new_token) {
                return Err(SignError::SStore(e));
            }
            Ok(true)
        } else {
            let ghost before = self.transient_sstore@;
            if let Err(e) = self.transient_sstore.change_password(a, token, new_token) {
                return Err(SignError::SStore(e));
            }
            proof {
                let j = choose|j: int| 0 <= j < before.len() && opens_with(#[trigger] before[j], *a, token@);
                assert(opens_with(self.transient_sstore@[j], *a, new_token@));
                assert(self.transient_sstore@[j].address == *a);
            }
            Ok(false)
        }
    }

    /// Signs `message` with `a` in a session: `token` is the account's
    /// password on first use, afterwards the token the last step handed
    /// out; `new_token` becomes the only token that continues the session.
    pub fn sign_with_fresh_token(
        &mut self,
        a: Address,
        token: String,
        message: Message,
        new_token: String,
    ) -> (r: Result<(Signature, String), SignError>)
        requires
            old(self).wf(),
        ensures
            old(self).token_transition(&*final(self), a, token@, new_token@),
            old(self).token_signed(&*final(self), a, token@, new_token@, message, r),
    {
        let first = self.advance_token(&a, token.as_str(), new_token.as_str())?;
        let signed = if first {
            self.sstore.sign(&a, token.as_str(), &message)
        } else {
            self.transient_sstore.sign(&a, new_token.as_str(), &message)
        };
        match signed {
            Ok(s) => Ok((s, new_token)),
            Err(e) => Err(SignError::SStore(e)),
        }
    }

    /// Decrypts `message` with `a` in a session, as `sign_with_fresh_token`
    /// signs.
    pub fn decrypt_with_fresh_token(
        &mut self,
        a: Address,
        token: String,
        shared_mac: &[u8],
        message: &[u8],
        new_token: String,
    ) -> (r: Result<(Vec<u8>, String), SignError>)
        requires
            old(self).wf(),
        ensures
            old(self).token_transition(&*final(self), a, token@, new_token@),
            old(self).token_decrypted(&*final(self), a, token@, new_token@, shared_mac@, message@, r),
    {
        let first = self.advance_token(&a, token.as_str(), new_token.as_str())?;
        let opened = if first {
            self.sstore.decrypt(&a, token.as_str(), shared_mac, message)
        } else {
            self.transient_sstore.decrypt(&a, new_token.as_str(), shared_mac, message)
        };
        match opened {
            Ok(plain) => Ok((plain, new_token)),
            Err(e) => Err(SignError::SStore(e)),
        }
    }

    /// Signs `message` with `a` in a session and returns the next token:
    /// sixteen random letters and digits.
    pub fn sign_with_token(
        &mut self,
        a: Address,
        token: String,
        message: Message,
    ) -> (r: Result<(Signature, String), SignError>)
        requires
            old(self).wf(),
        ensures
            exists|new_token: Seq<char>| {
                &&& new_token.len() == TOKEN_LENGTH
                &&& forall|i: int| 0 <= i < new_token.len() ==> crate::crypto::is_token_char(#[trigger] new_token[i])
                &&& old(self).token_transition(&*final(self), a, token@, new_token)
                &&& old(self).token_signed(&*final(self), a, token@, new_token, message, r)
            },
    {
        let new_token = random_string(TOKEN_LENGTH);
        self.sign_with_fresh_token(a, token, message, new_token)
    }

    /// Decrypts `message` with `a` in a session and returns the next token:
    /// sixteen random letters and digits.
    pub fn decrypt_with_token(
        &mut self,
        a: Address,
        token: String,
        shared_mac: &[u8],
        message: &[u8],
    ) -> (r: Result<(Vec<u8>, String), SignError>)
        requires
            old(self).wf(),
        ensures
            exists|new_token: Seq<char>| {
                &&& new_token.len() == TOKEN_LENGTH
                &&& forall|i: int| 0 <= i < new_token.len() ==> crate::crypto::is_token_char(#[trigger] new_token[i])
                &&& old(self).token_transition(&*final(self), a, token@, new_token)
                &&& old(self).token_decrypted(&*final(self), a, token@, new_token, shared_mac@, message@, r)
            },
    {
        let new_token = random_string(TOKEN_LENGTH);
        self.decrypt_with_fresh_token(a, token, shared_mac, message, new_token)
    }
}

impl<S: SecretStore> AccountProvider<S> {
    /// Some connected hardware wallet holds the key of `a`.
    pub open spec fn hardware_knows(&self, a: Address) -> bool {
        match self.hardware_view() {
            Some(ws) => exists|i: int| 0 <= i < ws.len() && (#[trigger] ws[i]).address == a,
            None => false,
        }
    }

    /// `m` is what `account_meta` reports for `a`: the device's name and
    /// manufacturer for a hardware wallet, else the stored name and meta.
    pub open spec fn meta_matches(&self, a: Address, m: AccountMeta) -> bool {
        if self.hardware_knows(a) {
            &&& m.uuid is None
            &&& exists|i: int|
                0 <= i < self.hardware_view()->Some_0.len() && (#[trigger] self.hardware_view()->Some_0[i]).address == a
                    && m.name@ == self.hardware_view()->Some_0[i].name@ && m.meta@
                    == self.hardware_view()->Some_0[i].manufacturer@
        } else {
            &&& self.store().has(a)
            &&& match self.sstore_uuid(a) {
                Some(u) => m.uuid is Some && m.uuid->Some_0@ == u,
                None => m.uuid is None,
            }
            &&& m.name@ == self.store().entry(a).name@
            &&& m.meta@ == self.store().entry(a).meta@
        }
    }

    /// Sets the policy for applications without settings of their own:
    /// `None` shows them every account, `Some(list)` the listed addresses
    /// that are accounts or in the address book.
    pub fn set_new_dapps_whitelist(
        &mut self,
        accounts: Option<Vec<Address>>,
    ) -> (r: Result<(), Error>)
        requires
            old(self).wf(),
        ensures
            final(self).wf(),
            r is Ok,
            final(self).same_but_dapps(&*old(self)),
            final(self).dapps().whitelist() == match accounts {
                None => None,
                Some(v) => Some(v@),
            },
            final(self).dapps().pinned() == old(self).dapps().pinned(),
            final(self).dapps().recent() == old(self).dapps().recent(),
    {
        let policy = match accounts {
            None => NewDappsPolicy::AllAccounts,
            Some(v) => NewDappsPolicy::Whitelist(v),
        };
        self.dapps_settings.set_policy(policy);
        Ok(())
    }

    /// The policy for applications without settings of their own.
    pub fn new_dapps_whitelist(&self) -> (r: Result<Option<Vec<Address>>, Error>)
        ensures
            r is Ok,
            match r->Ok_0 {
                None => self.dapps().whitelist() is None,
                Some(v) => self.dapps().whitelist() == Some(v@),
            },
    {
        Ok(self.dapps_settings.policy())
    }

    /// Each application used so far, with the time (seconds) of its last use.
    pub fn recent_dapps(&self) -> (r: Result<Vec<(DappId, u64)>, Error>)
        requires
            self.wf(),
        ensures
            r is Ok,
            forall|i: int|
                0 <= i < r->Ok_0@.len() ==> self.dapps().recent().contains_key(
                    (#[trigger] r->Ok_0@[i]).0@,
                ) && r->Ok_0@[i].1 == self.dapps().recent()[r->Ok_0@[i].0@],
            forall|d: Seq<char>|
                #[trigger] self.dapps().recent().contains_key(d) ==> exists|i: int|
                    0 <= i < r->Ok_0@.len() && (#[trigger] r->Ok_0@[i]).0@ == d,
    {
        let v = self.dapps_settings.recent_dapps();
        proof {
            assert forall|d: Seq<char>| #[trigger] self.dapps().recent().contains_key(d) implies exists|i: int|
                0 <= i < v@.len() && (#[trigger] v@[i]).0@ == d by {
                assert(self.dapps_settings.recent().contains_key(d));
            }
        }
        let r = Ok(v);
        assert(r->Ok_0@ == v@);
        r
    }

    /// Records that `dapp` was used at `timestamp` (seconds).
    pub fn note_dapp_used_at(&mut self, dapp: DappId, timestamp: u64) -> (r: Result<(), Error>)
        requires
            old(self).wf(),
        ensures
            final(self).wf(),
            r is Ok,
            final(self).same_but_dapps(&*old(self)),
            final(self).dapps().recent() == old(self).dapps().recent().insert(dapp@, timestamp),
            final(self).dapps().pinned() == old(self).dapps().pinned(),
            final(self).dapps().whitelist() == old(self).dapps().whitelist(),
    {
        self.dapps_settings.mark_dapp_used(dapp, timestamp);
        Ok(())
    }

    /// Records that `dapp` was used now.
    pub fn note_dapp_used(&mut self, dapp: DappId) -> (r: Result<(), Error>)
        requires
            old(self).wf(),
        ensures
            final(self).wf(),
            r is Ok,
            final(self).same_but_dapps(&*old(self)),
            exists|t: u64| final(self).dapps().recent() == old(self).dapps().recent().insert(dapp@, t),
            final(self).dapps().pinned() == old(self).dapps().pinned(),
            final(self).dapps().whitelist() == old(self).dapps().whitelist(),
    {
        let now = current_millis() / 1000;
        self.note_dapp_used_at(dapp, now)
    }

    /// Whether `a` is an account or in the address book.
    fn is_visible(&self, a: &Address) -> (r: bool)
        requires
            self.wf(),
        ensures
            r == self.visible(*a),
    {
        if self.address_book.contains(a) {
            return true;
        }
        match self.has_account(*a) {
            Ok(b) => b,
            Err(_) => false,
        }
    }

    /// Keeps the addresses that are accounts or in the address book, in order.
    fn filter_addresses(&self, addresses: Vec<Address>) -> (r: Result<Vec<Address>, Error>)
        requires
            self.wf(),
        ensures
            r is Ok,
            r->Ok_0@ == self.filtered(addresses@),
    {
        let mut out: Vec<Address> = Vec::new();
        let mut i: usize = 0;
        while i < addresses.len()
            invariant
                self.wf(),
                0 <= i <= addresses@.len(),
                out@ == self.filtered(addresses@.take(i as int)),
            decreases addresses@.len() - i,
        {
            let x = addresses[i];
            let keep = self.is_visible(&x);
            proof {
                reveal(Seq::filter);
                assert(addresses@.take(i + 1).drop_last() =~= addresses@.take(i as int));
                assert(addresses@.take(i + 1).last() == x);
            }
            if keep {
                out.push(x);
            }
            i += 1;
        }
        assert(addresses@.take(addresses@.len() as int) =~= addresses@);
        Ok(out)
    }

    /// The addresses `dapp` sees: those pinned for it, else what the policy
    /// for new applications gives.
    pub fn dapps_addresses(&self, dapp: DappId) -> (r: Result<Vec<Address>, Error>)
        requires
            self.wf(),
        ensures
            r is Ok,
            r->Ok_0@ == self.dapp_view(dapp@),
    {
        match self.dapps_settings.accounts_for(&dapp) {
            Some(v) => Ok(v),
            None => match self.dapps_settings.policy() {
                None => self.accounts(),
                Some(w) => self.filter_addresses(w),
            },
        }
    }

    /// The first address `dapp` sees.
    pub fn default_address(&self, dapp: DappId) -> (r: Result<Address, Error>)
        requires
            self.wf(),
        ensures
            self.dapp_view(dapp@).len() > 0 ==> r == Ok::<Address, Error>(self.dapp_view(dapp@)[0]),
            self.dapp_view(dapp@).len() == 0 ==> r == Err::<Address, Error>(StoreError::InvalidAccount),
    {
        let v = self.dapps_addresses(dapp)?;
        if v.len() > 0 {
            Ok(v[0])
        } else {
            Err(StoreError::InvalidAccount)
        }
    }

    /// Pins for `dapp` the addresses of `addresses` that are accounts or in
    /// the address book; the others are dropped.
    pub fn set_dapps_addresses(
        &mut self,
        dapp: DappId,
        addresses: Vec<Address>,
    ) -> (r: Result<(), Error>)
        requires
            old(self).wf(),
        ensures
            final(self).wf(),
            r is Ok,
            final(self).same_but_dapps(&*old(self)),
            final(self).dapps().pinned() == old(self).dapps().pinned().insert(dapp@, old(self).filtered(addresses@)),
            final(self).dapps().whitelist() == old(self).dapps().whitelist(),
            final(self).dapps().recent() == old(self).dapps().recent(),
    {
        let kept = self.filter_addresses(addresses)?;
        self.dapps_settings.set_accounts(dapp, kept);
        Ok(())
    }

    /// Every address book entry, in the order the addresses were first named.
    pub fn addresses_info(&self) -> (r: Vec<(Address, AccountMeta)>)
        requires
            self.wf(),
        ensures
            forall|i: int|
                0 <= i < r@.len() ==> {
                    let (a, m) = #[trigger] r@[i];
                    &&& self.book().contains_key(a)
                    &&& m.name@ == self.book()[a].name@
                    &&& m.meta@ == self.book()[a].meta@
                },
            forall|a: Address| #[trigger] self.book().contains_key(a) ==> exists|i: int| 0 <= i < r@.len() && (#[trigger] r@[i]).0 == a,
    {
        let r = self.address_book.get();
        proof {
            assert forall|a: Address| #[trigger] self.book().contains_key(a) implies exists|i: int| 0 <= i < r@.len() && (#[trigger] r@[i]).0 == a by {
                assert(self.address_book.view().contains_key(a));
                assert(self.address_book.order().contains(a));
                let i = choose|i: int| 0 <= i < self.address_book.order().len() && self.address_book.order()[i] == a;
                assert(r@[i].0 == a);
            }
        }
        r
    }

    /// Names `a` in the address book.
    pub fn set_address_name(&mut self, a: Address, name: String)
        requires
            old(self).wf(),
        ensures
            final(self).wf(),
            final(self).same_but_book(&*old(self)),
            final(self).book().remove(a) == old(self).book().remove(a),
            final(self).book().contains_key(a),
            final(self).book()[a].name@ == name@,
    {
        self.address_book.set_name(a, name)
    }

    /// Sets the meta of `a` in the address book.
    pub fn set_address_meta(&mut self, a: Address, meta: String)
        requires
            old(self).wf(),
        ensures
            final(self).wf(),
            final(self).same_but_book(&*old(self)),
            final(self).book().remove(a) == old(self).book().remove(a),
            final(self).book().contains_key(a),
            final(self).book()[a].meta@ == meta@,
    {
        self.address_book.set_meta(a, meta)
    }

    /// Removes `a` from the address book.
    pub fn remove_address(&mut self, a: Address)
        requires
            old(self).wf(),
        ensures
            final(self).wf(),
            final(self).same_but_book(&*old(self)),
            final(self).book() == old(self).book().remove(a),
    {
        self.address_book.remove(a)
    }

    /// The connected hardware wallet that holds the key of `a`, if any.
    fn wallet_for(&self, a: &Address) -> (r: Option<WalletInfo>)
        ensures
            match r {
                Some(w) => self.hardware_knows(*a) && exists|i: int|
                    0 <= i < self.hardware_view()->Some_0.len() && (#[trigger] self.hardware_view()->Some_0[i]).address == *a
                        && w.name@ == self.hardware_view()->Some_0[i].name@ && w.manufacturer@
                        == self.hardware_view()->Some_0[i].manufacturer@,
                None => !self.hardware_knows(*a),
            },
    {
        match &self.hardware_store {
            Some(h) => {
                let r = h.wallet_info(a);
                proof {
                    assert(self.hardware_view() == Some(h@));
                    if r is Some {
                        let w = r->Some_0;
                        let i = choose|i: int| 0 <= i < h@.len() && (#[trigger] h@[i]).address == *a && w.address == *a
                            && w.name@ == h@[i].name@ && w.manufacturer@ == h@[i].manufacturer@ && w.serial@ == h@[i].serial@;
                        assert(self.hardware_view()->Some_0[i].address == *a);
                    }
                }
                r
            },
            None => None,
        }
    }

    /// Whether a connected hardware wallet holds the key of `a`.
    pub fn is_hardware_address(&self, a: Address) -> (r: bool)
        ensures
            r == self.hardware_knows(a),
    {
        self.wallet_for(&a).is_some()
    }

    /// Name, meta and identifier of `a`: a hardware wallet's name and manufacturer when
    /// one holds the key, else the stored name and meta.
    pub fn account_meta(&self, a: Address) -> (r: Result<AccountMeta, Error>)
        requires
            self.wf(),
        ensures
            match r {
                Ok(m) => self.meta_matches(a, m),
                Err(e) => e == StoreError::InvalidAccount && !self.hardware_knows(a) && !self.store().has(a),
            },
            self.hardware_knows(a) || self.store().has(a) ==> r is Ok,
    {
        if let Some(w) = self.wallet_for(&a) {
            return Ok(AccountMeta { name: w.name, meta: w.manufacturer, uuid: None });
        }
        let name = self.sstore.name(&a)?;
        let meta = self.sstore.meta(&a)?;
        let uuid = self.sstore.uuid(&a);
        Ok(AccountMeta { name, meta, uuid })
    }

    /// Each address of `addresses` with its metadata (empty where there is none).
    fn metas_of(&self, addresses: Vec<Address>) -> (r: Vec<(Address, AccountMeta)>)
        requires
            self.wf(),
        ensures
            r@.len() == addresses@.len(),
            forall|i: int|
                0 <= i < r@.len() ==> (#[trigger] r@[i]).0 == addresses@[i] && (self.hardware_knows(
                    addresses@[i],
                ) || self.store().has(addresses@[i]) ==> self.meta_matches(addresses@[i], r@[i].1)),
    {
        let mut out: Vec<(Address, AccountMeta)> = Vec::new();
        let mut i: usize = 0;
        while i < addresses.len()
            invariant
                self.wf(),
                0 <= i <= addresses@.len(),
                out@.len() == i,
                forall|j: int|
                    0 <= j < i ==> (#[trigger] out@[j]).0 == addresses@[j] && (self.hardware_knows(
                        addresses@[j],
                    ) || self.store().has(addresses@[j]) ==> self.meta_matches(addresses@[j], out@[j].1)),
            decreases addresses@.len() - i,
        {
            let a = addresses[i];
            let m = match self.account_meta(a) {
                Ok(m) => m,
                Err(_) => AccountMeta { name: String::new(), meta: String::new(), uuid: None },
            };
            out.push((a, m));
            i += 1;
        }
        out
    }

    /// Each account with its metadata, in the store's order.
    pub fn accounts_info(&self) -> (r: Result<Vec<(Address, AccountMeta)>, Error>)
        requires
            self.wf(),
        ensures
            r is Ok,
            r->Ok_0@.len() == self.accounts_view().len(),
            forall|i: int|
                0 <= i < r->Ok_0@.len() ==> (#[trigger] r->Ok_0@[i]).0 == self.accounts_view()[i]
                    && self.meta_matches(self.accounts_view()[i], r->Ok_0@[i].1),
    {
        let accounts = self.sstore.accounts();
        proof {
            assert forall|i: int| 0 <= i < accounts@.len() implies self.store().has(#[trigger] accounts@[i]) by {
                assert(self.sstore.state()@[i].address == accounts@[i]);
            }
        }
        Ok(self.metas_of(accounts))
    }

    /// Each hardware account with its metadata.
    pub fn hardware_accounts_info(&self) -> (r: Result<Vec<(Address, AccountMeta)>, Error>)
        requires
            self.wf(),
        ensures
            r is Ok,
            match self.hardware_view() {
                None => r->Ok_0@.len() == 0,
                Some(ws) => r->Ok_0@.len() == ws.len() && forall|i: int|
                    0 <= i < ws.len() ==> (#[trigger] r->Ok_0@[i]).0 == ws[i].address,
            },
            forall|i: int|
                0 <= i < r->Ok_0@.len() ==> self.meta_matches((#[trigger] r->Ok_0@[i]).0, r->Ok_0@[i].1),
    {
        let addresses = self.hardware_accounts()?;
        proof {
            if let Some(ws) = self.hardware_view() {
                assert forall|i: int| 0 <= i < ws.len() implies addresses@[i] == ws[i].address by {
                    assert(addresses@ == ws.map_values(|w: WalletInfo| w.address));
                }
            }
            assert forall|i: int| 0 <= i < addresses@.len() implies self.hardware_knows(#[trigger] addresses@[i]) by {
                let ws = self.hardware_view()->Some_0;
                assert(ws[i].address == addresses@[i]);
            }
        }
        Ok(self.metas_of(addresses))
    }

    /// Renames account `a`.
    pub fn set_account_name(&mut self, a: Address, name: String) -> (r: Result<(), Error>)
        requires
            old(self).wf(),
        ensures
            final(self).wf(),
            final(self).same_but_store(&*old(self)),
            final(self).accounts_view() == old(self).accounts_view(),
            match r {
                Ok(_) => old(self).store().has(a) && final(self).store().entry(a).name@ == name@
                    && final(self).store().entry(a).meta@ == old(self).store().entry(a).meta@
                    && final(self).store().entry(a).digest == old(self).store().entry(a).digest,
                Err(e) => e == StoreError::InvalidAccount && !old(self).store().has(a) && final(self).store()@ == old(self).store()@,
            },
    {
        let ghost before = self.sstore.state()@;
        let r = self.sstore.set_name(&a, name);
        proof {
            if r is Ok {
                let i = position(before, a);
                crate::keystore::lemma_position(self.sstore.state()@, i);
                assert(self.accounts_view() =~= old(self).accounts_view());
            }
        }
        r
    }

    /// Sets the meta of account `a`.
    pub fn set_account_meta(&mut self, a: Address, meta: String) -> (r: Result<(), Error>)
        requires
            old(self).wf(),
        ensures
            final(self).wf(),
            final(self).same_but_store(&*old(self)),
            final(self).accounts_view() == old(self).accounts_view(),
            match r {
                Ok(_) => old(self).store().has(a) && final(self).store().entry(a).meta@ == meta@
                    && final(self).store().entry(a).name@ == old(self).store().entry(a).name@
                    && final(self).store().entry(a).digest == old(self).store().entry(a).digest,
                Err(e) => e == StoreError::InvalidAccount && !old(self).store().has(a) && final(self).store()@ == old(self).store()@,
            },
    {
        let ghost before = self.sstore.state()@;
        let r = self.sstore.set_meta(&a, meta);
        proof {
            if r is Ok {
                let i = position(before, a);
                crate::keystore::lemma_position(self.sstore.state()@, i);
                assert(self.accounts_view() =~= old(self).accounts_view());
            }
        }
        r
    }

    /// Whether `password` is the password of account `a`.
    pub fn test_password(&self, a: &Address, password: &str) -> (r: Result<bool, Error>)
        requires
            self.wf(),
        ensures
            match r {
                Ok(b) => self.store().has(*a) && b == self.store().password_is(*a, password@),
                Err(e) => e == StoreError::InvalidAccount && !self.store().has(*a),
            },
    {
        self.sstore.test_password(a, password)
    }

    /// Removes account `a` for good (and locks it), given its password.
    pub fn kill_account(&mut self, a: &Address, password: &str) -> (r: Result<(), Error>)
        requires
            old(self).wf(),
        ensures
            final(self).wf(),
            final(self).same_but_stores(&*old(self)),
            final(self).transient()@ == old(self).transient()@,
            r == old(self).store().check(*a, password@),
            r is Err ==> final(self).store()@ == old(self).store()@ && final(self).unlocks() == old(self).unlocks(),
            r is Ok ==> {
                &&& final(self).store()@ == old(self).store()@.remove(position(old(self).store()@, *a))
                &&& !final(self).store().has(*a)
                &&& final(self).unlocks() == old(self).unlocks().remove(*a)
            },
    {
        let ghost before = self.sstore.state()@;
        self.sstore.remove_account(a, password)?;
        self.unlocked.lock(a);
        proof {
            let i = position(before, *a);
            crate::keystore::lemma_position(before, i);
            assert forall|b: Address| #[trigger] self.unlocked@.contains_key(b) implies self.sstore.state().has(b) by {
                assert(old(self).sstore.state().has(b));
                let j = choose|j: int| 0 <= j < before.len() && (#[trigger] before[j]).address == b;
                assert(j != i);
                let k = if j < i { j } else { j - 1 };
                assert(self.sstore.state()@[k] == before[j]);
            }
            if self.sstore.state().has(*a) {
                let j = choose|j: int| 0 <= j < self.sstore.state()@.len() && (#[trigger] self.sstore.state()@[j]).address == *a;
                let oj = if j < i { j } else { j + 1 };
                assert(self.sstore.state()@[j] == before[oj]);
            }
        }
        Ok(())
    }

    /// Changes the password of account `a` from `password` to `new_password`.
    pub fn change_password(
        &mut self,
        a: &Address,
        password: String,
        new_password: String,
    ) -> (r: Result<(), Error>)
        requires
            old(self).wf(),
        ensures
            final(self).wf(),
            final(self).same_but_store(&*old(self)),
            r == old(self).store().check(*a, password@),
            r is Err ==> final(self).store()@ == old(self).store()@,
            r is Ok ==> final(self).accounts_view() == old(self).accounts_view() && final(self).store().password_is(*a, new_password@)
                && final(self).store().entry(*a).secret == old(self).store().entry(*a).secret,
    {
        let ghost before = self.sstore.state()@;
        let r = self.sstore.change_password(a, password.as_str(), new_password.as_str());
        proof {
            if r is Ok {
                let i = position(before, *a);
                crate::keystore::lemma_position(self.sstore.state()@, i);
                assert(self.accounts_view() =~= old(self).accounts_view());
                assert forall|b: Address| #[trigger] self.unlocked@.contains_key(b) implies self.sstore.state().has(b) by {
                    assert(old(self).sstore.state().has(b));
                    let j = choose|j: int| 0 <= j < before.len() && (#[trigger] before[j]).address == b;
                    assert(self.sstore.state()@[j].address == b);
                }
            }
        }
        r
    }
}

impl<S: SecretStore> AccountProvider<S> {
    /// Creates a named vault in the key store.
    pub fn create_vault(&mut self, name: &str, password: &str) -> (r: Result<(), Error>)
        requires
            old(self).wf(),
        ensures
            final(self).wf(),
            final(self).same_but_store(&*old(self)),
            final(self).store() == old(self).store(),
    {
        self.sstore.create_vault(name, password)
    }

    /// Opens a named vault of the key store.
    pub fn open_vault(&mut self, name: &str, password: &str) -> (r: Result<(), Error>)
        requires
            old(self).wf(),
        ensures
            final(self).wf(),
            final(self).same_but_store(&*old(self)),
            final(self).store() == old(self).store(),
    {
        self.sstore.open_vault(name, password)
    }

    /// Closes a named vault of the key store.
    pub fn close_vault(&mut self, name: &str) -> (r: Result<(), Error>)
        requires
            old(self).wf(),
        ensures
            final(self).wf(),
            final(self).same_but_store(&*old(self)),
            final(self).store() == old(self).store(),
    {
        self.sstore.close_vault(name)
    }

    /// The names of the key store's vaults.
    pub fn list_vaults(&self) -> (r: Result<Vec<String>, Error>) {
        self.sstore.list_vaults()
    }

    /// The names of the key store's open vaults.
    pub fn list_opened_vaults(&self) -> (r: Result<Vec<String>, Error>) {
        self.sstore.list_opened_vaults()
    }

    /// Changes the password of a named vault of the key store.
    pub fn change_vault_password(&mut self, name: &str, new_password: &str) -> (r: Result<(), Error>)
        requires
            old(self).wf(),
        ensures
            final(self).wf(),
            final(self).same_but_store(&*old(self)),
            final(self).store() == old(self).store(),
    {
        self.sstore.change_vault_password(name, new_password)
    }

    /// Moves account `a` into vault `new_vault`; the empty name stands for
    /// the store itself.
    pub fn change_vault(&self, a: Address, new_vault: &str) -> (r: Result<(), Error>)
        requires
            self.wf(),
        ensures
            !self.store().has(a) ==> r == Err::<(), Error>(StoreError::InvalidAccount),
            self.store().has(a) && new_vault@.len() == 0 ==> r is Ok,
    {
        let vault = if new_vault.is_empty() {
            VaultRef::Root
        } else {
            VaultRef::Vault(new_vault.to_owned())
        };
        self.sstore.account_ref(&a)?;
        self.sstore.change_account_vault(&vault, &a)
    }

    /// Replaces the list of connected hardware wallets with a fresh
    /// enumeration (a provider without a manager ignores it).
    pub fn update_hardware_wallets(&mut self, wallets: Vec<WalletInfo>)
        requires
            old(self).wf(),
        ensures
            final(self).wf(),
            final(self).store()@ == old(self).store()@,
            final(self).transient()@ == old(self).transient()@,
            final(self).unlocks() == old(self).unlocks(),
            final(self).book() == old(self).book(),
            final(self).same_dapps(&*old(self)),
            final(self).hardware_view() == match old(self).hardware_view() {
                Some(_) => Some(wallets@),
                None => None,
            },
    {
        if let Some(h) = &mut self.hardware_store {
            h.update_devices(wallets);
        }
    }

    /// The outcome of signing a transaction with the hardware wallet of `a`,
    /// given what the device reported: a provider without a manager, an
    /// address no device holds, or a device that does not find the key all
    /// give `NotFound`; other device errors pass through.
    pub fn sign_with_hardware(
        &self,
        a: Address,
        device_result: Result<Signature, HardwareError>,
    ) -> (r: Result<Signature, SignError>)
        ensures
            !self.hardware_knows(a) ==> r == Err::<Signature, SignError>(SignError::NotFound),
            self.hardware_knows(a) ==> match device_result {
                Ok(s) => r == Ok::<Signature, SignError>(s),
                Err(HardwareError::KeyNotFound) => r == Err::<Signature, SignError>(SignError::NotFound),
                Err(e) => r == Err::<Signature, SignError>(SignError::Hardware(e)),
            },
    {
        if self.wallet_for(&a).is_none() {
            return Err(SignError::NotFound);
        }
        match device_result {
            Ok(s) => Ok(s),
            Err(HardwareError::KeyNotFound) => Err(SignError::NotFound),
            Err(e) => Err(SignError::Hardware(e)),
        }
    }
}

/// Only accounts of the main store are ever unlocked.
pub proof fn lemma_unlocked_are_accounts<S: SecretStore>(p: AccountProvider<S>)
    requires
        p.wf(),
    ensures
        forall|a: Address| #[trigger] p.unlocks().contains_key(a) ==> p.store().has(a),
{
}

} // verus!
