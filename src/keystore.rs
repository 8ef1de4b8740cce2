//! In-memory key stores: the main store, which holds one password digest per
//! account, and the transient store, which may hold several copies of an
//! account under different passwords (one per live session token).

use vstd::prelude::*;
use crate::types::{Address, Message, Secret, Signature};
use crate::crypto::{
    address_from_public, address_of_secret, decryption_of, ecies_decrypt,
    keccak256, keccak_of, public_from_secret, sign_hash, signature_of,
};
use vstd::string::StrSliceExecFns;
use vstd::utf8::encode_utf8;

verus! {

broadcast use vstd::array::group_array_axioms;

/// Errors of the key stores.
#[derive(Clone, Copy, Debug, PartialEq, Eq)]
pub enum StoreError {
    /// The password does not open the account.
    InvalidPassword,
    /// No account with this address.
    InvalidAccount,
    /// The account is already present.
    AccountExists,
    /// The secret is not a valid secp256k1 key.
    CreationFailed,
    /// The encrypted message does not open.
    InvalidMessage,
    /// Named vaults need a store on disk.
    VaultsAreNotSupported,
}

impl StoreError {
    /// The description of the error.
    pub open spec fn text(self) -> Seq<char> {
        match self {
            StoreError::InvalidPassword => "Invalid password"@,
            StoreError::InvalidAccount => "Invalid account"@,
            StoreError::AccountExists => "Account already exists"@,
            StoreError::CreationFailed => "Account creation failed"@,
            StoreError::InvalidMessage => "Invalid message"@,
            StoreError::VaultsAreNotSupported => "Vaults are not supported"@,
        }
    }

    /// A description of the error.
    pub fn message(&self) -> (r: String)
        ensures
            r@ == self.text(),
    {
        match self {
            StoreError::InvalidPassword => "Invalid password".to_owned(),
            StoreError::InvalidAccount => "Invalid account".to_owned(),
            StoreError::AccountExists => "Account already exists".to_owned(),
            StoreError::CreationFailed => "Account creation failed".to_owned(),
            StoreError::InvalidMessage => "Invalid message".to_owned(),
            StoreError::VaultsAreNotSupported => "Vaults are not supported".to_owned(),
        }
    }
}

/// One account as a store holds it.
#[derive(Debug)]
pub struct StoredKey {
    pub address: Address,
    pub secret: Secret,
    /// Keccak-256 of the address followed by the password's UTF-8 bytes;
    /// the password itself is not kept.
    pub digest: [u8; 32],
    pub name: String,
    pub meta: String,
}

/// `k` is an account of `a` that opens with `pw`.
pub open spec fn opens_with(k: StoredKey, a: Address, pw: Seq<char>) -> bool {
    k.address == a && k.digest@ == password_digest(a, pw)
}

/// Some account in `keys` has address `a`.
pub open spec fn holds(keys: Seq<StoredKey>, a: Address) -> bool {
    exists|i: int| 0 <= i < keys.len() && (#[trigger] keys[i]).address == a
}

/// Some account in `keys` has an address with these bytes.
pub open spec fn holds_bytes(keys: Seq<StoredKey>, b: Seq<u8>) -> bool {
    exists|i: int| 0 <= i < keys.len() && (#[trigger] keys[i]).address.0@ == b
}

pub proof fn lemma_holds_bytes(keys: Seq<StoredKey>, a: Address)
    ensures
        holds(keys, a) == holds_bytes(keys, a.0@),
{
    if holds_bytes(keys, a.0@) {
        let i = choose|i: int| 0 <= i < keys.len() && (#[trigger] keys[i]).address.0@ == a.0@;
        assert(keys[i].address.0 =~= a.0);
    }
}

/// The index of the account with address `a` (meaningful when `holds(keys, a)`).
pub open spec fn position(keys: Seq<StoredKey>, a: Address) -> int {
    choose|i: int| 0 <= i < keys.len() && (#[trigger] keys[i]).address == a
}

/// No two accounts share an address.
pub open spec fn unique_addresses(keys: Seq<StoredKey>) -> bool {
    forall|i: int, j: int|
        0 <= i < keys.len() && 0 <= j < keys.len() && i != j ==> (#[trigger] keys[i]).address
            != (#[trigger] keys[j]).address
}

/// Every account's address is the one its secret gives.
pub open spec fn keys_valid(keys: Seq<StoredKey>) -> bool {
    forall|i: int|
        0 <= i < keys.len() ==> address_of_secret((#[trigger] keys[i]).secret.0@) == Some(
            keys[i].address.0@,
        )
}

/// The addresses of `keys`, in order.
pub open spec fn addresses_of(keys: Seq<StoredKey>) -> Seq<Address> {
    keys.map_values(|k: StoredKey| k.address)
}

/// What decrypting `encrypted` with `secret` gives.
pub open spec fn decrypt_result(secret: Secret, auth_data: Seq<u8>, encrypted: Seq<u8>) -> Result<
    Seq<u8>,
    StoreError,
> {
    if encrypted.len() == 0 {
        Err(StoreError::InvalidMessage)
    } else {
        match decryption_of(secret.0@, auth_data, encrypted) {
            Some(plain) => Ok(plain),
            None => Err(StoreError::InvalidMessage),
        }
    }
}

pub proof fn lemma_position(keys: Seq<StoredKey>, i: int)
    requires
        unique_addresses(keys),
        0 <= i < keys.len(),
    ensures
        holds(keys, keys[i].address),
        position(keys, keys[i].address) == i,
{
    let a = keys[i].address;
    assert(holds(keys, a));
    let j = position(keys, a);
    assert(keys[j].address == a);
}

/// The digest a store keeps for password `pw` of account `a`.
pub open spec fn password_digest(a: Address, pw: Seq<char>) -> Seq<u8> {
    keccak_of(a.0@ + encode_utf8(pw))
}

fn digest_password(a: &Address, password: &str) -> (r: [u8; 32])
    ensures
        r@ == password_digest(*a, password@),
{
    let bytes = password.as_bytes_vec();
    let mut data: Vec<u8> = Vec::new();
    let mut i: usize = 0;
    while i < 20
        invariant
            0 <= i <= 20,
            data@ == a.0@.take(i as int),
        decreases 20 - i,
    {
        data.push(a.0[i]);
        i += 1;
        assert(data@ =~= a.0@.take(i as int));
    }
    assert(a.0@.take(20) =~= a.0@);
    let mut j: usize = 0;
    while j < bytes.len()
        invariant
            0 <= j <= bytes@.len(),
            bytes@ == encode_utf8(password@),
            data@ == a.0@ + bytes@.take(j as int),
        decreases bytes@.len() - j,
    {
        data.push(bytes[j]);
        j += 1;
        assert(data@ =~= a.0@ + bytes@.take(j as int));
    }
    assert(bytes@.take(bytes@.len() as int) =~= bytes@);
    keccak256(data.as_slice())
}

fn same_digest(x: &[u8; 32], y: &[u8; 32]) -> (r: bool)
    ensures
        r == (x@ == y@),
{
    let mut i: usize = 0;
    while i < 32
        invariant
            0 <= i <= 32,
            forall|j: int| 0 <= j < i ==> x@[j] == y@[j],
        decreases 32 - i,
    {
        if x[i] != y[i] {
            return false;
        }
        i += 1;
    }
    assert(x@ =~= y@);
    true
}

fn copy_string(s: &String) -> (r: String)
    ensures
        r@ == s@,
{
    s.clone()
}

fn new_key(address: Address, secret: Secret, password: &str) -> (r: StoredKey)
    ensures
        r.address == address,
        r.secret == secret,
        r.digest@ == password_digest(address, password@),
        r.name@ == Seq::<char>::empty(),
        r.meta@ == seq!['{', '}'],
{
    let meta = "{}".to_owned();
    proof {
        reveal_strlit("{}");
    }
    let digest = digest_password(&address, password);
    StoredKey { address, secret, digest, name: String::new(), meta }
}

/// The main store: one entry per address, kept in insertion order. It lives
/// in memory only and checks a password against the digest it keeps.
pub struct KeyStore {
    keys: Vec<StoredKey>,
}

impl View for KeyStore {
    type V = Seq<StoredKey>;

    closed spec fn view(&self) -> Seq<StoredKey> {
        self.keys@
    }
}

impl KeyStore {
    pub open spec fn wf(&self) -> bool {
        unique_addresses(self@) && keys_valid(self@)
    }

    pub open spec fn has(&self, a: Address) -> bool {
        holds(self@, a)
    }

    pub open spec fn entry(&self, a: Address) -> StoredKey {
        self@[position(self@, a)]
    }

    pub open spec fn addresses(&self) -> Seq<Address> {
        addresses_of(self@)
    }

    /// `pw` is the password of account `a`.
    pub open spec fn password_is(&self, a: Address, pw: Seq<char>) -> bool {
        self.has(a) && self.entry(a).digest@ == password_digest(a, pw)
    }

    /// Whether `pw` opens account `a`, and which error comes when it does not.
    pub open spec fn check(&self, a: Address, pw: Seq<char>) -> Result<(), StoreError> {
        if !self.has(a) {
            Err(StoreError::InvalidAccount)
        } else if self.entry(a).digest@ != password_digest(a, pw) {
            Err(StoreError::InvalidPassword)
        } else {
            Ok(())
        }
    }

    /// An empty store.
    pub fn new() -> (r: Self)
        ensures
            r.wf(),
            r@ == Seq::<StoredKey>::empty(),
    {
        KeyStore { keys: Vec::new() }
    }

    fn find(&self, a: &Address) -> (r: Option<usize>)
        requires
            self.wf(),
        ensures
            match r {
                Some(i) => i < self@.len() && self.has(*a) && i == position(self@, *a)
                    && self@[i as int].address == *a,
                None => !self.has(*a),
            },
    {
        let mut i: usize = 0;
        while i < self.keys.len()
            invariant
                self.wf(),
                0 <= i <= self.keys.len(),
                forall|j: int| 0 <= j < i ==> (#[trigger] self.keys@[j]).address != *a,
            decreases self.keys.len() - i,
        {
            if self.keys[i].address.same_as(a) {
                proof {
                    lemma_position(self@, i as int);
                }
                return Some(i);
            }
            i += 1;
        }
        None
    }

    /// The addresses of all accounts, in insertion order.
    pub fn accounts(&self) -> (r: Vec<Address>)
        ensures
            r@ == self.addresses(),
    {
        let mut r: Vec<Address> = Vec::new();
        let mut i: usize = 0;
        while i < self.keys.len()
            invariant
                0 <= i <= self.keys.len(),
                r@ == addresses_of(self@.take(i as int)),
            decreases self.keys.len() - i,
        {
            r.push(self.keys[i].address);
            i += 1;
            assert(self@.take(i as int).drop_last() == self@.take(i - 1));
        }
        assert(self@.take(self@.len() as int) == self@);
        r
    }

    /// Resolves an address to the account that holds it.
    pub fn account_ref(&self, a: &Address) -> (r: Result<Address, StoreError>)
        requires
            self.wf(),
        ensures
            match r {
                Ok(x) => x == *a && self.has(*a),
                Err(e) => e == StoreError::InvalidAccount && !self.has(*a),
            },
    {
        match self.find(a) {
            Some(_) => Ok(*a),
            None => Err(StoreError::InvalidAccount),
        }
    }

    /// Adds an account for `secret`, with empty name and meta `{}`. A secret
    /// that is not a valid key, or whose address is already present, is
    /// refused.
    pub fn insert_account(&mut self, secret: Secret, password: &str) -> (r: Result<
        Address,
        StoreError,
    >)
        requires
            old(self).wf(),
        ensures
            final(self).wf(),
            match address_of_secret(secret.0@) {
                None => r == Err::<Address, StoreError>(StoreError::CreationFailed) && final(self)@ == old(self)@,
                Some(b) => if holds_bytes(old(self)@, b) {
                    r == Err::<Address, StoreError>(StoreError::AccountExists) && final(self)@ == old(self)@
                } else {
                    &&& r is Ok
                    &&& r->Ok_0.0@ == b
                    &&& final(self)@.drop_last() == old(self)@
                    &&& final(self)@.len() == old(self)@.len() + 1
                    &&& final(self)@.last().address == r->Ok_0
                    &&& final(self)@.last().secret == secret
                    &&& final(self)@.last().digest@ == password_digest(r->Ok_0, password@)
                    &&& final(self)@.last().name@ == Seq::<char>::empty()
                    &&& final(self)@.last().meta@ == seq!['{', '}']
                },
            },
    {
        let public = match public_from_secret(&secret) {
            Some(p) => p,
            None => return Err(StoreError::CreationFailed),
        };
        let address = address_from_public(&public);
        proof {
            lemma_holds_bytes(self@, address);
        }
        match self.find(&address) {
            Some(_) => Err(StoreError::AccountExists),
            None => {
                let key = new_key(address, secret, password);
                self.keys.push(key);
                proof {
                    assert forall|i: int, j: int|
                        0 <= i < self@.len() && 0 <= j < self@.len() && i != j implies (
                        #[trigger] self@[i]).address != (#[trigger] self@[j]).address by {
                        if i == self@.len() - 1 {
                            assert(old(self)@[j] == self@[j]);
                        } else if j == self@.len() - 1 {
                            assert(old(self)@[i] == self@[i]);
                        } else {
                            assert(old(self)@[i] == self@[i]);
                            assert(old(self)@[j] == self@[j]);
                        }
                    }
                    assert(self@.drop_last() =~= old(self)@);
                }
                Ok(address)
            },
        }
    }
}


impl KeyStore {
    fn unlocked_index(&self, a: &Address, password: &str) -> (r: Result<usize, StoreError>)
        requires
            self.wf(),
        ensures
            match r {
                Ok(i) => self.check(*a, password@) is Ok && i == position(self@, *a) && i
                    < self@.len() && self@[i as int].address == *a,
                Err(e) => self.check(*a, password@) == Err::<(), StoreError>(e),
            },
    {
        let i = match self.find(a) {
            Some(i) => i,
            None => return Err(StoreError::InvalidAccount),
        };
        let digest = digest_password(a, password);
        if same_digest(&self.keys[i].digest, &digest) {
            Ok(i)
        } else {
            Err(StoreError::InvalidPassword)
        }
    }

    /// Whether `password` opens account `a`.
    pub fn test_password(&self, a: &Address, password: &str) -> (r: Result<bool, StoreError>)
        requires
            self.wf(),
        ensures
            match r {
                Ok(b) => self.has(*a) && b == self.password_is(*a, password@),
                Err(e) => e == StoreError::InvalidAccount && !self.has(*a),
            },
    {
        match self.unlocked_index(a, password) {
            Ok(_) => Ok(true),
            Err(StoreError::InvalidPassword) => Ok(false),
            Err(e) => Err(e),
        }
    }

    /// Signs `message` with account `a`, opened by `password`.
    pub fn sign(&self, a: &Address, password: &str, message: &Message) -> (r: Result<
        Signature,
        StoreError,
    >)
        requires
            self.wf(),
        ensures
            match self.check(*a, password@) {
                Err(e) => r == Err::<Signature, StoreError>(e),
                Ok(_) => r is Ok && signature_of(self.entry(*a).secret.0@, message.0@) == Some(
                    r->Ok_0.0@,
                ),
            },
    {
        let i = self.unlocked_index(a, password)?;
        match sign_hash(&self.keys[i].secret, message) {
            Some(s) => Ok(s),
            None => {
                proof {
                    assert(address_of_secret(self@[i as int].secret.0@) is Some);
                }
                vstd::pervasive::unreached()
            },
        }
    }

    /// Decrypts an ECIES `message` for account `a`, opened by `password`.
    pub fn decrypt(&self, a: &Address, password: &str, shared_mac: &[u8], message: &[u8]) -> (r:
        Result<Vec<u8>, StoreError>)
        requires
            self.wf(),
        ensures
            match self.check(*a, password@) {
                Err(e) => r == Err::<Vec<u8>, StoreError>(e),
                Ok(_) => match decrypt_result(self.entry(*a).secret, shared_mac@, message@) {
                    Ok(plain) => r is Ok && r->Ok_0@ == plain,
                    Err(e) => r == Err::<Vec<u8>, StoreError>(e),
                },
            },
    {
        let i = self.unlocked_index(a, password)?;
        decrypt_with_secret(&self.keys[i].secret, shared_mac, message)
    }

    /// Removes account `a`, which `password` must open.
    pub fn remove_account(&mut self, a: &Address, password: &str) -> (r: Result<(), StoreError>)
        requires
            old(self).wf(),
        ensures
            final(self).wf(),
            r == old(self).check(*a, password@),
            r is Err ==> final(self)@ == old(self)@,
            r is Ok ==> final(self)@ == old(self)@.remove(position(old(self)@, *a)),
    {
        let i = self.unlocked_index(a, password)?;
        self.keys.remove(i);
        proof {
            assert forall|x: int, y: int|
                0 <= x < self@.len() && 0 <= y < self@.len() && x != y implies (
                #[trigger] self@[x]).address != (#[trigger] self@[y]).address by {
                let ox = if x < i { x } else { x + 1 };
                let oy = if y < i { y } else { y + 1 };
                assert(self@[x] == old(self)@[ox]);
                assert(self@[y] == old(self)@[oy]);
            }
            assert forall|x: int| 0 <= x < self@.len() implies address_of_secret(
                (#[trigger] self@[x]).secret.0@,
            ) == Some(self@[x].address.0@) by {
                let ox = if x < i { x } else { x + 1 };
                assert(self@[x] == old(self)@[ox]);
            }
        }
        Ok(())
    }

    /// Replaces the password of account `a`, which `password` must open.
    pub fn change_password(&mut self, a: &Address, password: &str, new_password: &str) -> (r:
        Result<(), StoreError>)
        requires
            old(self).wf(),
        ensures
            final(self).wf(),
            r == old(self).check(*a, password@),
            r is Err ==> final(self)@ == old(self)@,
            r is Ok ==> {
                let i = position(old(self)@, *a);
                &&& final(self)@.len() == old(self)@.len()
                &&& forall|j: int| 0 <= j < old(self)@.len() && j != i ==> final(self)@[j] == old(self)@[j]
                &&& final(self)@[i].address == *a
                &&& final(self)@[i].secret == old(self)@[i].secret
                &&& final(self)@[i].digest@ == password_digest(*a, new_password@)
                &&& final(self)@[i].name == old(self)@[i].name
                &&& final(self)@[i].meta == old(self)@[i].meta
            },
    {
        let i = self.unlocked_index(a, password)?;
        let digest = digest_password(a, new_password);
        let mut key = self.keys.remove(i);
        key.digest = digest;
        self.keys.insert(i, key);
        proof {
            assert forall|j: int| 0 <= j < old(self)@.len() && j != i implies self@[j] == old(self)@[j] by {}
            assert forall|x: int, y: int|
                0 <= x < self@.len() && 0 <= y < self@.len() && x != y implies (
                #[trigger] self@[x]).address != (#[trigger] self@[y]).address by {
                assert(self@[x].address == old(self)@[x].address);
                assert(self@[y].address == old(self)@[y].address);
            }
            assert forall|x: int| 0 <= x < self@.len() implies address_of_secret(
                (#[trigger] self@[x]).secret.0@,
            ) == Some(self@[x].address.0@) by {
                assert(self@[x].address == old(self)@[x].address);
                assert(self@[x].secret == old(self)@[x].secret);
            }
        }
        Ok(())
    }
}

impl KeyStore {
    /// The name of account `a`.
    pub fn name(&self, a: &Address) -> (r: Result<String, StoreError>)
        requires
            self.wf(),
        ensures
            match r {
                Ok(n) => self.has(*a) && n@ == self.entry(*a).name@,
                Err(e) => e == StoreError::InvalidAccount && !self.has(*a),
            },
    {
        match self.find(a) {
            Some(i) => Ok(copy_string(&self.keys[i].name)),
            None => Err(StoreError::InvalidAccount),
        }
    }

    /// The meta of account `a`.
    pub fn meta(&self, a: &Address) -> (r: Result<String, StoreError>)
        requires
            self.wf(),
        ensures
            match r {
                Ok(m) => self.has(*a) && m@ == self.entry(*a).meta@,
                Err(e) => e == StoreError::InvalidAccount && !self.has(*a),
            },
    {
        match self.find(a) {
            Some(i) => Ok(copy_string(&self.keys[i].meta)),
            None => Err(StoreError::InvalidAccount),
        }
    }

    /// Sets the name (`is_name`) or the meta of account `a`.
    fn set_label(&mut self, a: &Address, value: String, is_name: bool) -> (r: Result<
        (),
        StoreError,
    >)
        requires
            old(self).wf(),
        ensures
            final(self).wf(),
            match r {
                Ok(_) => old(self).has(*a),
                Err(e) => e == StoreError::InvalidAccount && !old(self).has(*a),
            },
            r is Err ==> final(self)@ == old(self)@,
            r is Ok ==> {
                let i = position(old(self)@, *a);
                &&& final(self)@.len() == old(self)@.len()
                &&& forall|j: int| 0 <= j < old(self)@.len() && j != i ==> final(self)@[j] == old(self)@[j]
                &&& final(self)@[i].address == *a
                &&& final(self)@[i].secret == old(self)@[i].secret
                &&& final(self)@[i].digest == old(self)@[i].digest
                &&& final(self)@[i].name@ == if is_name { value@ } else { old(self)@[i].name@ }
                &&& final(self)@[i].meta@ == if is_name { old(self)@[i].meta@ } else { value@ }
            },
    {
        let i = match self.find(a) {
            Some(i) => i,
            None => return Err(StoreError::InvalidAccount),
        };
        let mut key = self.keys.remove(i);
        if is_name {
            key.name = value;
        } else {
            key.meta = value;
        }
        self.keys.insert(i, key);
        proof {
            assert forall|j: int| 0 <= j < old(self)@.len() && j != i implies self@[j] == old(self)@[j] by {}
            assert forall|x: int, y: int|
                0 <= x < self@.len() && 0 <= y < self@.len() && x != y implies (
                #[trigger] self@[x]).address != (#[trigger] self@[y]).address by {
                assert(self@[x].address == old(self)@[x].address);
                assert(self@[y].address == old(self)@[y].address);
            }
            assert forall|x: int| 0 <= x < self@.len() implies address_of_secret(
                (#[trigger] self@[x]).secret.0@,
            ) == Some(self@[x].address.0@) by {
                assert(self@[x].address == old(self)@[x].address);
                assert(self@[x].secret == old(self)@[x].secret);
            }
        }
        Ok(())
    }

    /// Sets the name of account `a`.
    pub fn set_name(&mut self, a: &Address, name: String) -> (r: Result<(), StoreError>)
        requires
            old(self).wf(),
        ensures
            final(self).wf(),
            match r {
                Ok(_) => old(self).has(*a),
                Err(e) => e == StoreError::InvalidAccount && !old(self).has(*a),
            },
            r is Err ==> final(self)@ == old(self)@,
            r is Ok ==> {
                let i = position(old(self)@, *a);
                &&& final(self)@.len() == old(self)@.len()
                &&& forall|j: int| 0 <= j < old(self)@.len() && j != i ==> final(self)@[j] == old(self)@[j]
                &&& final(self)@[i].address == *a
                &&& final(self)@[i].secret == old(self)@[i].secret
                &&& final(self)@[i].digest == old(self)@[i].digest
                &&& final(self)@[i].name@ == name@
                &&& final(self)@[i].meta@ == old(self)@[i].meta@
            },
    {
        self.set_label(a, name, true)
    }

    /// Sets the meta of account `a`.
    pub fn set_meta(&mut self, a: &Address, meta: String) -> (r: Result<(), StoreError>)
        requires
            old(self).wf(),
        ensures
            final(self).wf(),
            match r {
                Ok(_) => old(self).has(*a),
                Err(e) => e == StoreError::InvalidAccount && !old(self).has(*a),
            },
            r is Err ==> final(self)@ == old(self)@,
            r is Ok ==> {
                let i = position(old(self)@, *a);
                &&& final(self)@.len() == old(self)@.len()
                &&& forall|j: int| 0 <= j < old(self)@.len() && j != i ==> final(self)@[j] == old(self)@[j]
                &&& final(self)@[i].address == *a
                &&& final(self)@[i].secret == old(self)@[i].secret
                &&& final(self)@[i].digest == old(self)@[i].digest
                &&& final(self)@[i].name@ == old(self)@[i].name@
                &&& final(self)@[i].meta@ == meta@
            },
    {
        self.set_label(a, meta, false)
    }

    /// Installs a copy of account `a` (opened by `password`) into `dest`,
    /// under `new_password`.
    pub fn copy_account(
        &self,
        dest: &mut TransientStore,
        a: &Address,
        password: &str,
        new_password: &str,
    ) -> (r: Result<(), StoreError>)
        requires
            self.wf(),
            old(dest).wf(),
        ensures
            final(dest).wf(),
            r == self.check(*a, password@),
            r is Err ==> final(dest)@ == old(dest)@,
            r is Ok ==> {
                &&& final(dest)@.drop_last() == old(dest)@
                &&& final(dest)@.len() == old(dest)@.len() + 1
                &&& final(dest)@.last().address == *a
                &&& final(dest)@.last().secret == self.entry(*a).secret
                &&& final(dest)@.last().digest@ == password_digest(*a, new_password@)
            },
    {
        let i = self.unlocked_index(a, password)?;
        let key = new_key(*a, self.keys[i].secret, new_password);
        dest.insert(key);
        Ok(())
    }

    /// Named vaults live on disk; this store has none.
    pub fn create_vault(&self, name: &str, password: &str) -> (r: Result<(), StoreError>)
        ensures
            r == Err::<(), StoreError>(StoreError::VaultsAreNotSupported),
    {
        Err(StoreError::VaultsAreNotSupported)
    }

    /// Named vaults live on disk; this store has none.
    pub fn open_vault(&self, name: &str, password: &str) -> (r: Result<(), StoreError>)
        ensures
            r == Err::<(), StoreError>(StoreError::VaultsAreNotSupported),
    {
        Err(StoreError::VaultsAreNotSupported)
    }

    /// Named vaults live on disk; this store has none.
    pub fn close_vault(&self, name: &str) -> (r: Result<(), StoreError>)
        ensures
            r == Err::<(), StoreError>(StoreError::VaultsAreNotSupported),
    {
        Err(StoreError::VaultsAreNotSupported)
    }

    /// Named vaults live on disk; this store has none.
    pub fn list_vaults(&self) -> (r: Result<Vec<String>, StoreError>)
        ensures
            r == Err::<Vec<String>, StoreError>(StoreError::VaultsAreNotSupported),
    {
        Err(StoreError::VaultsAreNotSupported)
    }

    /// Named vaults live on disk; this store has none.
    pub fn list_opened_vaults(&self) -> (r: Result<Vec<String>, StoreError>)
        ensures
            r == Err::<Vec<String>, StoreError>(StoreError::VaultsAreNotSupported),
    {
        Err(StoreError::VaultsAreNotSupported)
    }

    /// Named vaults live on disk; this store has none.
    pub fn change_vault_password(&self, name: &str, new_password: &str) -> (r: Result<
        (),
        StoreError,
    >)
        ensures
            r == Err::<(), StoreError>(StoreError::VaultsAreNotSupported),
    {
        Err(StoreError::VaultsAreNotSupported)
    }

    /// Moves account `a` to `vault`; every account already lives in the root
    /// scope, so moving there succeeds without change and a named vault is
    /// refused.
    pub fn change_account_vault(&self, vault: &VaultRef, a: &Address) -> (r: Result<
        (),
        StoreError,
    >)
        requires
            self.wf(),
        ensures
            !self.has(*a) ==> r == Err::<(), StoreError>(StoreError::InvalidAccount),
            self.has(*a) ==> match vault {
                VaultRef::Root => r is Ok,
                VaultRef::Vault(_) => r == Err::<(), StoreError>(
                    StoreError::VaultsAreNotSupported,
                ),
            },
    {
        self.account_ref(a)?;
        match vault {
            VaultRef::Root => Ok(()),
            VaultRef::Vault(_) => Err(StoreError::VaultsAreNotSupported),
        }
    }
}

/// The accounts a key store holds, as seen by the provider.
pub struct KeyState {
    pub keys: Seq<StoredKey>,
}

impl View for KeyState {
    type V = Seq<StoredKey>;

    open spec fn view(&self) -> Seq<StoredKey> {
        self.keys
    }
}

impl KeyState {
    pub open spec fn wf(&self) -> bool {
        unique_addresses(self@) && keys_valid(self@)
    }

    pub open spec fn has(&self, a: Address) -> bool {
        holds(self@, a)
    }

    pub open spec fn entry(&self, a: Address) -> StoredKey {
        self@[position(self@, a)]
    }

    pub open spec fn addresses(&self) -> Seq<Address> {
        addresses_of(self@)
    }

    /// `pw` is the password of account `a`.
    pub open spec fn password_is(&self, a: Address, pw: Seq<char>) -> bool {
        self.has(a) && self.entry(a).digest@ == password_digest(a, pw)
    }

    /// Whether `pw` opens account `a`, and which error comes when it does not.
    pub open spec fn check(&self, a: Address, pw: Seq<char>) -> Result<(), StoreError> {
        if !self.has(a) {
            Err(StoreError::InvalidAccount)
        } else if self.entry(a).digest@ != password_digest(a, pw) {
            Err(StoreError::InvalidPassword)
        } else {
            Ok(())
        }
    }
}

/// A store of accounts with one password each, as the provider uses it.
/// `state` is what it holds; each operation says how that changes.
pub trait SecretStore: Sized {
    spec fn state(&self) -> KeyState;

    /// The identifier the store gave account `a`, if it keeps one.
    spec fn uuid_of(&self, a: Address) -> Option<Seq<char>>;

    /// The identifier the store gave account `a`, if it keeps one.
    fn uuid(&self, a: &Address) -> (r: Option<String>)
        ensures
            match r {
                Some(u) => self.uuid_of(*a) == Some(u@),
                None => self.uuid_of(*a) is None,
            },
    ;

    /// The addresses of all accounts, in insertion order.
    fn accounts(&self) -> (r: Vec<Address>)
        ensures
            r@ == self.state().addresses(),
    ;

    /// Resolves an address to the account that holds it.
    fn account_ref(&self, a: &Address) -> (r: Result<Address, StoreError>)
        requires
            self.state().wf(),
        ensures
            match r {
                Ok(x) => x == *a && self.state().has(*a),
                Err(e) => e == StoreError::InvalidAccount && !self.state().has(*a),
            },
    ;

    /// Adds an account for `secret`, with empty name and meta `{}`. A secret
    /// that is not a valid key, or whose address is already present, is
    /// refused.
    fn insert_account(&mut self, secret: Secret, password: &str) -> (r: Result<
        Address,
        StoreError,
    >)
        requires
            old(self).state().wf(),
        ensures
            final(self).state().wf(),
            match address_of_secret(secret.0@) {
                None => r == Err::<Address, StoreError>(StoreError::CreationFailed) && final(self).state()@ == old(self).state()@,
                Some(b) => if holds_bytes(old(self).state()@, b) {
                    r == Err::<Address, StoreError>(StoreError::AccountExists) && final(self).state()@ == old(self).state()@
                } else {
                    &&& r is Ok
                    &&& r->Ok_0.0@ == b
                    &&& final(self).state()@.drop_last() == old(self).state()@
                    &&& final(self).state()@.len() == old(self).state()@.len() + 1
                    &&& final(self).state()@.last().address == r->Ok_0
                    &&& final(self).state()@.last().secret == secret
                    &&& final(self).state()@.last().digest@ == password_digest(r->Ok_0, password@)
                    &&& final(self).state()@.last().name@ == Seq::<char>::empty()
                    &&& final(self).state()@.last().meta@ == seq!['{', '}']
                },
            },
    ;

    /// Whether `password` opens account `a`.
    fn test_password(&self, a: &Address, password: &str) -> (r: Result<bool, StoreError>)
        requires
            self.state().wf(),
        ensures
            match r {
                Ok(b) => self.state().has(*a) && b == self.state().password_is(*a, password@),
                Err(e) => e == StoreError::InvalidAccount && !self.state().has(*a),
            },
    ;

    /// Signs `message` with account `a`, opened by `password`.
    fn sign(&self, a: &Address, password: &str, message: &Message) -> (r: Result<
        Signature,
        StoreError,
    >)
        requires
            self.state().wf(),
        ensures
            match self.state().check(*a, password@) {
                Err(e) => r == Err::<Signature, StoreError>(e),
                Ok(_) => r is Ok && signature_of(self.state().entry(*a).secret.0@, message.0@) == Some(
                    r->Ok_0.0@,
                ),
            },
    ;

    /// Decrypts an ECIES `message` for account `a`, opened by `password`.
    fn decrypt(&self, a: &Address, password: &str, shared_mac: &[u8], message: &[u8]) -> (r:
        Result<Vec<u8>, StoreError>)
        requires
            self.state().wf(),
        ensures
            match self.state().check(*a, password@) {
                Err(e) => r == Err::<Vec<u8>, StoreError>(e),
                Ok(_) => match decrypt_result(self.state().entry(*a).secret, shared_mac@, message@) {
                    Ok(plain) => r is Ok && r->Ok_0@ == plain,
                    Err(e) => r == Err::<Vec<u8>, StoreError>(e),
                },
            },
    ;

    /// Removes account `a`, which `password` must open.
    fn remove_account(&mut self, a: &Address, password: &str) -> (r: Result<(), StoreError>)
        requires
            old(self).state().wf(),
        ensures
            final(self).state().wf(),
            r == old(self).state().check(*a, password@),
            r is Err ==> final(self).state()@ == old(self).state()@,
            r is Ok ==> final(self).state()@ == old(self).state()@.remove(position(old(self).state()@, *a)),
    ;

    /// Replaces the password of account `a`, which `password` must open.
    fn change_password(&mut self, a: &Address, password: &str, new_password: &str) -> (r:
        Result<(), StoreError>)
        requires
            old(self).state().wf(),
        ensures
            final(self).state().wf(),
            r == old(self).state().check(*a, password@),
            r is Err ==> final(self).state()@ == old(self).state()@,
            r is Ok ==> {
                let i = position(old(self).state()@, *a);
                &&& final(self).state()@.len() == old(self).state()@.len()
                &&& forall|j: int| 0 <= j < old(self).state()@.len() && j != i ==> final(self).state()@[j] == old(self).state()@[j]
                &&& final(self).state()@[i].address == *a
                &&& final(self).state()@[i].secret == old(self).state()@[i].secret
                &&& final(self).state()@[i].digest@ == password_digest(*a, new_password@)
                &&& final(self).state()@[i].name == old(self).state()@[i].name
                &&& final(self).state()@[i].meta == old(self).state()@[i].meta
            },
    ;

    /// The name of account `a`.
    fn name(&self, a: &Address) -> (r: Result<String, StoreError>)
        requires
            self.state().wf(),
        ensures
            match r {
                Ok(n) => self.state().has(*a) && n@ == self.state().entry(*a).name@,
                Err(e) => e == StoreError::InvalidAccount && !self.state().has(*a),
            },
    ;

    /// The meta of account `a`.
    fn meta(&self, a: &Address) -> (r: Result<String, StoreError>)
        requires
            self.state().wf(),
        ensures
            match r {
                Ok(m) => self.state().has(*a) && m@ == self.state().entry(*a).meta@,
                Err(e) => e == StoreError::InvalidAccount && !self.state().has(*a),
            },
    ;

    /// Sets the name of account `a`.
    fn set_name(&mut self, a: &Address, name: String) -> (r: Result<(), StoreError>)
        requires
            old(self).state().wf(),
        ensures
            final(self).state().wf(),
            match r {
                Ok(_) => old(self).state().has(*a),
                Err(e) => e == StoreError::InvalidAccount && !old(self).state().has(*a),
            },
            r is Err ==> final(self).state()@ == old(self).state()@,
            r is Ok ==> {
                let i = position(old(self).state()@, *a);
                &&& final(self).state()@.len() == old(self).state()@.len()
                &&& forall|j: int| 0 <= j < old(self).state()@.len() && j != i ==> final(self).state()@[j] == old(self).state()@[j]
                &&& final(self).state()@[i].address == *a
                &&& final(self).state()@[i].secret == old(self).state()@[i].secret
                &&& final(self).state()@[i].digest == old(self).state()@[i].digest
                &&& final(self).state()@[i].name@ == name@
                &&& final(self).state()@[i].meta@ == old(self).state()@[i].meta@
            },
    ;

    /// Sets the meta of account `a`.
    fn set_meta(&mut self, a: &Address, meta: String) -> (r: Result<(), StoreError>)
        requires
            old(self).state().wf(),
        ensures
            final(self).state().wf(),
            match r {
                Ok(_) => old(self).state().has(*a),
                Err(e) => e == StoreError::InvalidAccount && !old(self).state().has(*a),
            },
            r is Err ==> final(self).state()@ == old(self).state()@,
            r is Ok ==> {
                let i = position(old(self).state()@, *a);
                &&& final(self).state()@.len() == old(self).state()@.len()
                &&& forall|j: int| 0 <= j < old(self).state()@.len() && j != i ==> final(self).state()@[j] == old(self).state()@[j]
                &&& final(self).state()@[i].address == *a
                &&& final(self).state()@[i].secret == old(self).state()@[i].secret
                &&& final(self).state()@[i].digest == old(self).state()@[i].digest
                &&& final(self).state()@[i].name@ == old(self).state()@[i].name@
                &&& final(self).state()@[i].meta@ == meta@
            },
    ;

    /// Installs a copy of account `a` (opened by `password`) into `dest`,
    /// under `new_password`.
    fn copy_account(
        &self,
        dest: &mut TransientStore,
        a: &Address,
        password: &str,
        new_password: &str,
    ) -> (r: Result<(), StoreError>)
        requires
            self.state().wf(),
            old(dest).wf(),
        ensures
            final(dest).wf(),
            r == self.state().check(*a, password@),
            r is Err ==> final(dest)@ == old(dest)@,
            r is Ok ==> {
                &&& final(dest)@.drop_last() == old(dest)@
                &&& final(dest)@.len() == old(dest)@.len() + 1
                &&& final(dest)@.last().address == *a
                &&& final(dest)@.last().secret == self.state().entry(*a).secret
                &&& final(dest)@.last().digest@ == password_digest(*a, new_password@)
            },
    ;

    /// Moves account `a` to `vault`; moving an account of the store to the
    /// root scope succeeds.
    fn change_account_vault(&self, vault: &VaultRef, a: &Address) -> (r: Result<
        (),
        StoreError,
    >)
        requires
            self.state().wf(),
        ensures
            !self.state().has(*a) ==> r == Err::<(), StoreError>(StoreError::InvalidAccount),
            self.state().has(*a) && *vault is Root ==> r is Ok,
    ;

    /// Creates a named vault.
    fn create_vault(&mut self, name: &str, password: &str) -> (r: Result<(), StoreError>)
        ensures
            final(self).state() == old(self).state(),
    ;

    /// Opens a named vault.
    fn open_vault(&mut self, name: &str, password: &str) -> (r: Result<(), StoreError>)
        ensures
            final(self).state() == old(self).state(),
    ;

    /// Closes a named vault.
    fn close_vault(&mut self, name: &str) -> (r: Result<(), StoreError>)
        ensures
            final(self).state() == old(self).state(),
    ;

    /// The names of all vaults.
    fn list_vaults(&self) -> (r: Result<Vec<String>, StoreError>);

    /// The names of the open vaults.
    fn list_opened_vaults(&self) -> (r: Result<Vec<String>, StoreError>);

    /// Changes the password of a named vault.
    fn change_vault_password(&mut self, name: &str, new_password: &str) -> (r: Result<(), StoreError>)
        ensures
            final(self).state() == old(self).state(),
    ;
}

impl SecretStore for KeyStore {
    open spec fn state(&self) -> KeyState {
        KeyState { keys: self@ }
    }

    /// This store keeps no identifiers.
    open spec fn uuid_of(&self, a: Address) -> Option<Seq<char>> {
        None
    }

    fn uuid(&self, a: &Address) -> (r: Option<String>) {
        None
    }

    fn accounts(&self) -> (r: Vec<Address>) {
        KeyStore::accounts(self)
    }

    fn account_ref(&self, a: &Address) -> (r: Result<Address, StoreError>) {
        KeyStore::account_ref(self, a)
    }

    fn insert_account(&mut self, secret: Secret, password: &str) -> (r: Result<
        Address,
        StoreError,
    >) {
        KeyStore::insert_account(self, secret, password)
    }

    fn test_password(&self, a: &Address, password: &str) -> (r: Result<bool, StoreError>) {
        KeyStore::test_password(self, a, password)
    }

    fn sign(&self, a: &Address, password: &str, message: &Message) -> (r: Result<
        Signature,
        StoreError,
    >) {
        KeyStore::sign(self, a, password, message)
    }

    fn decrypt(&self, a: &Address, password: &str, shared_mac: &[u8], message: &[u8]) -> (r:
        Result<Vec<u8>, StoreError>) {
        KeyStore::decrypt(self, a, password, shared_mac, message)
    }

    fn remove_account(&mut self, a: &Address, password: &str) -> (r: Result<(), StoreError>) {
        KeyStore::remove_account(self, a, password)
    }

    fn change_password(&mut self, a: &Address, password: &str, new_password: &str) -> (r:
        Result<(), StoreError>) {
        KeyStore::change_password(self, a, password, new_password)
    }

    fn name(&self, a: &Address) -> (r: Result<String, StoreError>) {
        KeyStore::name(self, a)
    }

    fn meta(&self, a: &Address) -> (r: Result<String, StoreError>) {
        KeyStore::meta(self, a)
    }

    fn set_name(&mut self, a: &Address, name: String) -> (r: Result<(), StoreError>) {
        KeyStore::set_name(self, a, name)
    }

    fn set_meta(&mut self, a: &Address, meta: String) -> (r: Result<(), StoreError>) {
        KeyStore::set_meta(self, a, meta)
    }

    fn copy_account(
        &self,
        dest: &mut TransientStore,
        a: &Address,
        password: &str,
        new_password: &str,
    ) -> (r: Result<(), StoreError>) {
        KeyStore::copy_account(self, dest, a, password, new_password)
    }

    fn change_account_vault(&self, vault: &VaultRef, a: &Address) -> (r: Result<
        (),
        StoreError,
    >) {
        KeyStore::change_account_vault(self, vault, a)
    }

    fn create_vault(&mut self, name: &str, password: &str) -> (r: Result<(), StoreError>) {
        KeyStore::create_vault(self, name, password)
    }

    fn open_vault(&mut self, name: &str, password: &str) -> (r: Result<(), StoreError>) {
        KeyStore::open_vault(self, name, password)
    }

    fn close_vault(&mut self, name: &str) -> (r: Result<(), StoreError>) {
        KeyStore::close_vault(self, name)
    }

    fn list_vaults(&self) -> (r: Result<Vec<String>, StoreError>) {
        KeyStore::list_vaults(self)
    }

    fn list_opened_vaults(&self) -> (r: Result<Vec<String>, StoreError>) {
        KeyStore::list_opened_vaults(self)
    }

    fn change_vault_password(&mut self, name: &str, new_password: &str) -> (r: Result<(), StoreError>) {
        KeyStore::change_vault_password(self, name, new_password)
    }
}

/// The scope an account lives in.
#[derive(Debug, PartialEq, Eq)]
pub enum VaultRef {
    /// The store itself.
    Root,
    /// A named vault inside it.
    Vault(String),
}

/// The transient store: copies of accounts under session passwords; an
/// address may appear more than once.
pub struct TransientStore {
    keys: Vec<StoredKey>,
}

impl View for TransientStore {
    type V = Seq<StoredKey>;

    closed spec fn view(&self) -> Seq<StoredKey> {
        self.keys@
    }
}

impl TransientStore {
    pub open spec fn wf(&self) -> bool {
        keys_valid(self@)
    }

    pub open spec fn knows(&self, a: Address) -> bool {
        holds(self@, a)
    }

    /// Some copy of `a` opens with `pw`.
    pub open spec fn opens(&self, a: Address, pw: Seq<char>) -> bool {
        exists|i: int| 0 <= i < self@.len() && opens_with(#[trigger] self@[i], a, pw)
    }

    /// Whether `pw` opens a copy of `a`, and which error comes when none does.
    pub open spec fn check(&self, a: Address, pw: Seq<char>) -> Result<(), StoreError> {
        if !self.knows(a) {
            Err(StoreError::InvalidAccount)
        } else if !self.opens(a, pw) {
            Err(StoreError::InvalidPassword)
        } else {
            Ok(())
        }
    }

    /// An empty store.
    pub fn new() -> (r: Self)
        ensures
            r.wf(),
            r@ == Seq::<StoredKey>::empty(),
    {
        TransientStore { keys: Vec::new() }
    }

    fn insert(&mut self, key: StoredKey)
        requires
            old(self).wf(),
            address_of_secret(key.secret.0@) == Some(key.address.0@),
        ensures
            final(self).wf(),
            final(self)@ == old(self)@.push(key),
    {
        self.keys.push(key);
    }

    fn first_match(&self, a: &Address, password: &str) -> (r: Result<usize, StoreError>)
        requires
            self.wf(),
        ensures
            match r {
                Ok(i) => self.check(*a, password@) is Ok && i < self@.len() && opens_with(
                    self@[i as int],
                    *a,
                    password@,
                ),
                Err(e) => self.check(*a, password@) == Err::<(), StoreError>(e),
            },
    {
        let digest = digest_password(a, password);
        let mut known = false;
        let mut i: usize = 0;
        while i < self.keys.len()
            invariant
                0 <= i <= self.keys.len(),
                forall|j: int| 0 <= j < i ==> !opens_with(#[trigger] self@[j], *a, password@),
                known <==> exists|j: int| 0 <= j < i && (#[trigger] self@[j]).address == *a,
                digest@ == password_digest(*a, password@),
            decreases self.keys.len() - i,
        {
            if self.keys[i].address.same_as(a) {
                if same_digest(&self.keys[i].digest, &digest) {
                    return Ok(i);
                }
                known = true;
            }
            i += 1;
        }
        if known {
            Err(StoreError::InvalidPassword)
        } else {
            Err(StoreError::InvalidAccount)
        }
    }

    /// Signs with a copy of `a` that `password` opens.
    pub fn sign(&self, a: &Address, password: &str, message: &Message) -> (r: Result<
        Signature,
        StoreError,
    >)
        requires
            self.wf(),
        ensures
            match self.check(*a, password@) {
                Err(e) => r == Err::<Signature, StoreError>(e),
                Ok(_) => r is Ok && exists|i: int|
                    0 <= i < self@.len() && opens_with(#[trigger] self@[i], *a, password@)
                        && signature_of(self@[i].secret.0@, message.0@) == Some(r->Ok_0.0@),
            },
    {
        let i = self.first_match(a, password)?;
        match sign_hash(&self.keys[i].secret, message) {
            Some(s) => Ok(s),
            None => {
                proof {
                    assert(address_of_secret(self@[i as int].secret.0@) is Some);
                }
                vstd::pervasive::unreached()
            },
        }
    }

    /// Decrypts with a copy of `a` that `password` opens.
    pub fn decrypt(&self, a: &Address, password: &str, shared_mac: &[u8], message: &[u8]) -> (r:
        Result<Vec<u8>, StoreError>)
        requires
            self.wf(),
        ensures
            match self.check(*a, password@) {
                Err(e) => r == Err::<Vec<u8>, StoreError>(e),
                Ok(_) => exists|i: int|
                    0 <= i < self@.len() && opens_with(#[trigger] self@[i], *a, password@)
                        && match decrypt_result(self@[i].secret, shared_mac@, message@) {
                        Ok(plain) => r is Ok && r->Ok_0@ == plain,
                        Err(e) => r == Err::<Vec<u8>, StoreError>(e),
                    },
            },
    {
        let i = self.first_match(a, password)?;
        decrypt_with_secret(&self.keys[i].secret, shared_mac, message)
    }

    /// Moves every copy of `a` that `password` opens to `new_password`.
    pub fn change_password(&mut self, a: &Address, password: &str, new_password: &str) -> (r:
        Result<(), StoreError>)
        requires
            old(self).wf(),
        ensures
            final(self).wf(),
            r == old(self).check(*a, password@),
            r is Err ==> final(self)@ == old(self)@,
            r is Ok ==> {
                &&& final(self)@.len() == old(self)@.len()
                &&& forall|j: int|
                    0 <= j < old(self)@.len() ==> {
                        &&& (#[trigger] final(self)@[j]).address == old(self)@[j].address
                        &&& final(self)@[j].secret == old(self)@[j].secret
                        &&& final(self)@[j].digest@ == if opens_with(
                            old(self)@[j],
                            *a,
                            password@,
                        ) {
                            password_digest(*a, new_password@)
                        } else {
                            old(self)@[j].digest@
                        }
                    }
            },
    {
        self.first_match(a, password)?;
        let digest = digest_password(a, password);
        let new_digest = digest_password(a, new_password);
        let mut i: usize = 0;
        while i < self.keys.len()
            invariant
                0 <= i <= self.keys.len(),
                self.keys.len() == old(self)@.len(),
                keys_valid(self@),
                digest@ == password_digest(*a, password@),
                new_digest@ == password_digest(*a, new_password@),
                forall|j: int|
                    i <= j < self@.len() ==> #[trigger] self@[j] == old(self)@[j],
                forall|j: int|
                    0 <= j < i ==> {
                        &&& (#[trigger] self@[j]).address == old(self)@[j].address
                        &&& self@[j].secret == old(self)@[j].secret
                        &&& self@[j].digest@ == if opens_with(old(self)@[j], *a, password@) {
                            password_digest(*a, new_password@)
                        } else {
                            old(self)@[j].digest@
                        }
                    },
            decreases self.keys.len() - i,
        {
            if self.keys[i].address.same_as(a) && same_digest(&self.keys[i].digest, &digest) {
                let mut key = self.keys.remove(i);
                key.digest = new_digest;
                self.keys.insert(i, key);
            }
            i += 1;
        }
        Ok(())
    }
}

/// Decrypts with a known secret.
fn decrypt_with_secret(secret: &Secret, shared_mac: &[u8], message: &[u8]) -> (r: Result<
    Vec<u8>,
    StoreError,
>)
    ensures
        match decrypt_result(*secret, shared_mac@, message@) {
            Ok(plain) => r is Ok && r->Ok_0@ == plain,
            Err(e) => r == Err::<Vec<u8>, StoreError>(e),
        },
{
    if message.len() == 0 {
        return Err(StoreError::InvalidMessage);
    }
    match ecies_decrypt(secret, shared_mac, message) {
        Some(plain) => Ok(plain),
        None => Err(StoreError::InvalidMessage),
    }
}

} // verus!
