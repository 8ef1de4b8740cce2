//! The address book and the per-application settings: the policy for
//! applications seen for the first time, the addresses pinned for each
//! application, and when each was last used.

use vstd::prelude::*;
use crate::types::Address;
use crate::keyed::{Key, KeyedVec};

verus! {

/// An application's identifier.
#[derive(Debug, Default, PartialEq, Eq, Hash, PartialOrd, Ord)]
pub struct DappId(String);

impl View for DappId {
    type V = Seq<char>;

    closed spec fn view(&self) -> Seq<char> {
        self.0@
    }
}

impl Key for DappId {
    fn key_eq(&self, other: &Self) -> (r: bool) {
        self.0 == other.0
    }

    fn copy_key(&self) -> (r: Self) {
        DappId(self.0.clone())
    }
}

impl DappId {
    /// An identifier from a string.
    pub fn new(id: &str) -> (r: DappId)
        ensures
            r@ == id@,
    {
        DappId(id.to_owned())
    }

    /// An identifier that owns `id`.
    pub fn from_string(id: String) -> (r: DappId)
        ensures
            r@ == id@,
    {
        DappId(id)
    }

    /// The identifier as a string.
    pub fn as_string(&self) -> (r: String)
        ensures
            r@ == self@,
    {
        self.0.clone()
    }
}

impl From<String> for DappId {
    fn from(id: String) -> (r: DappId) {
        DappId(id)
    }
}

impl vstd::std_specs::convert::FromSpecImpl<String> for DappId {
    open spec fn obeys_from_spec() -> bool {
        true
    }

    closed spec fn from_spec(v: String) -> DappId {
        DappId(v)
    }
}

impl<'a> From<&'a str> for DappId {
    fn from(id: &'a str) -> (r: DappId) {
        DappId::new(id)
    }
}

impl<'a> vstd::std_specs::convert::FromSpecImpl<&'a str> for DappId {
    open spec fn obeys_from_spec() -> bool {
        false
    }

    open spec fn from_spec(v: &'a str) -> DappId {
        arbitrary()
    }
}

impl From<DappId> for String {
    fn from(id: DappId) -> (r: String) {
        id.0
    }
}

impl vstd::std_specs::convert::FromSpecImpl<DappId> for String {
    open spec fn obeys_from_spec() -> bool {
        true
    }

    closed spec fn from_spec(v: DappId) -> String {
        v.0
    }
}

/// Name, meta and (for keys on disk) identifier of an address.
#[derive(Debug, PartialEq, Eq)]
pub struct AccountMeta {
    pub name: String,
    pub meta: String,
    pub uuid: Option<String>,
}

pub fn copy_meta(m: &AccountMeta) -> (r: AccountMeta)
    ensures
        r.name@ == m.name@,
        r.meta@ == m.meta@,
        r.uuid is Some <==> m.uuid is Some,
        m.uuid is Some ==> r.uuid->Some_0@ == m.uuid->Some_0@,
{
    let uuid = match &m.uuid {
        Some(u) => Some(u.clone()),
        None => None,
    };
    AccountMeta { name: m.name.clone(), meta: m.meta.clone(), uuid }
}

/// The meta an address gets when it is first named.
pub open spec fn default_meta() -> Seq<char> {
    seq!['{', '}']
}

/// Names and metadata for any addresses, owned or not.
pub struct AddressBook {
    book: KeyedVec<Address, AccountMeta>,
}

impl AddressBook {
    pub closed spec fn wf(&self) -> bool {
        self.book.wf()
    }

    pub closed spec fn view(&self) -> Map<Address, AccountMeta> {
        self.book@
    }

    /// The addresses in the book, in the order they were first named.
    pub closed spec fn order(&self) -> Seq<Address> {
        self.book.key_order()
    }

    /// An empty book.
    pub fn new() -> (r: Self)
        ensures
            r.wf(),
            r.view() == Map::<Address, AccountMeta>::empty(),
    {
        AddressBook { book: KeyedVec::new() }
    }

    /// Whether `a` is in the book.
    pub fn contains(&self, a: &Address) -> (r: bool)
        requires
            self.wf(),
        ensures
            r == self.view().contains_key(*a),
    {
        self.book.contains(a)
    }

    /// Every entry, in the order the addresses were first named.
    pub fn get(&self) -> (r: Vec<(Address, AccountMeta)>)
        requires
            self.wf(),
        ensures
            r@.len() == self.order().len(),
            forall|i: int|
                0 <= i < r@.len() ==> {
                    let (a, m) = #[trigger] r@[i];
                    &&& a == self.order()[i]
                    &&& self.view().contains_key(a)
                    &&& m.name@ == self.view()[a].name@
                    &&& m.meta@ == self.view()[a].meta@
                },
            forall|a: Address| #[trigger] self.view().contains_key(a) <==> self.order().contains(a),
    {
        let keys = self.book.keys();
        let mut r: Vec<(Address, AccountMeta)> = Vec::new();
        let mut i: usize = 0;
        proof {
            assert forall|j: int| 0 <= j < keys@.len() implies keys@[j] == self.order()[j] by {
                assert(keys@.map_values(|k: Address| k@)[j] == keys@[j]);
            }
        }
        while i < keys.len()
            invariant
                self.wf(),
                0 <= i <= keys@.len(),
                keys@.len() == self.order().len(),
                forall|j: int| 0 <= j < keys@.len() ==> keys@[j] == self.order()[j],
                forall|a: Address| self.view().contains_key(a) <==> self.order().contains(a),
                r@.len() == i,
                forall|j: int|
                    0 <= j < i ==> {
                        let (a, m) = #[trigger] r@[j];
                        &&& a == self.order()[j]
                        &&& self.view().contains_key(a)
                        &&& m.name@ == self.view()[a].name@
                        &&& m.meta@ == self.view()[a].meta@
                    },
            decreases keys@.len() - i,
        {
            let a = keys[i];
            assert(self.order().contains(a)) by {
                assert(self.order()[i as int] == a);
            }
            if let Some(m) = self.book.get(&a) {
                r.push((a, copy_meta(m)));
            }
            i += 1;
        }
        r
    }

    fn set_field(&mut self, a: Address, value: String, is_name: bool)
        requires
            old(self).wf(),
        ensures
            final(self).wf(),
            final(self).view().remove(a) == old(self).view().remove(a),
            final(self).view().contains_key(a),
            final(self).view()[a].name@ == if is_name {
                value@
            } else if old(self).view().contains_key(a) {
                old(self).view()[a].name@
            } else {
                Seq::<char>::empty()
            },
            final(self).view()[a].meta@ == if !is_name {
                value@
            } else if old(self).view().contains_key(a) {
                old(self).view()[a].meta@
            } else {
                default_meta()
            },
    {
        let mut m = match self.book.get(&a) {
            Some(m) => copy_meta(m),
            None => {
                let meta = "{}".to_owned();
                proof {
                    reveal_strlit("{}");
                }
                AccountMeta { name: String::new(), meta, uuid: None }
            },
        };
        if is_name {
            m.name = value;
        } else {
            m.meta = value;
        }
        self.book.insert(a, m);
        assert(self.view().remove(a) =~= old(self).view().remove(a));
    }

    /// Names `a`, adding it to the book (with meta `{}`) if needed.
    pub fn set_name(&mut self, a: Address, name: String)
        requires
            old(self).wf(),
        ensures
            final(self).wf(),
            final(self).view().remove(a) == old(self).view().remove(a),
            final(self).view().contains_key(a),
            final(self).view()[a].name@ == name@,
            final(self).view()[a].meta@ == if old(self).view().contains_key(a) {
                old(self).view()[a].meta@
            } else {
                default_meta()
            },
    {
        self.set_field(a, name, true)
    }

    /// Sets the meta of `a`, adding it to the book (with an empty name) if needed.
    pub fn set_meta(&mut self, a: Address, meta: String)
        requires
            old(self).wf(),
        ensures
            final(self).wf(),
            final(self).view().remove(a) == old(self).view().remove(a),
            final(self).view().contains_key(a),
            final(self).view()[a].meta@ == meta@,
            final(self).view()[a].name@ == if old(self).view().contains_key(a) {
                old(self).view()[a].name@
            } else {
                Seq::<char>::empty()
            },
    {
        self.set_field(a, meta, false)
    }

    /// Drops `a` from the book.
    pub fn remove(&mut self, a: Address)
        requires
            old(self).wf(),
        ensures
            final(self).wf(),
            final(self).view() == old(self).view().remove(a),
    {
        self.book.remove(&a)
    }
}

/// Which addresses an application without settings of its own sees.
#[derive(Debug, PartialEq, Eq)]
pub enum NewDappsPolicy {
    /// Every account.
    AllAccounts,
    /// The listed addresses that are accounts or in the address book.
    Whitelist(Vec<Address>),
}

/// The settings pinned for one application.
#[derive(Debug, PartialEq, Eq)]
pub struct DappSettings {
    pub accounts: Vec<Address>,
}

pub fn copy_addresses(v: &Vec<Address>) -> (r: Vec<Address>)
    ensures
        r@ == v@,
{
    let mut r: Vec<Address> = Vec::new();
    let mut i: usize = 0;
    while i < v.len()
        invariant
            0 <= i <= v.len(),
            r@ == v@.take(i as int),
        decreases v.len() - i,
    {
        r.push(v[i]);
        i += 1;
        assert(r@ =~= v@.take(i as int));
    }
    assert(v@.take(v@.len() as int) =~= v@);
    r
}

/// The policy, per-application settings and recent use of applications.
pub struct DappsSettingsStore {
    policy: NewDappsPolicy,
    settings: KeyedVec<DappId, DappSettings>,
    recent: KeyedVec<DappId, u64>,
}

impl DappsSettingsStore {
    pub closed spec fn wf(&self) -> bool {
        self.settings.wf() && self.recent.wf()
    }

    /// The whitelist for new applications; `None` when they see every account.
    pub closed spec fn whitelist(&self) -> Option<Seq<Address>> {
        match self.policy {
            NewDappsPolicy::AllAccounts => None,
            NewDappsPolicy::Whitelist(v) => Some(v@),
        }
    }

    /// The addresses pinned for each application.
    pub closed spec fn pinned(&self) -> Map<Seq<char>, Seq<Address>> {
        self.settings@.map_values(|s: DappSettings| s.accounts@)
    }

    /// When each application was last used.
    pub closed spec fn recent(&self) -> Map<Seq<char>, u64> {
        self.recent@
    }

    /// Fresh settings: every account visible, nothing pinned, nothing used.
    pub fn new() -> (r: Self)
        ensures
            r.wf(),
            r.whitelist() is None,
            r.pinned() == Map::<Seq<char>, Seq<Address>>::empty(),
            r.recent() == Map::<Seq<char>, u64>::empty(),
    {
        let r = DappsSettingsStore {
            policy: NewDappsPolicy::AllAccounts,
            settings: KeyedVec::new(),
            recent: KeyedVec::new(),
        };
        assert(r.pinned() =~= Map::<Seq<char>, Seq<Address>>::empty());
        r
    }

    /// The policy for new applications.
    pub fn policy(&self) -> (r: Option<Vec<Address>>)
        ensures
            match r {
                Some(v) => self.whitelist() == Some(v@),
                None => self.whitelist() is None,
            },
    {
        match &self.policy {
            NewDappsPolicy::AllAccounts => None,
            NewDappsPolicy::Whitelist(v) => Some(copy_addresses(v)),
        }
    }

    /// Replaces the policy for new applications.
    pub fn set_policy(&mut self, policy: NewDappsPolicy)
        requires
            old(self).wf(),
        ensures
            final(self).wf(),
            final(self).whitelist() == match policy {
                NewDappsPolicy::AllAccounts => None,
                NewDappsPolicy::Whitelist(v) => Some(v@),
            },
            final(self).pinned() == old(self).pinned(),
            final(self).recent() == old(self).recent(),
    {
        self.policy = policy;
    }

    /// The addresses pinned for `dapp`, if any.
    pub fn accounts_for(&self, dapp: &DappId) -> (r: Option<Vec<Address>>)
        requires
            self.wf(),
        ensures
            match r {
                Some(v) => self.pinned().contains_key(dapp@) && v@ == self.pinned()[dapp@],
                None => !self.pinned().contains_key(dapp@),
            },
    {
        match self.settings.get(dapp) {
            Some(s) => Some(copy_addresses(&s.accounts)),
            None => None,
        }
    }

    /// Pins `accounts` for `dapp`.
    pub fn set_accounts(&mut self, dapp: DappId, accounts: Vec<Address>)
        requires
            old(self).wf(),
        ensures
            final(self).wf(),
            final(self).pinned() == old(self).pinned().insert(dapp@, accounts@),
            final(self).whitelist() == old(self).whitelist(),
            final(self).recent() == old(self).recent(),
    {
        let ghost d = dapp@;
        let ghost v = accounts@;
        self.settings.insert(dapp, DappSettings { accounts });
        assert(self.pinned() =~= old(self).pinned().insert(d, v));
    }

    /// Records that `dapp` was used at `timestamp`.
    pub fn mark_dapp_used(&mut self, dapp: DappId, timestamp: u64)
        requires
            old(self).wf(),
        ensures
            final(self).wf(),
            final(self).recent() == old(self).recent().insert(dapp@, timestamp),
            final(self).pinned() == old(self).pinned(),
            final(self).whitelist() == old(self).whitelist(),
    {
        self.recent.insert(dapp, timestamp);
    }

    /// Each application used so far, with when it was last used.
    pub fn recent_dapps(&self) -> (r: Vec<(DappId, u64)>)
        requires
            self.wf(),
        ensures
            forall|i: int|
                0 <= i < r@.len() ==> self.recent().contains_key((#[trigger] r@[i]).0@) && r@[i].1
                    == self.recent()[r@[i].0@],
            forall|d: Seq<char>|
                #[trigger] self.recent().contains_key(d) ==> exists|i: int|
                    0 <= i < r@.len() && (#[trigger] r@[i]).0@ == d,
    {
        let keys = self.recent.keys();
        let mut r: Vec<(DappId, u64)> = Vec::new();
        let mut i: usize = 0;
        while i < keys.len()
            invariant
                self.wf(),
                0 <= i <= keys@.len(),
                keys@.map_values(|k: DappId| k@) == self.recent.key_order(),
                forall|d: Seq<char>| self.recent@.contains_key(d) <==> self.recent.key_order().contains(d),
                r@.len() == i,
                forall|j: int|
                    0 <= j < i ==> (#[trigger] r@[j]).0@ == keys@[j]@ && self.recent().contains_key(
                        r@[j].0@,
                    ) && r@[j].1 == self.recent()[r@[j].0@],
            decreases keys@.len() - i,
        {
            let ghost kv = keys@[i as int]@;
            assert(self.recent.key_order()[i as int] == kv) by {
                assert(keys@.map_values(|k: DappId| k@)[i as int] == kv);
            }
            assert(self.recent.key_order().contains(kv));
            match self.recent.get(&keys[i]) {
                Some(t) => {
                    r.push((keys[i].copy_key(), *t));
                },
                None => {},
            }
            i += 1;
        }
        proof {
            assert forall|d: Seq<char>| self.recent().contains_key(d) implies exists|i: int|
                0 <= i < r@.len() && (#[trigger] r@[i]).0@ == d by {
                assert(self.recent.key_order().contains(d));
                let j = choose|j: int| 0 <= j < self.recent.key_order().len() && self.recent.key_order()[j] == d;
                assert(keys@.map_values(|k: DappId| k@)[j] == d);
                assert(r@[j].0@ == d);
            }
        }
        r
    }
}

} // verus!
