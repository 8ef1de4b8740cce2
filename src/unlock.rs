//! The unlock table: which accounts may sign without a password, for how
//! long, and with which password.

use vstd::prelude::*;
use crate::types::Address;

verus! {

/// How an account was unlocked.
#[derive(Clone, Copy, Debug, PartialEq, Eq)]
pub enum Unlock {
    /// Locked again after the first use.
    Temp,
    /// Stays unlocked; never replaced by a weaker unlock.
    Perm,
    /// Unlocked while the clock (milliseconds) reads at most this deadline.
    Timed(u64),
}

/// The record kept for an unlocked account: its mode and password.
pub type UnlockRecord = (Unlock, Seq<char>);

/// The table after unlocking `a` with `pw` in `mode`: a permanent unlock is
/// kept as it is, anything else is replaced.
pub open spec fn unlock_step(
    m: Map<Address, UnlockRecord>,
    a: Address,
    pw: Seq<char>,
    mode: Unlock,
) -> Map<Address, UnlockRecord> {
    if m.contains_key(a) && m[a].0 == Unlock::Perm {
        m
    } else {
        m.insert(a, (mode, pw))
    }
}

/// The table after asking for the password of `a` at time `now`, and the
/// password if the account is unlocked: a one-shot unlock is consumed and an
/// expired timed unlock is dropped.
pub open spec fn take_step(m: Map<Address, UnlockRecord>, a: Address, now: u64) -> (
    Map<Address, UnlockRecord>,
    Option<Seq<char>>,
) {
    if !m.contains_key(a) {
        (m, None)
    } else {
        match m[a].0 {
            Unlock::Temp => (m.remove(a), Some(m[a].1)),
            Unlock::Perm => (m, Some(m[a].1)),
            Unlock::Timed(deadline) => if now > deadline {
                (m.remove(a), None)
            } else {
                (m, Some(m[a].1))
            },
        }
    }
}

struct UnlockEntry {
    address: Address,
    unlock: Unlock,
    password: String,
}

/// Unlocked accounts, one entry per address.
pub struct UnlockTable {
    entries: Vec<UnlockEntry>,
}

spec fn entries_unique(es: Seq<UnlockEntry>) -> bool {
    forall|i: int, j: int|
        0 <= i < es.len() && 0 <= j < es.len() && i != j ==> (#[trigger] es[i]).address != (
        #[trigger] es[j]).address
}

spec fn entry_index(es: Seq<UnlockEntry>, a: Address) -> int {
    choose|i: int| 0 <= i < es.len() && (#[trigger] es[i]).address == a
}

spec fn table_of(es: Seq<UnlockEntry>) -> Map<Address, UnlockRecord> {
    Map::new(
        |a: Address| exists|i: int| 0 <= i < es.len() && (#[trigger] es[i]).address == a,
        |a: Address| (es[entry_index(es, a)].unlock, es[entry_index(es, a)].password@),
    )
}

proof fn lemma_entry(es: Seq<UnlockEntry>, i: int)
    requires
        entries_unique(es),
        0 <= i < es.len(),
    ensures
        table_of(es).contains_key(es[i].address),
        table_of(es)[es[i].address] == (es[i].unlock, es[i].password@),
{
    let a = es[i].address;
    assert(es[i].address == a);
    let j = entry_index(es, a);
    assert(es[j].address == a);
}

proof fn lemma_absent(es: Seq<UnlockEntry>, a: Address)
    requires
        forall|j: int| 0 <= j < es.len() ==> (#[trigger] es[j]).address != a,
    ensures
        !table_of(es).contains_key(a),
{
}

impl View for UnlockTable {
    type V = Map<Address, UnlockRecord>;

    closed spec fn view(&self) -> Map<Address, UnlockRecord> {
        table_of(self.entries@)
    }
}

impl UnlockTable {
    pub closed spec fn wf(&self) -> bool {
        entries_unique(self.entries@)
    }

    /// An empty table.
    pub fn new() -> (r: Self)
        ensures
            r.wf(),
            r@ == Map::<Address, UnlockRecord>::empty(),
    {
        let r = UnlockTable { entries: Vec::new() };
        assert(r@ =~= Map::<Address, UnlockRecord>::empty());
        r
    }

    fn find(&self, a: &Address) -> (r: Option<usize>)
        requires
            self.wf(),
        ensures
            match r {
                Some(i) => i < self.entries@.len() && self.entries@[i as int].address == *a,
                None => forall|j: int|
                    0 <= j < self.entries@.len() ==> (#[trigger] self.entries@[j]).address != *a,
            },
    {
        let mut i: usize = 0;
        while i < self.entries.len()
            invariant
                0 <= i <= self.entries.len(),
                forall|j: int| 0 <= j < i ==> (#[trigger] self.entries@[j]).address != *a,
            decreases self.entries.len() - i,
        {
            if self.entries[i].address.same_as(a) {
                return Some(i);
            }
            i += 1;
        }
        None
    }

    /// Whether `a` has an entry (expired timed entries included).
    pub fn is_unlocked(&self, a: &Address) -> (r: bool)
        requires
            self.wf(),
        ensures
            r == self@.contains_key(*a),
    {
        match self.find(a) {
            Some(i) => {
                proof {
                    lemma_entry(self.entries@, i as int);
                }
                true
            },
            None => false,
        }
    }

    /// Drops the entry at `i`.
    fn remove_at(&mut self, i: usize)
        requires
            old(self).wf(),
            i < old(self).entries@.len(),
        ensures
            final(self).wf(),
            final(self)@ == old(self)@.remove(old(self).entries@[i as int].address),
    {
        let ghost old_es = self.entries@;
        let ghost a = old_es[i as int].address;
        self.entries.remove(i);
        proof {
            let es = self.entries@;
            assert forall|x: int| 0 <= x < es.len() implies #[trigger] es[x] == old_es[if x
                < i {
                x
            } else {
                x + 1
            }] by {}
            assert forall|x: int, y: int|
                0 <= x < es.len() && 0 <= y < es.len() && x != y implies (#[trigger] es[x]).address
                != (#[trigger] es[y]).address by {
                assert(es[x] == old_es[if x < i { x } else { x + 1 }]);
                assert(es[y] == old_es[if y < i { y } else { y + 1 }]);
            }
            assert forall|b: Address| #[trigger]
                table_of(es).contains_key(b) == table_of(old_es).remove(a).contains_key(b) by {
                if table_of(es).contains_key(b) {
                    let x = choose|x: int| 0 <= x < es.len() && (#[trigger] es[x]).address == b;
                    let ox = if x < i { x } else { x + 1 };
                    assert(es[x] == old_es[ox]);
                    assert(old_es[ox].address == b);
                    assert(ox != i);
                }
                if table_of(old_es).remove(a).contains_key(b) {
                    let ox = choose|x: int| 0 <= x < old_es.len() && (#[trigger] old_es[x]).address == b;
                    assert(ox != i);
                    let x = if ox < i { ox } else { ox - 1 };
                    assert(es[x] == old_es[ox]);
                }
            }
            assert forall|b: Address| #[trigger] table_of(es).contains_key(b) implies table_of(es)[b]
                == table_of(old_es)[b] by {
                let x = choose|x: int| 0 <= x < es.len() && (#[trigger] es[x]).address == b;
                let ox = if x < i { x } else { x + 1 };
                assert(es[x] == old_es[ox]);
                lemma_entry(es, x);
                lemma_entry(old_es, ox);
            }
            assert(table_of(es) =~= table_of(old_es).remove(a));
        }
    }

    /// Records an unlock of `a`; a permanent unlock already present is kept.
    pub fn unlock(&mut self, a: Address, password: String, mode: Unlock)
        requires
            old(self).wf(),
        ensures
            final(self).wf(),
            final(self)@ == unlock_step(old(self)@, a, password@, mode),
    {
        let ghost old_es = self.entries@;
        match self.find(&a) {
            Some(i) => {
                proof {
                    lemma_entry(old_es, i as int);
                }
                if let Unlock::Perm = self.entries[i].unlock {
                    return;
                }
                self.entries.set(i, UnlockEntry { address: a, unlock: mode, password });
                proof {
                    let es = self.entries@;
                    assert forall|x: int, y: int|
                        0 <= x < es.len() && 0 <= y < es.len() && x != y implies (
                        #[trigger] es[x]).address != (#[trigger] es[y]).address by {
                        assert(es[x].address == old_es[x].address);
                        assert(es[y].address == old_es[y].address);
                    }
                    let target = old_es.len();
                    assert forall|b: Address| #[trigger]
                        table_of(es).contains_key(b) == table_of(old_es).insert(
                            a,
                            (mode, password@),
                        ).contains_key(b) by {
                        if table_of(es).contains_key(b) {
                            let x = choose|x: int| 0 <= x < es.len() && (#[trigger] es[x]).address == b;
                            assert(es[x].address == old_es[x].address);
                        }
                        if table_of(old_es).contains_key(b) {
                            let x = choose|x: int| 0 <= x < old_es.len() && (#[trigger] old_es[x]).address == b;
                            assert(es[x].address == old_es[x].address);
                        }
                        if b == a {
                            assert(es[i as int].address == a);
                        }
                    }
                    assert forall|b: Address| #[trigger] table_of(es).contains_key(b) implies table_of(es)[b]
                        == table_of(old_es).insert(a, (mode, password@))[b] by {
                        let x = choose|x: int| 0 <= x < es.len() && (#[trigger] es[x]).address == b;
                        lemma_entry(es, x);
                        if x != i {
                            assert(es[x] == old_es[x]);
                            lemma_entry(old_es, x);
                        }
                    }
                    assert(table_of(es) =~= table_of(old_es).insert(a, (mode, password@)));
                }
            },
            None => {
                proof {
                    lemma_absent(old_es, a);
                }
                self.entries.push(UnlockEntry { address: a, unlock: mode, password });
                proof {
                    let es = self.entries@;
                    let n = old_es.len() as int;
                    assert forall|x: int| 0 <= x < n implies #[trigger] es[x] == old_es[x] by {}
                    assert forall|x: int, y: int|
                        0 <= x < es.len() && 0 <= y < es.len() && x != y implies (
                        #[trigger] es[x]).address != (#[trigger] es[y]).address by {
                        if x < n && y < n {
                            assert(es[x] == old_es[x]);
                            assert(es[y] == old_es[y]);
                        } else if x < n {
                            assert(es[x] == old_es[x]);
                        } else {
                            assert(es[y] == old_es[y]);
                        }
                    }
                    assert forall|b: Address| #[trigger]
                        table_of(es).contains_key(b) == table_of(old_es).insert(
                            a,
                            (mode, password@),
                        ).contains_key(b) by {
                        if table_of(es).contains_key(b) && b != a {
                            let x = choose|x: int| 0 <= x < es.len() && (#[trigger] es[x]).address == b;
                            assert(x < n);
                            assert(es[x] == old_es[x]);
                        }
                        if table_of(old_es).contains_key(b) {
                            let x = choose|x: int| 0 <= x < old_es.len() && (#[trigger] old_es[x]).address == b;
                            assert(es[x] == old_es[x]);
                        }
                        if b == a {
                            assert(es[n].address == a);
                        }
                    }
                    assert forall|b: Address| #[trigger] table_of(es).contains_key(b) implies table_of(es)[b]
                        == table_of(old_es).insert(a, (mode, password@))[b] by {
                        let x = choose|x: int| 0 <= x < es.len() && (#[trigger] es[x]).address == b;
                        lemma_entry(es, x);
                        if x < n {
                            assert(es[x] == old_es[x]);
                            lemma_entry(old_es, x);
                        }
                    }
                    assert(table_of(es) =~= table_of(old_es).insert(a, (mode, password@)));
                }
            },
        }
    }

    /// The password of `a` if it is unlocked at time `now`; consumes a
    /// one-shot unlock and drops an expired timed one.
    pub fn take_password(&mut self, a: &Address, now: u64) -> (r: Option<String>)
        requires
            old(self).wf(),
        ensures
            final(self).wf(),
            final(self)@ == take_step(old(self)@, *a, now).0,
            match take_step(old(self)@, *a, now).1 {
                Some(pw) => r is Some && r->Some_0@ == pw,
                None => r is None,
            },
    {
        let i = match self.find(a) {
            Some(i) => i,
            None => {
                proof {
                    lemma_absent(self.entries@, *a);
                }
                return None;
            },
        };
        proof {
            lemma_entry(self.entries@, i as int);
        }
        let password = self.entries[i].password.clone();
        match self.entries[i].unlock {
            Unlock::Temp => {
                self.remove_at(i);
                Some(password)
            },
            Unlock::Perm => Some(password),
            Unlock::Timed(deadline) => {
                if now > deadline {
                    self.remove_at(i);
                    None
                } else {
                    Some(password)
                }
            },
        }
    }

    /// Locks `a` again, whatever its unlock.
    pub fn lock(&mut self, a: &Address)
        requires
            old(self).wf(),
        ensures
            final(self).wf(),
            final(self)@ == old(self)@.remove(*a),
    {
        match self.find(a) {
            Some(i) => self.remove_at(i),
            None => {
                proof {
                    lemma_absent(self.entries@, *a);
                }
                assert(self@ =~= self@.remove(*a));
            },
        }
    }
}

} // verus!
