//! Properties that relate several operations of the provider, stated over
//! the outcomes its functions promise.

use vstd::prelude::*;
use crate::types::{Address, Message};
use crate::keystore::{opens_with, password_digest, SecretStore};
use crate::unlock::Unlock;
use crate::provider::{lemma_unlocked_are_accounts, AccountProvider, SignError};

verus! {

/// An unlock with a wrong password fails, whatever the mode, and leaves the
/// unlock table as it was: a locked account stays locked, and whether any
/// account is unlocked does not change.
pub proof fn wrong_password_keeps_account_locked<S: SecretStore>(
    p: AccountProvider<S>,
    a: Address,
    pw: Seq<char>,
    mode: Unlock,
)
    requires
        p.wf(),
        !p.store().password_is(a, pw),
    ensures
        p.unlock_outcome(a, pw, mode).1 is Err,
        p.unlock_outcome(a, pw, mode).0 == p.unlocks(),
        forall|b: Address|
            #[trigger] p.unlock_outcome(a, pw, mode).0.contains_key(b) == p.unlocks().contains_key(b),
{
}

/// After a temporary unlock with the right password (of an account not
/// unlocked permanently), exactly one password-less signing succeeds: the
/// first, and the next fails with `NotUnlocked`.
pub proof fn temporary_unlock_signs_once<S: SecretStore>(
    p0: AccountProvider<S>,
    p1: AccountProvider<S>,
    p2: AccountProvider<S>,
    a: Address,
    pw: Seq<char>,
    m1: Message,
    m2: Message,
    t1: u64,
    t2: u64,
)
    requires
        p0.wf(),
        p0.store().password_is(a, pw),
        !(p0.unlocks().contains_key(a) && p0.unlocks()[a].0 == Unlock::Perm),
        p1.same_but_unlocks(&p0),
        p1.unlocks() == p0.unlock_outcome(a, pw, Unlock::Temp).0,
        p2.same_but_unlocks(&p1),
        p2.unlocks() == p1.sign_outcome(a, None, m1, t1).0,
    ensures
        p0.unlock_outcome(a, pw, Unlock::Temp).1 is Ok,
        p1.sign_outcome(a, None, m1, t1).1 is Ok,
        p2.sign_outcome(a, None, m2, t2).1 == Err::<Seq<u8>, SignError>(SignError::NotUnlocked),
{
}

/// A permanent unlock absorbs a later temporary one: after both, two
/// successive password-less signings succeed. (An account that was already
/// unlocked permanently keeps its earlier record, whose password may since
/// have been changed, so it is left out.)
pub proof fn permanent_unlock_absorbs_temporary<S: SecretStore>(
    p0: AccountProvider<S>,
    p1: AccountProvider<S>,
    p2: AccountProvider<S>,
    p3: AccountProvider<S>,
    a: Address,
    pw: Seq<char>,
    m1: Message,
    m2: Message,
    t1: u64,
    t2: u64,
)
    requires
        p0.wf(),
        p0.store().password_is(a, pw),
        !(p0.unlocks().contains_key(a) && p0.unlocks()[a].0 == Unlock::Perm),
        p1.same_but_unlocks(&p0),
        p1.unlocks() == p0.unlock_outcome(a, pw, Unlock::Perm).0,
        p2.same_but_unlocks(&p1),
        p2.unlocks() == p1.unlock_outcome(a, pw, Unlock::Temp).0,
        p3.same_but_unlocks(&p2),
        p3.unlocks() == p2.sign_outcome(a, None, m1, t1).0,
    ensures
        p1.unlock_outcome(a, pw, Unlock::Temp).1 is Ok,
        p2.sign_outcome(a, None, m1, t1).1 is Ok,
        p3.sign_outcome(a, None, m2, t2).1 is Ok,
{
}

/// A timed unlock whose deadline has passed no longer signs: the signing
/// fails with `NotUnlocked` and the entry is dropped.
pub proof fn expired_unlock_does_not_sign<S: SecretStore>(
    p: AccountProvider<S>,
    a: Address,
    deadline: u64,
    m: Message,
    now: u64,
)
    requires
        p.wf(),
        p.unlocks().contains_key(a),
        p.unlocks()[a].0 == Unlock::Timed(deadline),
        now > deadline,
    ensures
        p.sign_outcome(a, None, m, now).1 == Err::<Seq<u8>, SignError>(SignError::NotUnlocked),
        !p.sign_outcome(a, None, m, now).0.contains_key(a),
{
    lemma_unlocked_are_accounts(p);
}

/// A session token is used once. After a step that presents `t` and hands
/// out `t1` (whose digest differs from that of `t`), `t1` continues the
/// session; `t` does too only when it is the account's own password, and
/// fails otherwise.
pub proof fn session_token_is_single_use<S: SecretStore>(
    p0: AccountProvider<S>,
    p1: AccountProvider<S>,
    a: Address,
    t: Seq<char>,
    t1: Seq<char>,
)
    requires
        p0.wf(),
        p0.token_check(a, t) is Ok,
        p0.token_transition(&p1, a, t, t1),
        password_digest(a, t1) != password_digest(a, t),
    ensures
        p1.token_check(a, t1) is Ok,
        !p0.store().password_is(a, t) ==> p1.token_check(a, t) is Err,
{
    if p0.token_check(a, t) == Ok::<bool, SignError>(true) {
        let n = p1.transient()@.len() - 1;
        assert(opens_with(p1.transient()@[n], a, t1));
    } else {
        let old_t = p0.transient()@;
        let new_t = p1.transient()@;
        let j = choose|j: int| 0 <= j < old_t.len() && opens_with(#[trigger] old_t[j], a, t);
        assert(opens_with(new_t[j], a, t1));
        assert(new_t[j].address == a);
    }
    if !p0.store().password_is(a, t) {
        assert(!p1.transient().opens(a, t)) by {
            if p1.transient().opens(a, t) {
                let old_t = p0.transient()@;
                let new_t = p1.transient()@;
                let k = choose|k: int| 0 <= k < new_t.len() && opens_with(#[trigger] new_t[k], a, t);
                assert(new_t[k].address == old_t[k].address);
                if opens_with(old_t[k], a, t) {
                    assert(new_t[k].digest@ == password_digest(a, t1));
                } else {
                    assert(new_t[k].digest@ == old_t[k].digest@);
                }
            }
        }
    }
}

/// Pinning addresses for an application keeps exactly those that are
/// accounts or in the address book, in order, and the application then
/// sees them.
pub proof fn pinned_addresses_are_filtered<S: SecretStore>(
    p0: AccountProvider<S>,
    p1: AccountProvider<S>,
    d: Seq<char>,
    addresses: Seq<Address>,
)
    requires
        p1.same_but_dapps(&p0),
        p1.dapps().pinned() == p0.dapps().pinned().insert(d, p0.filtered(addresses)),
    ensures
        p1.dapp_view(d) == p0.filtered(addresses),
        forall|i: int| 0 <= i < p1.dapp_view(d).len() ==> p0.visible(#[trigger] p1.dapp_view(d)[i]),
        forall|i: int|
            0 <= i < addresses.len() && p0.visible(addresses[i]) ==> #[trigger] p1.dapp_view(
                d,
            ).contains(addresses[i]),
        forall|i: int|
            0 <= i < addresses.len() && !p0.visible(addresses[i]) ==> !#[trigger] p1.dapp_view(
                d,
            ).contains(addresses[i]),
{
    broadcast use vstd::seq_lib::group_filter_ensures;

    let pred = |x: Address| p0.visible(x);
    assert forall|i: int|
        0 <= i < addresses.len() && !p0.visible(addresses[i]) implies !#[trigger] p1.dapp_view(
        d,
    ).contains(addresses[i]) by {
        if p1.dapp_view(d).contains(addresses[i]) {
            let k = choose|k: int| 0 <= k < p1.dapp_view(d).len() && p1.dapp_view(d)[k] == addresses[i];
            assert(pred(addresses.filter(pred)[k]));
        }
    }
}

/// With every account visible to new applications and nothing pinned for
/// `d`, `d` sees exactly the accounts, in order.
pub proof fn all_accounts_policy_shows_accounts<S: SecretStore>(p: AccountProvider<S>, d: Seq<char>)
    requires
        p.dapps().whitelist() is None,
        !p.dapps().pinned().contains_key(d),
    ensures
        p.dapp_view(d) == p.accounts_view(),
{
}

/// A whitelist of one address that is neither an account nor in the
/// address book shows nothing to an application without pinned addresses.
pub proof fn unknown_whitelisted_address_is_hidden<S: SecretStore>(p: AccountProvider<S>, d: Seq<char>, x: Address)
    requires
        p.dapps().whitelist() == Some(seq![x]),
        !p.dapps().pinned().contains_key(d),
        !p.visible(x),
    ensures
        p.dapp_view(d) == Seq::<Address>::empty(),
{
    reveal_with_fuel(Seq::filter, 2);
    assert(seq![x].drop_last() =~= Seq::<Address>::empty());
    assert(seq![x].last() == x);
}

} // verus!
