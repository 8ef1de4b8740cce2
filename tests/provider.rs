use account_provider::dapps::DappId;
use account_provider::dir::VaultKey;
use account_provider::hardware::{Error as HardwareError, WalletInfo};
use account_provider::keystore::StoreError;
use account_provider::provider::{AccountProvider, SignError};
use account_provider::types::{Address, Message, Secret};
use parity_crypto::publickey::{Generator, KeyPair, Random};

fn key_pair() -> (Secret, Address, KeyPair) {
    let kp = Random.generate();
    (Secret(kp.secret().0), Address(kp.address().0), kp)
}

fn addr(n: u64) -> Address {
    let mut b = [0u8; 20];
    b[12..].copy_from_slice(&n.to_be_bytes());
    Address(b)
}

fn zero() -> Message {
    Message([0u8; 32])
}

#[test]
fn unlock_account_temp() {
    let (secret, address, _) = key_pair();
    let mut ap = AccountProvider::transient_provider();
    assert!(ap.insert_account(secret, "test").is_ok());
    assert!(ap.unlock_account_temporarily(address, "test1".into()).is_err());
    assert!(ap.unlock_account_temporarily(address, "test".into()).is_ok());
    assert!(ap.sign(address, None, zero()).is_ok());
    assert!(ap.sign(address, None, zero()).is_err());
}

#[test]
fn unlock_account_perm() {
    let (secret, address, _) = key_pair();
    let mut ap = AccountProvider::transient_provider();
    assert!(ap.insert_account(secret, "test").is_ok());
    assert!(ap.unlock_account_permanently(address, "test1".into()).is_err());
    assert!(ap.unlock_account_permanently(address, "test".into()).is_ok());
    assert!(ap.sign(address, None, zero()).is_ok());
    assert!(ap.sign(address, None, zero()).is_ok());
    assert!(ap.unlock_account_temporarily(address, "test".into()).is_ok());
    assert!(ap.sign(address, None, zero()).is_ok());
    assert!(ap.sign(address, None, zero()).is_ok());
}

#[test]
fn unlock_account_timer() {
    let (secret, address, _) = key_pair();
    let mut ap = AccountProvider::transient_provider();
    assert!(ap.insert_account(secret, "test").is_ok());
    assert!(ap.unlock_account_timed(address, "test1".into(), 60000).is_err());
    assert!(ap.unlock_account_timed(address, "test".into(), 60000).is_ok());
    assert!(ap.sign(address, None, zero()).is_ok());
    // the clock now reads past the deadline
    assert!(ap.sign_at(address, None, zero(), u64::MAX).is_err());
}

#[test]
fn should_sign_and_return_token() {
    // given
    let (secret, address, _) = key_pair();
    let mut ap = AccountProvider::transient_provider();
    assert!(ap.insert_account(secret, "test").is_ok());

    // when
    let (_signature, token) = ap.sign_with_token(address, "test".into(), zero()).unwrap();

    // then
    ap.sign_with_token(address, token.clone(), zero())
        .expect("First usage of token should be correct.");
    assert!(
        ap.sign_with_token(address, token, zero()).is_err(),
        "Second usage of the same token should fail."
    );
}

#[test]
fn should_set_dapps_addresses() {
    // given
    let mut ap = AccountProvider::transient_provider();
    let app = DappId::from("app1");
    // set `AllAccounts` policy
    ap.set_new_dapps_whitelist(None).unwrap();
    // add accounts to address book
    ap.set_address_name(addr(1), "1".into());
    ap.set_address_name(addr(2), "2".into());

    // when
    ap.set_dapps_addresses(DappId::from("app1"), vec![addr(1), addr(2), addr(3)]).unwrap();

    // then
    assert_eq!(ap.dapps_addresses(app).unwrap(), vec![addr(1), addr(2)]);
}

#[test]
fn should_set_dapps_policy() {
    // given
    let mut ap = AccountProvider::transient_provider();
    let address = ap.new_account("test").unwrap();
    ap.set_address_name(addr(1), "1".into());

    // When returning nothing
    ap.set_new_dapps_whitelist(Some(vec![])).unwrap();
    assert_eq!(ap.dapps_addresses("app1".into()).unwrap(), vec![]);

    // change to all
    ap.set_new_dapps_whitelist(None).unwrap();
    assert_eq!(ap.dapps_addresses("app1".into()).unwrap(), vec![address]);

    // change to non-existent account
    ap.set_new_dapps_whitelist(Some(vec![addr(2)])).unwrap();
    assert_eq!(ap.dapps_addresses("app1".into()).unwrap(), vec![]);

    // change to a whitelist
    ap.set_new_dapps_whitelist(Some(vec![addr(1)])).unwrap();
    assert_eq!(ap.dapps_addresses("app1".into()).unwrap(), vec![addr(1)]);
}

#[test]
fn wrong_password_leaves_account_locked() {
    let (secret, address, _) = key_pair();
    let mut ap = AccountProvider::transient_provider();
    ap.insert_account(secret, "pw").unwrap();
    assert_eq!(
        ap.unlock_account_permanently(address, "bad".into()),
        Err(StoreError::InvalidPassword)
    );
    assert!(!ap.is_unlocked(address));
    assert_eq!(ap.unlock_account_timed(address, "bad".into(), 1000), Err(StoreError::InvalidPassword));
    assert!(!ap.is_unlocked(address));
    assert_eq!(ap.unlock_account_temporarily(address, "bad".into()), Err(StoreError::InvalidPassword));
    assert!(!ap.is_unlocked(address));
}

#[test]
fn temporary_unlock_is_consumed_by_one_signing() {
    let (secret, address, _) = key_pair();
    let mut ap = AccountProvider::transient_provider();
    ap.insert_account(secret, "pw").unwrap();
    ap.unlock_account_temporarily(address, "pw".into()).unwrap();
    assert!(ap.is_unlocked(address));
    assert!(ap.sign(address, None, zero()).is_ok());
    assert!(!ap.is_unlocked(address));
    assert_eq!(ap.sign(address, None, zero()), Err(SignError::NotUnlocked));
}

#[test]
fn temporary_unlock_is_consumed_by_one_decryption() {
    let (secret, address, kp) = key_pair();
    let mut ap = AccountProvider::transient_provider();
    ap.insert_account(secret, "pw").unwrap();
    let plain = b"secret message".to_vec();
    let sealed = parity_crypto::publickey::ecies::encrypt(kp.public(), b"mac", &plain).unwrap();
    ap.unlock_account_temporarily(address, "pw".into()).unwrap();
    assert_eq!(ap.decrypt(address, None, b"mac", &sealed), Ok(plain));
    assert_eq!(ap.decrypt(address, None, b"mac", &sealed), Err(SignError::NotUnlocked));
}

#[test]
fn timed_unlock_expires_after_deadline() {
    let (secret, address, _) = key_pair();
    let mut ap = AccountProvider::transient_provider();
    ap.insert_account(secret, "pw").unwrap();
    ap.unlock_account_timed_at(address, "pw".into(), 60000, 1000).unwrap();
    assert!(ap.sign_at(address, None, zero(), 61000).is_ok());
    assert!(ap.sign_at(address, None, zero(), 61000).is_ok());
    assert_eq!(ap.sign_at(address, None, zero(), 61001), Err(SignError::NotUnlocked));
    assert!(!ap.is_unlocked(address));
}

#[test]
fn timed_unlock_deadline_saturates() {
    let (secret, address, _) = key_pair();
    let mut ap = AccountProvider::transient_provider();
    ap.insert_account(secret, "pw").unwrap();
    ap.unlock_account_timed_at(address, "pw".into(), u32::MAX, u64::MAX - 1).unwrap();
    assert!(ap.sign_at(address, None, zero(), u64::MAX).is_ok());
}

#[test]
fn permanent_unlock_is_not_downgraded() {
    let (secret, address, _) = key_pair();
    let mut ap = AccountProvider::transient_provider();
    ap.insert_account(secret, "pw").unwrap();
    ap.unlock_account_permanently(address, "pw".into()).unwrap();
    ap.unlock_account_timed_at(address, "pw".into(), 1, 0).unwrap();
    assert!(ap.sign_at(address, None, zero(), 1000).is_ok());
    assert!(ap.sign_at(address, None, zero(), 2000).is_ok());
    ap.lock_account(address);
    assert_eq!(ap.sign(address, None, zero()), Err(SignError::NotUnlocked));
}

#[test]
fn signing_with_password_and_unknown_account() {
    let (secret, address, kp) = key_pair();
    let mut ap = AccountProvider::transient_provider();
    ap.insert_account(secret, "pw").unwrap();
    let message = Message([7u8; 32]);
    let sig = ap.sign(address, Some("pw".into()), message).unwrap();
    // the signature recovers the account's public key
    let recovered = parity_crypto::publickey::recover(
        &parity_crypto::publickey::Signature::from(sig.0),
        &parity_crypto::publickey::Message::from(message.0),
    )
    .unwrap();
    assert_eq!(&recovered, kp.public());
    assert_eq!(
        ap.sign(address, Some("bad".into()), message),
        Err(SignError::SStore(StoreError::InvalidPassword))
    );
    assert_eq!(
        ap.sign(addr(9), Some("pw".into()), message),
        Err(SignError::SStore(StoreError::InvalidAccount))
    );
}

#[test]
fn session_tokens_rotate() {
    let (secret, address, _) = key_pair();
    let mut ap = AccountProvider::transient_provider();
    ap.insert_account(secret, "pw").unwrap();
    let (_, t1) = ap.sign_with_token(address, "pw".into(), zero()).unwrap();
    assert_eq!(t1.len(), 16);
    assert!(t1.chars().all(|c| c.is_ascii_alphanumeric()));
    let (_, t2) = ap.sign_with_token(address, t1.clone(), zero()).unwrap();
    assert_ne!(t1, t2);
    assert_eq!(
        ap.sign_with_token(address, t1, zero()),
        Err(SignError::SStore(StoreError::InvalidPassword))
    );
    let (_, t3) = ap.sign_with_token(address, t2.clone(), zero()).unwrap();
    assert!(ap.sign_with_token(address, t2, zero()).is_err());
    assert!(ap.sign_with_token(address, t3, zero()).is_ok());
    // the real password still starts a new session
    assert!(ap.sign_with_token(address, "pw".into(), zero()).is_ok());
}

#[test]
fn session_token_with_fixed_tokens() {
    let (secret, address, kp) = key_pair();
    let mut ap = AccountProvider::transient_provider();
    ap.insert_account(secret, "pw").unwrap();
    let message = Message([3u8; 32]);
    let (s1, t) = ap.sign_with_fresh_token(address, "pw".into(), message, "aaaa".into()).unwrap();
    assert_eq!(t, "aaaa");
    let (s2, t) = ap.sign_with_fresh_token(address, "aaaa".into(), message, "bbbb".into()).unwrap();
    assert_eq!(t, "bbbb");
    // both sign with the account's key
    assert_eq!(s1, s2);
    let recovered = parity_crypto::publickey::recover(
        &parity_crypto::publickey::Signature::from(s2.0),
        &parity_crypto::publickey::Message::from(message.0),
    )
    .unwrap();
    assert_eq!(&recovered, kp.public());
    assert_eq!(
        ap.sign_with_fresh_token(address, "aaaa".into(), message, "cccc".into()),
        Err(SignError::SStore(StoreError::InvalidPassword))
    );
}

#[test]
fn session_token_needs_a_session() {
    let (secret, address, _) = key_pair();
    let mut ap = AccountProvider::transient_provider();
    ap.insert_account(secret, "pw").unwrap();
    assert_eq!(
        ap.sign_with_token(address, "nothing".into(), zero()),
        Err(SignError::SStore(StoreError::InvalidAccount))
    );
    assert_eq!(
        ap.sign_with_token(addr(5), "pw".into(), zero()),
        Err(SignError::SStore(StoreError::InvalidAccount))
    );
}

#[test]
fn tokens_are_bound_to_their_account() {
    let (s1, a1, _) = key_pair();
    let (s2, a2, _) = key_pair();
    let mut ap = AccountProvider::transient_provider();
    ap.insert_account(s1, "pw1").unwrap();
    ap.insert_account(s2, "pw2").unwrap();
    let (_, t) = ap.sign_with_token(a1, "pw1".into(), zero()).unwrap();
    assert!(ap.sign_with_token(a2, t.clone(), zero()).is_err());
    assert!(ap.sign_with_token(a1, t, zero()).is_ok());
}

#[test]
fn decrypt_with_token_rotates() {
    let (secret, address, kp) = key_pair();
    let mut ap = AccountProvider::transient_provider();
    ap.insert_account(secret, "pw").unwrap();
    let plain = b"hello".to_vec();
    let sealed = parity_crypto::publickey::ecies::encrypt(kp.public(), b"", &plain).unwrap();
    let (out, t1) = ap.decrypt_with_token(address, "pw".into(), b"", &sealed).unwrap();
    assert_eq!(out, plain);
    let (out, t2) = ap.decrypt_with_token(address, t1.clone(), b"", &sealed).unwrap();
    assert_eq!(out, plain);
    assert!(ap.decrypt_with_token(address, t1, b"", &sealed).is_err());
    assert!(ap.decrypt_with_token(address, t2, b"", &sealed).is_ok());
}

#[test]
fn decrypt_rejects_bad_messages() {
    let (secret, address, _) = key_pair();
    let mut ap = AccountProvider::transient_provider();
    ap.insert_account(secret, "pw").unwrap();
    assert_eq!(
        ap.decrypt(address, Some("pw".into()), b"", &[]),
        Err(SignError::SStore(StoreError::InvalidMessage))
    );
    assert_eq!(
        ap.decrypt(address, Some("pw".into()), b"", &[4u8; 10]),
        Err(SignError::SStore(StoreError::InvalidMessage))
    );
}

#[test]
fn all_accounts_policy_shows_accounts_in_order() {
    let mut ap = AccountProvider::transient_provider();
    let a = ap.new_account("x").unwrap();
    let b = ap.new_account("y").unwrap();
    ap.set_address_name(addr(1), "book".into());
    assert_eq!(ap.accounts().unwrap(), vec![a, b]);
    assert_eq!(ap.dapps_addresses(DappId::from("any")).unwrap(), vec![a, b]);
    assert_eq!(ap.default_address(DappId::from("any")), Ok(a));
}

#[test]
fn unknown_whitelisted_address_is_hidden() {
    let mut ap = AccountProvider::transient_provider();
    ap.new_account("x").unwrap();
    ap.set_new_dapps_whitelist(Some(vec![addr(42)])).unwrap();
    assert_eq!(ap.dapps_addresses(DappId::from("d")).unwrap(), vec![]);
    assert_eq!(ap.default_address(DappId::from("d")), Err(StoreError::InvalidAccount));
    assert_eq!(ap.new_dapps_whitelist().unwrap(), Some(vec![addr(42)]));
}

#[test]
fn pinned_addresses_keep_order_and_drop_unknown() {
    let mut ap = AccountProvider::transient_provider();
    let a = ap.new_account("x").unwrap();
    ap.set_address_name(addr(7), "seven".into());
    ap.set_dapps_addresses(DappId::from("d"), vec![addr(8), addr(7), addr(8), a])
        .unwrap();
    assert_eq!(ap.dapps_addresses(DappId::from("d")).unwrap(), vec![addr(7), a]);
    // pinned addresses are kept verbatim, even after the book forgets them
    ap.remove_address(addr(7));
    assert_eq!(ap.dapps_addresses(DappId::from("d")).unwrap(), vec![addr(7), a]);
    // other applications follow the policy
    assert_eq!(ap.dapps_addresses(DappId::from("e")).unwrap(), vec![a]);
}

#[test]
fn address_book_entries() {
    let mut ap = AccountProvider::transient_provider();
    ap.set_address_name(addr(1), "one".into());
    ap.set_address_meta(addr(1), "{\"a\":1}".into());
    ap.set_address_meta(addr(2), "m".into());
    let info = ap.addresses_info();
    assert_eq!(info.len(), 2);
    assert_eq!(info[0].0, addr(1));
    assert_eq!(info[0].1.name, "one");
    assert_eq!(info[0].1.meta, "{\"a\":1}");
    assert_eq!(info[1].0, addr(2));
    assert_eq!(info[1].1.name, "");
    assert_eq!(info[1].1.meta, "m");
    ap.remove_address(addr(1));
    assert_eq!(ap.addresses_info().len(), 1);
}

#[test]
fn recent_dapps_are_recorded() {
    let mut ap = AccountProvider::transient_provider();
    ap.note_dapp_used_at(DappId::from("a"), 10).unwrap();
    ap.note_dapp_used_at(DappId::from("b"), 20).unwrap();
    ap.note_dapp_used_at(DappId::from("a"), 30).unwrap();
    let recent = ap.recent_dapps().unwrap();
    assert_eq!(recent.len(), 2);
    assert!(recent.contains(&(DappId::from("a"), 30)));
    assert!(recent.contains(&(DappId::from("b"), 20)));
    ap.note_dapp_used(DappId::from("c")).unwrap();
    assert_eq!(ap.recent_dapps().unwrap().len(), 3);
}

#[test]
fn account_lifecycle() {
    let (secret, address, _) = key_pair();
    let mut ap = AccountProvider::transient_provider();
    assert_eq!(ap.insert_account(secret, "pw"), Ok(address));
    assert_eq!(ap.insert_account(secret, "other"), Err(StoreError::AccountExists));
    assert_eq!(ap.has_account(address), Ok(true));
    assert_eq!(ap.test_password(&address, "pw"), Ok(true));
    assert_eq!(ap.test_password(&address, "nope"), Ok(false));
    assert_eq!(ap.test_password(&addr(3), "pw"), Err(StoreError::InvalidAccount));
    assert_eq!(
        ap.change_password(&address, "nope".into(), "new".into()),
        Err(StoreError::InvalidPassword)
    );
    ap.change_password(&address, "pw".into(), "new".into()).unwrap();
    assert_eq!(ap.test_password(&address, "new"), Ok(true));
    ap.unlock_account_permanently(address, "new".into()).unwrap();
    assert_eq!(ap.kill_account(&address, "pw"), Err(StoreError::InvalidPassword));
    ap.kill_account(&address, "new").unwrap();
    assert_eq!(ap.has_account(address), Ok(false));
    assert!(!ap.is_unlocked(address));
    assert_eq!(ap.kill_account(&address, "new"), Err(StoreError::InvalidAccount));
}

#[test]
fn invalid_secret_is_refused() {
    let mut ap = AccountProvider::transient_provider();
    assert_eq!(ap.insert_account(Secret([0u8; 32]), "pw"), Err(StoreError::CreationFailed));
    assert_eq!(ap.insert_account(Secret([0xffu8; 32]), "pw"), Err(StoreError::CreationFailed));
    assert_eq!(ap.accounts().unwrap(), vec![]);
}

#[test]
fn new_account_and_public_match() {
    let mut ap = AccountProvider::transient_provider();
    let (address, public) = ap.new_account_and_public("pw").unwrap();
    let expected = parity_crypto::publickey::public_to_address(
        &parity_crypto::publickey::Public::from(public.0),
    );
    assert_eq!(address, Address(expected.0));
    assert!(!ap.is_unlocked(address));
    assert_eq!(ap.test_password(&address, "pw"), Ok(true));
}

#[test]
fn account_metadata() {
    let (secret, address, _) = key_pair();
    let mut ap = AccountProvider::transient_provider();
    ap.insert_account(secret, "pw").unwrap();
    let meta = ap.account_meta(address).unwrap();
    assert_eq!(meta.name, "");
    assert_eq!(meta.meta, "{}");
    assert_eq!(meta.uuid, None);
    ap.set_account_name(address, "main".into()).unwrap();
    ap.set_account_meta(address, "{\"x\":1}".into()).unwrap();
    let meta = ap.account_meta(address).unwrap();
    assert_eq!(meta.name, "main");
    assert_eq!(meta.meta, "{\"x\":1}");
    assert_eq!(ap.account_meta(addr(4)), Err(StoreError::InvalidAccount));
    assert_eq!(ap.set_account_name(addr(4), "n".into()), Err(StoreError::InvalidAccount));
    let info = ap.accounts_info().unwrap();
    assert_eq!(info.len(), 1);
    assert_eq!(info[0].0, address);
    assert_eq!(info[0].1.name, "main");
}

#[test]
fn vaults_are_not_supported_in_memory() {
    let (secret, address, _) = key_pair();
    let mut ap = AccountProvider::transient_provider();
    ap.insert_account(secret, "pw").unwrap();
    assert_eq!(ap.create_vault("v", "p"), Err(StoreError::VaultsAreNotSupported));
    assert_eq!(ap.open_vault("v", "p"), Err(StoreError::VaultsAreNotSupported));
    assert_eq!(ap.close_vault("v"), Err(StoreError::VaultsAreNotSupported));
    assert_eq!(ap.list_vaults(), Err(StoreError::VaultsAreNotSupported));
    assert_eq!(ap.list_opened_vaults(), Err(StoreError::VaultsAreNotSupported));
    assert_eq!(ap.change_vault_password("v", "p"), Err(StoreError::VaultsAreNotSupported));
    assert_eq!(ap.change_vault(address, ""), Ok(()));
    assert_eq!(ap.change_vault(address, "v"), Err(StoreError::VaultsAreNotSupported));
    assert_eq!(ap.change_vault(addr(1), ""), Err(StoreError::InvalidAccount));
}

fn wallet(n: u64) -> WalletInfo {
    WalletInfo {
        name: "Nano S".into(),
        manufacturer: "Ledger".into(),
        serial: format!("{}", n),
        address: addr(n),
    }
}

#[test]
fn hardware_wallets() {
    let mut ap = AccountProvider::new(account_provider::keystore::KeyStore::new());
    assert_eq!(ap.hardware_accounts().unwrap(), vec![]);
    ap.update_hardware_wallets(vec![wallet(10), wallet(11)]);
    assert_eq!(ap.hardware_accounts().unwrap(), vec![addr(10), addr(11)]);
    assert!(ap.is_hardware_address(addr(10)));
    assert!(!ap.is_hardware_address(addr(12)));
    let meta = ap.account_meta(addr(11)).unwrap();
    assert_eq!(meta.name, "Nano S");
    assert_eq!(meta.meta, "Ledger");
    assert_eq!(meta.uuid, None);
    assert_eq!(ap.hardware_accounts_info().unwrap().len(), 2);

    let sig = account_provider::types::Signature([1u8; 65]);
    assert_eq!(ap.sign_with_hardware(addr(10), Ok(sig)), Ok(sig));
    assert_eq!(
        ap.sign_with_hardware(addr(10), Err(HardwareError::KeyNotFound)),
        Err(SignError::NotFound)
    );
    assert_eq!(
        ap.sign_with_hardware(addr(10), Err(HardwareError::LedgerDeviceError("usb".into()))),
        Err(SignError::Hardware(HardwareError::LedgerDeviceError("usb".into())))
    );
    assert_eq!(ap.sign_with_hardware(addr(12), Ok(sig)), Err(SignError::NotFound));
}

#[test]
fn transient_provider_has_no_hardware() {
    let mut ap = AccountProvider::transient_provider();
    ap.update_hardware_wallets(vec![wallet(10)]);
    assert_eq!(ap.hardware_accounts().unwrap(), vec![]);
    assert!(!ap.is_hardware_address(addr(10)));
    let sig = account_provider::types::Signature([1u8; 65]);
    assert_eq!(ap.sign_with_hardware(addr(10), Ok(sig)), Err(SignError::NotFound));
}

#[test]
fn vault_key_and_dapp_id() {
    let key = VaultKey::new("secret", 1024);
    assert_eq!(key.password, "secret");
    assert_eq!(key.iterations, 1024);
    let id = DappId::from(String::from("app"));
    assert_eq!(id.as_string(), "app");
    assert_eq!(String::from(DappId::from("x")), "x");
}

#[test]
fn error_messages() {
    assert_eq!(SignError::NotUnlocked.message(), "Account is locked");
    assert_eq!(SignError::NotFound.message(), "Account does not exist");
    assert_eq!(
        SignError::Hardware(HardwareError::KeyNotFound).message(),
        "Key not found for given address."
    );
    assert_eq!(
        SignError::Hardware(HardwareError::LedgerDeviceError("unplugged".into())).message(),
        "unplugged"
    );
    assert_eq!(SignError::SStore(StoreError::InvalidPassword).message(), "Invalid password");
    assert_eq!(StoreError::VaultsAreNotSupported.message(), "Vaults are not supported");
}

#[test]
fn wrong_password_leaves_existing_unlock_alone() {
    let (secret, address, _) = key_pair();
    let mut ap = AccountProvider::transient_provider();
    ap.insert_account(secret, "pw").unwrap();
    ap.unlock_account_permanently(address, "pw".into()).unwrap();
    assert_eq!(ap.unlock_account_temporarily(address, "bad".into()), Err(StoreError::InvalidPassword));
    assert!(ap.is_unlocked(address));
    assert!(ap.sign(address, None, zero()).is_ok());
    assert!(ap.sign(address, None, zero()).is_ok());
}

#[test]
fn new_account_on_empty_store_is_shown() {
    let mut ap = AccountProvider::transient_provider();
    let a = ap.new_account("pw").unwrap();
    assert_eq!(ap.accounts().unwrap(), vec![a]);
    assert_eq!(ap.dapps_addresses(DappId::new("app1")).unwrap(), vec![a]);
    assert_eq!(ap.account_meta(a).unwrap().uuid, None);
}

#[test]
fn dapp_ids_from_equal_strings_are_equal() {
    assert_eq!(DappId::new("app1"), DappId::from("app1"));
    assert_eq!(DappId::from_string("app1".into()), DappId::from(String::from("app1")));
    assert_ne!(DappId::new("app1"), DappId::new("app2"));
}
