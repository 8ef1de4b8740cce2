//! The secp256k1 primitives the key stores rely on, and the random source
//! for session tokens. Each result that depends on its arguments alone is
//! named by a spec function; the names are stated nowhere else.

use vstd::prelude::*;
use crate::types::{Address, Message, Public, Secret, Signature};
use parity_crypto::publickey::{Generator, KeyPair};
use rand::distributions::DistString;

verus! {

/// The public key of a secret key, or `None` when the bytes are not a valid
/// secp256k1 scalar.
pub uninterp spec fn public_of(secret: Seq<u8>) -> Option<Seq<u8>>;

/// The address that belongs to a public key (the last 20 bytes of its Keccak hash).
pub uninterp spec fn address_of_public(public: Seq<u8>) -> Seq<u8>;

/// The deterministic recoverable signature of a message, or `None` when the
/// secret is not a valid key.
pub uninterp spec fn signature_of(secret: Seq<u8>, message: Seq<u8>) -> Option<Seq<u8>>;

/// The plaintext of an ECIES message with its authenticated data, or `None`
/// when the message does not open with this secret.
pub uninterp spec fn decryption_of(secret: Seq<u8>, auth_data: Seq<u8>, encrypted: Seq<u8>) -> Option<
    Seq<u8>,
>;

/// The Keccak-256 hash of some bytes.
pub uninterp spec fn keccak_of(data: Seq<u8>) -> Seq<u8>;

/// The address of a secret key, when it is a valid key.
pub open spec fn address_of_secret(secret: Seq<u8>) -> Option<Seq<u8>> {
    match public_of(secret) {
        Some(p) => Some(address_of_public(p)),
        None => None,
    }
}

/// A character that a session token may hold: an ASCII letter or digit.
pub open spec fn is_token_char(c: char) -> bool {
    ('a' <= c && c <= 'z') || ('A' <= c && c <= 'Z') || ('0' <= c && c <= '9')
}

/// Relies on `parity_crypto::publickey::KeyPair::from_secret`: derives the
/// public key, failing exactly on secrets that are not valid scalars.
#[verifier::external_body]
pub(crate) fn public_from_secret(secret: &Secret) -> (r: Option<Public>)
    ensures
        match r {
            Some(p) => public_of(secret.0@) == Some(p.0@),
            None => public_of(secret.0@) is None,
        },
{
    let pair = KeyPair::from_secret(parity_crypto::publickey::Secret::from(secret.0)).ok()?;
    Some(Public(pair.public().0))
}

/// Relies on `parity_crypto::publickey::public_to_address`: the address of a
/// public key.
#[verifier::external_body]
pub(crate) fn address_from_public(public: &Public) -> (r: Address)
    ensures
        r.0@ == address_of_public(public.0@),
{
    let p = parity_crypto::publickey::Public::from(public.0);
    Address(parity_crypto::publickey::public_to_address(&p).0)
}

/// Relies on `parity_crypto::publickey::sign`: signs a message hash with a
/// secret key. It fails only where `SecretKey::from_slice` refuses the secret,
/// the same check that `KeyPair::from_secret` makes.
#[verifier::external_body]
pub(crate) fn sign_hash(secret: &Secret, message: &Message) -> (r: Option<Signature>)
    ensures
        match r {
            Some(s) => signature_of(secret.0@, message.0@) == Some(s.0@),
            None => signature_of(secret.0@, message.0@) is None,
        },
        r is Some <==> public_of(secret.0@) is Some,
{
    let s = parity_crypto::publickey::Secret::from(secret.0);
    let m = parity_crypto::publickey::Message::from(message.0);
    let sig = parity_crypto::publickey::sign(&s, &m).ok()?;
    Some(Signature(sig.into()))
}

/// Relies on `parity_crypto::publickey::ecies::decrypt`: opens an ECIES
/// message. That function reads the first byte before any length check, so
/// an empty message is left out.
#[verifier::external_body]
pub(crate) fn ecies_decrypt(secret: &Secret, auth_data: &[u8], encrypted: &[u8]) -> (r: Option<
    Vec<u8>,
>)
    requires
        encrypted@.len() > 0,
    ensures
        match r {
            Some(plain) => decryption_of(secret.0@, auth_data@, encrypted@) == Some(plain@),
            None => decryption_of(secret.0@, auth_data@, encrypted@) is None,
        },
{
    let s = parity_crypto::publickey::Secret::from(secret.0);
    parity_crypto::publickey::ecies::decrypt(&s, auth_data, encrypted).ok()
}

/// Relies on `parity_crypto::publickey::Random::generate`: a fresh key pair
/// from a cryptographically strong source. Whatever comes out, the public key
/// is the one that belongs to the secret.
#[verifier::external_body]
pub(crate) fn generate_key_pair() -> (r: (Secret, Public))
    ensures
        public_of(r.0.0@) == Some(r.1.0@),
{
    let pair = parity_crypto::publickey::Random.generate();
    (Secret(pair.secret().0), Public(pair.public().0))
}

/// Relies on `rand`'s `Alphanumeric::sample_string` over the operating
/// system's random source: `len` characters, each an ASCII letter or digit.
#[verifier::external_body]
pub(crate) fn random_string(len: usize) -> (r: String)
    ensures
        r@.len() == len,
        forall|i: int| 0 <= i < r@.len() ==> is_token_char(#[trigger] r@[i]),
{
    rand::distributions::Alphanumeric.sample_string(&mut rand::rngs::OsRng, len)
}

/// Relies on `parity_crypto::Keccak256` (tiny-keccak's Keccak-256): the
/// 32-byte hash of `data`.
#[verifier::external_body]
pub(crate) fn keccak256(data: &[u8]) -> (r: [u8; 32])
    ensures
        r@ == keccak_of(data@),
{
    parity_crypto::Keccak256::keccak256(&data)
}

#[verifier::external_type_specification]
#[verifier::external_body]
pub struct ExInstant(std::time::Instant);

/// Relies on `std::time::Instant::now`: a reading of the monotonic clock.
#[verifier::external_body]
pub(crate) fn instant_now() -> (r: std::time::Instant) {
    std::time::Instant::now()
}

/// Relies on `std::time::Instant::elapsed`: whole milliseconds of the
/// monotonic clock since `origin` (saturating at the largest `u64`).
#[verifier::external_body]
pub(crate) fn millis_since(origin: &std::time::Instant) -> (r: u64) {
    u64::try_from(origin.elapsed().as_millis()).unwrap_or(u64::MAX)
}

/// Relies on `std::time::SystemTime::now`: milliseconds since the Unix
/// epoch, or `None` when the system clock reads earlier than the epoch.
#[verifier::external_body]
pub(crate) fn unix_millis() -> (r: Option<u64>) {
    std::time::SystemTime::now().duration_since(std::time::UNIX_EPOCH).ok().map(
        |d| d.as_millis() as u64,
    )
}

} // verus!
