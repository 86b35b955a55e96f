//! The ciphers that journals, entries and user infos are sealed with.
//!
//! An implementation of the two traits here comes from outside, and nothing is assumed of
//! it. A predicate such as [`hmac_returns`] says that a call on given bytes may have a
//! given outcome; the contracts of this crate are stated over these predicates, and so
//! hold of every implementation.

use vstd::prelude::*;
use crate::error::Error;

verus! {

/// The number of bytes of an authentication tag.
pub const HMAC_SIZE: usize = 32;

/// A symmetric key, which encrypts, decrypts and authenticates.
pub trait CryptoManager: Sized {
    /// The manager of a key that is derived from `key` and `salt`.
    fn new(key: &[u8], salt: &str, version: u8) -> Result<Self, Error>;

    /// The manager of a key that has been derived already.
    fn from_derived_key(derived: &[u8], version: u8) -> Result<Self, Error>;

    /// The ciphertext of `clear`. Two calls on the same bytes may differ.
    fn encrypt(&self, clear: &[u8]) -> Result<Vec<u8>, Error>;

    /// The bytes whose ciphertext is `cipher`.
    fn decrypt(&self, cipher: &[u8]) -> Result<Vec<u8>, Error>;

    /// The authentication tag of `data`.
    fn hmac(&self, data: &[u8]) -> Result<Vec<u8>, Error>;
}

/// A pair of a private and a public key.
pub trait AsymmetricKeyPair: Sized {
    /// The pair of the keys with these DER encodings.
    fn from_der(skey: &[u8], pkey: &[u8]) -> Result<Self, Error>;

    /// The DER encoding of the private key.
    fn get_skey(&self) -> Result<Vec<u8>, Error>;

    /// The DER encoding of the public key.
    fn get_pkey(&self) -> Result<Vec<u8>, Error>;

    /// Decrypts, with the private key, what was encrypted with the public one.
    fn decrypt(&self, cipher: &[u8]) -> Result<Vec<u8>, Error>;
}

/// Whether `C::new` on this key, salt and version may return `r`.
pub open spec fn new_returns<C: CryptoManager>(
    key: Seq<u8>,
    salt: Seq<char>,
    version: u8,
    r: Result<C, Error>,
) -> bool {
    exists|k: &[u8], s: &str|
        k@ == key && s@ == salt && #[trigger] call_ensures(C::new, (k, s, version), r)
}

/// Whether `C::from_derived_key` on this key and version may return `r`.
pub open spec fn from_derived_key_returns<C: CryptoManager>(
    derived: Seq<u8>,
    version: u8,
    r: Result<C, Error>,
) -> bool {
    exists|d: &[u8]|
        d@ == derived && #[trigger] call_ensures(C::from_derived_key, (d, version), r)
}

/// Whether encrypting `clear` with `manager` may return `r`.
pub open spec fn encrypt_returns<C: CryptoManager>(
    manager: &C,
    clear: Seq<u8>,
    r: Result<Vec<u8>, Error>,
) -> bool {
    exists|d: &[u8]| d@ == clear && #[trigger] call_ensures(C::encrypt, (manager, d), r)
}

/// Whether decrypting `cipher` with `manager` may return `r`.
pub open spec fn decrypt_returns<C: CryptoManager>(
    manager: &C,
    cipher: Seq<u8>,
    r: Result<Vec<u8>, Error>,
) -> bool {
    exists|d: &[u8]| d@ == cipher && #[trigger] call_ensures(C::decrypt, (manager, d), r)
}

/// Whether calculating the tag of `data` with `manager` may return `r`.
pub open spec fn hmac_returns<C: CryptoManager>(
    manager: &C,
    data: Seq<u8>,
    r: Result<Vec<u8>, Error>,
) -> bool {
    exists|d: &[u8]| d@ == data && #[trigger] call_ensures(C::hmac, (manager, d), r)
}

/// Whether `K::from_der` on these keys may return `r`.
pub open spec fn from_der_returns<K: AsymmetricKeyPair>(
    skey: Seq<u8>,
    pkey: Seq<u8>,
    r: Result<K, Error>,
) -> bool {
    exists|s: &[u8], p: &[u8]|
        s@ == skey && p@ == pkey && #[trigger] call_ensures(K::from_der, (s, p), r)
}

/// Whether asking `keypair` for its private key may return `r`.
pub open spec fn get_skey_returns<K: AsymmetricKeyPair>(
    keypair: &K,
    r: Result<Vec<u8>, Error>,
) -> bool {
    call_ensures(K::get_skey, (keypair,), r)
}

/// Whether asking `keypair` for its public key may return `r`.
pub open spec fn get_pkey_returns<K: AsymmetricKeyPair>(
    keypair: &K,
    r: Result<Vec<u8>, Error>,
) -> bool {
    call_ensures(K::get_pkey, (keypair,), r)
}

/// Whether decrypting `cipher` with `keypair` may return `r`.
pub open spec fn pair_decrypt_returns<K: AsymmetricKeyPair>(
    keypair: &K,
    cipher: Seq<u8>,
    r: Result<Vec<u8>, Error>,
) -> bool {
    exists|d: &[u8]| d@ == cipher && #[trigger] call_ensures(K::decrypt, (keypair, d), r)
}

/// Whether the tag that `manager` calculates of given bytes is always the same.
pub open spec fn has_stable_tags<C: CryptoManager>(manager: &C) -> bool {
    forall|data: Seq<u8>, r: Result<Vec<u8>, Error>, s: Result<Vec<u8>, Error>|
        #![trigger hmac_returns(manager, data, r), hmac_returns(manager, data, s)]
        hmac_returns(manager, data, r) && hmac_returns(manager, data, s) && r is Ok ==> s is Ok
            && s->Ok_0@ == r->Ok_0@
}

/// Whether every tag that `manager` calculates has [`HMAC_SIZE`] bytes.
pub open spec fn has_full_tags<C: CryptoManager>(manager: &C) -> bool {
    forall|data: Seq<u8>, tag: Vec<u8>| #[trigger]
        hmac_returns(manager, data, Ok(tag)) ==> tag@.len() == HMAC_SIZE
}

/// Whether decrypting a ciphertext with `manager` gives back what it has encrypted.
pub open spec fn undoes_encryption<C: CryptoManager>(manager: &C) -> bool {
    forall|clear: Seq<u8>, cipher: Vec<u8>, r: Result<Vec<u8>, Error>|
        #![trigger encrypt_returns(manager, clear, Ok(cipher)), decrypt_returns(manager, cipher@, r)]
        encrypt_returns(manager, clear, Ok(cipher)) && decrypt_returns(manager, cipher@, r)
            ==> r is Ok && r->Ok_0@ == clear
}

/// A sealed message is its tag with the ciphertext behind it.
pub open spec fn sealed(tag: Seq<u8>, ciphertext: Seq<u8>) -> Seq<u8> {
    tag + ciphertext
}

/// The tag at the head of a sealed message.
pub open spec fn tag_of(message: Seq<u8>) -> Seq<u8> {
    message.take(HMAC_SIZE as int)
}

/// The ciphertext behind the tag of a sealed message.
pub open spec fn ciphertext_of(message: Seq<u8>) -> Seq<u8> {
    message.skip(HMAC_SIZE as int)
}

/// Splits a sealed message into its tag and its ciphertext.
pub fn unseal(message: &[u8]) -> (r: (&[u8], &[u8]))
    requires
        message@.len() >= HMAC_SIZE,
    ensures
        r.0@ == tag_of(message@),
        r.1@ == ciphertext_of(message@),
{
    message.split_at(HMAC_SIZE)
}

/// Sealing is undone by splitting: a tag of [`HMAC_SIZE`] bytes and the ciphertext come
/// out as they went in.
pub proof fn lemma_unseal_sealed(tag: Seq<u8>, ciphertext: Seq<u8>)
    requires
        tag.len() == HMAC_SIZE,
    ensures
        tag_of(sealed(tag, ciphertext)) == tag,
        ciphertext_of(sealed(tag, ciphertext)) == ciphertext,
{
    assert(tag_of(sealed(tag, ciphertext)) =~= tag);
    assert(ciphertext_of(sealed(tag, ciphertext)) =~= ciphertext);
}

/// Whether a stored tag is the calculated one.
pub fn check_tag(stored: &[u8], calculated: &[u8]) -> (r: Result<(), Error>)
    ensures
        r == (if stored@ == calculated@ { Ok::<(), Error>(()) } else { Err(Error::HmacMismatch) }),
{
    if crate::bytes::equal(stored, calculated) {
        Ok(())
    } else {
        Err(Error::HmacMismatch)
    }
}

} // verus!
