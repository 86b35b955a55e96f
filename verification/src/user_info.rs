//! User infos: the key pairs of users, the private keys encrypted.

use vstd::prelude::*;
use crate::bytes;
use crate::codec;
use crate::crypto;
use crate::crypto::{AsymmetricKeyPair, CryptoManager, HMAC_SIZE};
use crate::error::Error;
use crate::text;

verus! {

/// A user info as the service gives and takes it.
#[derive(Debug, PartialEq, Eq)]
pub struct UserInfoJson {
    /// The user.
    pub owner: Option<String>,
    /// The version of the protocol.
    pub version: u8,
    /// The public key, in Base64.
    pub pubkey: String,
    /// The sealed private key, in Base64, which only the user is given.
    pub content: Option<String>,
}

/// What a [`UserInfoJson`] holds.
pub struct UserInfoJsonView {
    pub owner: Option<Seq<char>>,
    pub version: u8,
    pub pubkey: Seq<char>,
    pub content: Option<Seq<char>>,
}

impl View for UserInfoJson {
    type V = UserInfoJsonView;

    open spec fn view(&self) -> UserInfoJsonView {
        UserInfoJsonView {
            owner: text::optional(self.owner),
            version: self.version,
            pubkey: self.pubkey@,
            content: text::optional(self.content),
        }
    }
}

impl UserInfoJsonView {
    /// Whether the public key and the content, where there is one, are Base64.
    pub open spec fn is_base64(self) -> bool {
        codec::base64_bytes(self.pubkey) is Some && codec::optional_is_base64(self.content)
    }

    /// Whether the public key and the content, where there is one, are short enough to be
    /// decoded.
    pub open spec fn has_decodable_size(self) -> bool {
        codec::decodable_size(self.pubkey) && codec::optional_decodable_size(self.content)
    }

    /// The user info that this stands for, of the given user.
    pub open spec fn user_info(self, owner: Seq<char>) -> UserInfoView {
        UserInfoView {
            owner: Some(owner),
            version: self.version,
            pubkey: codec::base64_bytes(self.pubkey)->Some_0,
            content: codec::optional_base64_bytes(self.content),
        }
    }
}

/// A user info: the key pair of a user.
pub struct UserInfo {
    /// The user.
    pub owner: Option<String>,
    /// The version of the protocol.
    pub version: u8,
    /// The public key.
    pub pubkey: Vec<u8>,
    /// The sealed private key, which only the user has.
    pub content: Option<Vec<u8>>,
}

/// What a [`UserInfo`] holds.
pub struct UserInfoView {
    pub owner: Option<Seq<char>>,
    pub version: u8,
    pub pubkey: Seq<u8>,
    pub content: Option<Seq<u8>>,
}

impl View for UserInfo {
    type V = UserInfoView;

    open spec fn view(&self) -> UserInfoView {
        UserInfoView {
            owner: text::optional(self.owner),
            version: self.version,
            pubkey: self.pubkey@,
            content: bytes::optional(self.content),
        }
    }
}

impl Clone for UserInfo {
    /// A copy that holds the same.
    fn clone(&self) -> (r: UserInfo)
        ensures
            r@ == self@,
    {
        UserInfo {
            owner: text::copy_optional(&self.owner),
            version: self.version,
            pubkey: bytes::copy(self.pubkey.as_slice()),
            content: bytes::copy_optional(&self.content),
        }
    }
}

impl UserInfoView {
    /// The user info as the service takes it.
    pub open spec fn json(self) -> UserInfoJsonView {
        UserInfoJsonView {
            owner: self.owner,
            version: self.version,
            pubkey: codec::base64_text(self.pubkey),
            content: codec::optional_base64_text(self.content),
        }
    }

    /// Whether the content, where there is one, has room for a tag.
    pub open spec fn has_tag(self) -> bool {
        self.content matches Some(content) ==> content.len() >= HMAC_SIZE
    }
}

/// Whether reading `json` gives `user_info` back, as the user info of whichever user it is
/// read for.
pub open spec fn stands_for(json: UserInfoJsonView, user_info: UserInfoView) -> bool {
    &&& json.is_base64()
    &&& json.owner == user_info.owner
    &&& forall|owner: Seq<char>| #[trigger]
        json.user_info(owner) == (UserInfoView { owner: Some(owner), ..user_info })
}

/// What the tag of a ciphertext is calculated over: the ciphertext, and the public key.
pub open spec fn hmac_input(ciphertext: Seq<u8>, pubkey: Seq<u8>) -> Seq<u8> {
    ciphertext + pubkey
}

/// Whether sealing the ciphertext of a private key may return `r` and leave `after`. The
/// public key is taken over before the tag is calculated, so it stays where that fails; the
/// content then stays as it was.
pub open spec fn seal_outcome<C: CryptoManager>(
    before: UserInfoView,
    manager: &C,
    ciphertext: Seq<u8>,
    pubkey: Seq<u8>,
    after: UserInfoView,
    r: Result<(), Error>,
) -> bool {
    exists|tag: Result<Vec<u8>, Error>| #[trigger]
        crypto::hmac_returns(manager, hmac_input(ciphertext, pubkey), tag) && match tag {
            Ok(t) => r is Ok && after == (UserInfoView {
                pubkey,
                content: Some(crypto::sealed(t@, ciphertext)),
                ..before
            }),
            Err(e) => r == (Err::<(), Error>(e)) && after == (UserInfoView { pubkey, ..before }),
        }
}

/// Whether taking over a public key, and sealing the ciphertext of the private one, may
/// return `r` and leave `after`.
pub open spec fn set_pubkey_outcome<C: CryptoManager, K: AsymmetricKeyPair>(
    before: UserInfoView,
    manager: &C,
    keypair: &K,
    ciphertext: Seq<u8>,
    after: UserInfoView,
    r: Result<(), Error>,
) -> bool {
    exists|pkey: Result<Vec<u8>, Error>| #[trigger]
        crypto::get_pkey_returns(keypair, pkey) && match pkey {
            Ok(p) => seal_outcome(before, manager, ciphertext, p@, after, r),
            Err(e) => r == (Err::<(), Error>(e)) && after == before,
        }
}

/// Whether encrypting a private key, and taking over the pair, may return `r` and leave
/// `after`.
pub open spec fn set_skey_outcome<C: CryptoManager, K: AsymmetricKeyPair>(
    before: UserInfoView,
    manager: &C,
    keypair: &K,
    skey: Seq<u8>,
    after: UserInfoView,
    r: Result<(), Error>,
) -> bool {
    exists|ciphertext: Result<Vec<u8>, Error>| #[trigger]
        crypto::encrypt_returns(manager, skey, ciphertext) && match ciphertext {
            Ok(c) => set_pubkey_outcome(before, manager, keypair, c@, after, r),
            Err(e) => r == (Err::<(), Error>(e)) && after == before,
        }
}

/// Whether setting the key pair of a user info may return `r` and leave `after`.
pub open spec fn set_keypair_outcome<C: CryptoManager, K: AsymmetricKeyPair>(
    before: UserInfoView,
    manager: &C,
    keypair: &K,
    after: UserInfoView,
    r: Result<(), Error>,
) -> bool {
    exists|skey: Result<Vec<u8>, Error>| #[trigger]
        crypto::get_skey_returns(keypair, skey) && match skey {
            Ok(s) => set_skey_outcome(before, manager, keypair, s@, after, r),
            Err(e) => r == (Err::<(), Error>(e)) && after == before,
        }
}

/// What comes of holding the tag in a user info against a calculated one.
pub open spec fn tag_verdict(user_info: UserInfoView, calculated: Seq<u8>) -> Result<(), Error> {
    match user_info.content {
        Some(content) => if crypto::tag_of(content) == calculated {
            Ok(())
        } else {
            Err(Error::HmacMismatch)
        },
        None => Err(Error::NoContent),
    }
}

/// What comes of checking a user info once its tag is calculated.
pub open spec fn checked(user_info: UserInfoView, tag: Result<Vec<u8>, Error>) -> Result<
    (),
    Error,
> {
    match tag {
        Ok(t) => tag_verdict(user_info, t@),
        Err(e) => Err(e),
    }
}

/// Whether verifying a user info may return `r`.
pub open spec fn verify_outcome<C: CryptoManager>(
    user_info: UserInfoView,
    manager: &C,
    r: Result<(), Error>,
) -> bool {
    match user_info.content {
        Some(content) => exists|tag: Result<Vec<u8>, Error>| #[trigger]
            crypto::hmac_returns(
                manager,
                hmac_input(crypto::ciphertext_of(content), user_info.pubkey),
                tag,
            ) && r == checked(user_info, tag),
        None => r == (Err::<(), Error>(Error::NoContent)),
    }
}

/// Whether decrypting a private key, and making the pair of it and the public one, may
/// return `r`.
pub open spec fn open_outcome<C: CryptoManager, K: AsymmetricKeyPair>(
    manager: &C,
    ciphertext: Seq<u8>,
    pubkey: Seq<u8>,
    r: Result<K, Error>,
) -> bool {
    exists|skey: Result<Vec<u8>, Error>| #[trigger]
        crypto::decrypt_returns(manager, ciphertext, skey) && match skey {
            Ok(s) => crypto::from_der_returns(s@, pubkey, r),
            Err(e) => r == (Err::<K, Error>(e)),
        }
}

/// Whether getting the key pair of a user info may return `r`: the private key is decrypted
/// only where the user info is verified.
pub open spec fn get_keypair_outcome<C: CryptoManager, K: AsymmetricKeyPair>(
    user_info: UserInfoView,
    manager: &C,
    r: Result<K, Error>,
) -> bool {
    match user_info.content {
        Some(content) => exists|verified: Result<(), Error>| #[trigger]
            verify_outcome(user_info, manager, verified) && match verified {
                Ok(()) => open_outcome(
                    manager,
                    crypto::ciphertext_of(content),
                    user_info.pubkey,
                    r,
                ),
                Err(e) => r == (Err::<K, Error>(e)),
            },
        None => r == (Err::<K, Error>(Error::NoKeypair)),
    }
}

impl UserInfo {
    /// A new user info, without keys.
    pub fn new(owner: &str, version: u8) -> (r: UserInfo)
        ensures
            r@ == (UserInfoView {
                owner: Some(owner@),
                version,
                pubkey: Seq::empty(),
                content: None,
            }),
    {
        UserInfo {
            owner: Some(owner.to_owned()),
            version,
            pubkey: Vec::new(),
            content: None,
        }
    }

    /// The user info of the given user, with these keys.
    pub fn from_parts(
        owner: &str,
        version: u8,
        pubkey: Vec<u8>,
        content: Option<Vec<u8>>,
    ) -> (r: UserInfo)
        ensures
            r@ == (UserInfoView {
                owner: Some(owner@),
                version,
                pubkey: pubkey@,
                content: bytes::optional(content),
            }),
    {
        UserInfo { owner: Some(owner.to_owned()), version, pubkey, content }
    }

    /// The user info that `json` stands for, of the given user.
    pub fn from_json(owner: &str, json: &UserInfoJson) -> (r: UserInfo)
        requires
            json@.has_decodable_size(),
            json@.is_base64(),
        ensures
            r@ == json@.user_info(owner@),
    {
        let pubkey = codec::known_base64_decode(json.pubkey.as_str());
        let content = codec::known_optional_base64_decode(&json.content);
        UserInfo::from_parts(owner, json.version, pubkey, content)
    }

    /// The user info that `json` stands for, of the given user, or `None` where the public
    /// key or the content cannot be decoded.
    pub fn try_from_json(owner: &str, json: &UserInfoJson) -> (r: Option<UserInfo>)
        ensures
            r is Some <==> json@.has_decodable_size() && json@.is_base64(),
            r matches Some(user_info) ==> user_info@ == json@.user_info(owner@),
    {
        if codec::is_base64(json.pubkey.as_str()) && codec::is_optional_base64(&json.content) {
            Some(UserInfo::from_json(owner, json))
        } else {
            None
        }
    }

    /// The user info as the service takes it, given its keys once encoded.
    pub fn to_json_with(&self, pubkey: String, content: Option<String>) -> (r: UserInfoJson)
        ensures
            r@ == (UserInfoJsonView {
                owner: self@.owner,
                version: self@.version,
                pubkey: pubkey@,
                content: text::optional(content),
            }),
    {
        UserInfoJson {
            owner: text::copy_optional(&self.owner),
            version: self.version,
            pubkey,
            content,
        }
    }

    /// The user info as the service takes it. Reading that back, for any user, gives the user
    /// info as that user's.
    pub fn to_json(&self) -> (r: UserInfoJson)
        ensures
            r@ == self@.json(),
            stands_for(r@, self@),
    {
        let pubkey = codec::base64_encode(self.pubkey.as_slice());
        let content = codec::optional_base64_encode(&self.content);
        proof {
            codec::lemma_base64_round_trip(self.pubkey@);
        }
        self.to_json_with(pubkey, content)
    }

    /// The manager of the key that user infos are sealed with.
    pub fn get_crypto_manager<C: CryptoManager>(&self, key: &[u8]) -> (r: Result<C, Error>)
        ensures
            crypto::new_returns(key@, "userInfo"@, self@.version, r),
    {
        C::new(key, "userInfo", self.version)
    }

    /// Whether the content, where there is one, has room for a tag, as reading it needs.
    pub fn has_tag(&self) -> (r: bool)
        ensures
            r == self@.has_tag(),
    {
        match &self.content {
            Some(content) => content.len() >= HMAC_SIZE,
            None => true,
        }
    }

    /// Puts the ciphertext of a private key and its tag into the user info.
    pub fn seal(&mut self, tag: &[u8], ciphertext: &[u8])
        ensures
            final(self)@ == (UserInfoView {
                content: Some(crypto::sealed(tag@, ciphertext@)),
                ..old(self)@
            }),
    {
        self.content = Some(bytes::joined(tag, ciphertext));
    }

    /// Takes over a key pair, its private key encrypted.
    pub fn set_keypair<C: CryptoManager, K: AsymmetricKeyPair>(
        &mut self,
        crypto_manager: &C,
        keypair: &K,
    ) -> (r: Result<(), Error>)
        ensures
            set_keypair_outcome(old(self)@, crypto_manager, keypair, final(self)@, r),
    {
        let private = keypair.get_skey();
        assert(crypto::get_skey_returns(keypair, private));
        let skey = private?;
        let encrypted = crypto_manager.encrypt(skey.as_slice());
        assert(crypto::encrypt_returns(crypto_manager, skey@, encrypted));
        let ciphertext = encrypted?;
        let public = keypair.get_pkey();
        assert(crypto::get_pkey_returns(keypair, public));
        let pkey = public?;
        self.pubkey = pkey;
        let tag = UserInfo::calculate_hmac(
            crypto_manager,
            ciphertext.as_slice(),
            self.pubkey.as_slice(),
        );
        assert(crypto::hmac_returns(crypto_manager, hmac_input(ciphertext@, pkey@), tag));
        let hmac = tag?;
        self.seal(hmac.as_slice(), ciphertext.as_slice());
        Ok(())
    }

    /// The key pair, once the user info is verified.
    pub fn get_keypair<C: CryptoManager, K: AsymmetricKeyPair>(&self, crypto_manager: &C) -> (r:
        Result<K, Error>)
        requires
            self@.has_tag(),
        ensures
            get_keypair_outcome(self@, crypto_manager, r),
    {
        let content = match &self.content {
            Some(content) => content,
            None => return Err(Error::NoKeypair),
        };
        let verified = self.verify(crypto_manager);
        assert(verify_outcome(self@, crypto_manager, verified));
        verified?;
        let (_, ciphertext) = crypto::unseal(content.as_slice());
        let decrypted = crypto_manager.decrypt(ciphertext);
        assert(crypto::decrypt_returns(
            crypto_manager,
            crypto::ciphertext_of(content@),
            decrypted,
        ));
        let skey = decrypted?;
        K::from_der(skey.as_slice(), self.pubkey.as_slice())
    }

    /// The tag of a message that goes with a public key.
    pub fn calculate_hmac<C: CryptoManager>(
        crypto_manager: &C,
        message: &[u8],
        pubkey: &[u8],
    ) -> (r: Result<Vec<u8>, Error>)
        ensures
            crypto::hmac_returns(crypto_manager, hmac_input(message@, pubkey@), r),
    {
        let data = bytes::joined(message, pubkey);
        crypto_manager.hmac(data.as_slice())
    }

    /// Holds the tag in the user info against a calculated one.
    pub fn verify_tag(&self, calculated: &[u8]) -> (r: Result<(), Error>)
        requires
            self@.has_tag(),
        ensures
            r == tag_verdict(self@, calculated@),
    {
        let content = match &self.content {
            Some(content) => content,
            None => return Err(Error::NoContent),
        };
        let (hmac, _) = crypto::unseal(content.as_slice());
        crypto::check_tag(hmac, calculated)
    }

    /// Whether the tag in the user info is that of its ciphertext and its public key.
    pub fn verify<C: CryptoManager>(&self, crypto_manager: &C) -> (r: Result<(), Error>)
        requires
            self@.has_tag(),
        ensures
            verify_outcome(self@, crypto_manager, r),
    {
        let content = match &self.content {
            Some(content) => content,
            None => return Err(Error::NoContent),
        };
        let (_, ciphertext) = crypto::unseal(content.as_slice());
        let tag = UserInfo::calculate_hmac(crypto_manager, ciphertext, self.pubkey.as_slice());
        assert(crypto::hmac_returns(
            crypto_manager,
            hmac_input(crypto::ciphertext_of(content@), self@.pubkey),
            tag,
        ));
        let calculated = tag?;
        self.verify_tag(calculated.as_slice())
    }
}

/// A user info whose key pair was set carries a tag, with a manager whose tags are of full
/// size.
pub proof fn law_set_keypair_leaves_a_tag<C: CryptoManager, K: AsymmetricKeyPair>(
    before: UserInfoView,
    manager: &C,
    keypair: &K,
    after: UserInfoView,
    set: Result<(), Error>,
)
    requires
        crypto::has_full_tags(manager),
        set_keypair_outcome(before, manager, keypair, after, set),
        set is Ok,
    ensures
        after.content is Some,
        after.has_tag(),
{
}

/// A user info whose key pair was set is verified, with a manager whose tags are stable and of
/// full size.
pub proof fn law_set_keypair_verifies<C: CryptoManager, K: AsymmetricKeyPair>(
    before: UserInfoView,
    manager: &C,
    keypair: &K,
    after: UserInfoView,
    set: Result<(), Error>,
    verified: Result<(), Error>,
)
    requires
        crypto::has_stable_tags(manager),
        crypto::has_full_tags(manager),
        set_keypair_outcome(before, manager, keypair, after, set),
        set is Ok,
        verify_outcome(after, manager, verified),
    ensures
        verified is Ok,
{
    let (c, p) = choose|c: Vec<u8>, p: Vec<u8>|
        #![trigger hmac_input(c@, p@)]
        seal_outcome(before, manager, c@, p@, after, set);
    let t = choose|t: Vec<u8>| #[trigger]
        crypto::hmac_returns(manager, hmac_input(c@, p@), Ok(t)) && after == (UserInfoView {
            pubkey: p@,
            content: Some(crypto::sealed(t@, c@)),
            ..before
        });
    crypto::lemma_unseal_sealed(t@, c@);
}

/// The keys that were put into a user info come out of it: getting the pair after setting it
/// makes it of the very encodings that the set pair gave, with a manager whose tags are
/// stable and of full size and which decrypts what it has encrypted.
pub proof fn law_keypair_round_trip<C: CryptoManager, K: AsymmetricKeyPair>(
    before: UserInfoView,
    manager: &C,
    keypair: &K,
    after: UserInfoView,
    set: Result<(), Error>,
    got: Result<K, Error>,
)
    requires
        crypto::has_stable_tags(manager),
        crypto::has_full_tags(manager),
        crypto::undoes_encryption(manager),
        set_keypair_outcome(before, manager, keypair, after, set),
        set is Ok,
        get_keypair_outcome(after, manager, got),
    ensures
        exists|skey: Vec<u8>, pkey: Vec<u8>| #[trigger]
            crypto::get_skey_returns(keypair, Ok(skey)) && #[trigger] crypto::get_pkey_returns(
                keypair,
                Ok(pkey),
            ) && crypto::from_der_returns(skey@, pkey@, got),
{
    let s = choose|s: Vec<u8>| #[trigger]
        crypto::get_skey_returns(keypair, Ok(s)) && set_skey_outcome(
            before,
            manager,
            keypair,
            s@,
            after,
            set,
        );
    let c = choose|c: Vec<u8>| #[trigger]
        crypto::encrypt_returns(manager, s@, Ok(c)) && set_pubkey_outcome(
            before,
            manager,
            keypair,
            c@,
            after,
            set,
        );
    let p = choose|p: Vec<u8>| #[trigger]
        crypto::get_pkey_returns(keypair, Ok(p)) && seal_outcome(
            before,
            manager,
            c@,
            p@,
            after,
            set,
        );
    let t = choose|t: Vec<u8>| #[trigger]
        crypto::hmac_returns(manager, hmac_input(c@, p@), Ok(t)) && after == (UserInfoView {
            pubkey: p@,
            content: Some(crypto::sealed(t@, c@)),
            ..before
        });
    assert(t@.len() == HMAC_SIZE);
    crypto::lemma_unseal_sealed(t@, c@);
    assert(crypto::ciphertext_of(after.content->Some_0) == c@);
    assert(open_outcome::<C, K>(manager, c@, p@, got));
    let skey = choose|skey: Result<Vec<u8>, Error>| #[trigger]
        crypto::decrypt_returns(manager, c@, skey) && match skey {
            Ok(d) => crypto::from_der_returns(d@, p@, got),
            Err(e) => got == (Err::<K, Error>(e)),
        };
    assert(crypto::encrypt_returns(manager, s@, Ok(c)));
    assert(skey->Ok_0@ == s@);
}

/// Setting a key pair touches the keys alone, and where it fails the sealed private key stays
/// as it was.
pub proof fn law_set_keypair_keeps_the_rest<C: CryptoManager, K: AsymmetricKeyPair>(
    before: UserInfoView,
    manager: &C,
    keypair: &K,
    after: UserInfoView,
    set: Result<(), Error>,
)
    requires
        set_keypair_outcome(before, manager, keypair, after, set),
    ensures
        after.owner == before.owner,
        after.version == before.version,
        set is Err ==> after.content == before.content,
        set is Ok ==> after.content is Some,
{
}

/// A user info that carries another tag than that of its ciphertext and its public key is
/// refused as a mismatch, and gives out no key pair.
pub proof fn law_altered_user_info_is_refused<C: CryptoManager, K: AsymmetricKeyPair>(
    user_info: UserInfoView,
    manager: &C,
    tag: Vec<u8>,
    got: Result<K, Error>,
)
    requires
        crypto::has_stable_tags(manager),
        user_info.content is Some,
        crypto::hmac_returns(
            manager,
            hmac_input(crypto::ciphertext_of(user_info.content->Some_0), user_info.pubkey),
            Ok(tag),
        ),
        crypto::tag_of(user_info.content->Some_0) != tag@,
        get_keypair_outcome(user_info, manager, got),
    ensures
        got == (Err::<K, Error>(Error::HmacMismatch)),
{
}

} // verus!
