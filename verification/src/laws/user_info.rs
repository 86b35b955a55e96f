//! Laws of user infos: the key pair that is put into one comes out of it, and only where the
//! sealed private key and the public key are unaltered.

use vstd::prelude::*;
use vstd::utf8::encode_utf8;
use crate::codec;
use crate::crypto;
use crate::crypto::{AsymmetricKeyPair, CryptoManager};
use crate::error::Error;
use crate::laws;
use crate::user_info;
use crate::user_info::{UserInfo, UserInfoJson};

verus! {

/// The tag of a user info is calculated over the whole message and the public key behind it, all
/// of it.
pub proof fn law_tag_covers_message_and_pubkey<C: CryptoManager>(
    manager: &C,
    message: &[u8],
    pubkey: &[u8],
    r: Result<Vec<u8>, Error>,
)
    requires
        call_ensures(UserInfo::calculate_hmac::<C>, (manager, message, pubkey), r),
    ensures
        exists|data: &[u8]| #[trigger]
            call_ensures(C::hmac, (manager, data), r) && laws::made_of(data@, message@, pubkey@),
{
    let data = choose|data: &[u8]| #[trigger]
        call_ensures(C::hmac, (manager, data), r) && data@ == user_info::hmac_input(
            message@,
            pubkey@,
        );
    laws::lemma_made_of(data@, message@, pubkey@);
    assert(laws::made_of(data@, message@, pubkey@));
}

/// The bytes that the tag of a user info is calculated over begin with the ciphertext and end
/// with the whole public key. They differ for two public keys of one ciphertext that differ,
/// and for two ciphertexts of one public key that differ.
pub proof fn law_tagged_bytes_are_told_apart(c: Seq<u8>, d: Seq<u8>, p: Seq<u8>, q: Seq<u8>)
    ensures
        laws::made_of(user_info::hmac_input(c, p), c, p),
        p != q ==> user_info::hmac_input(c, p) != user_info::hmac_input(c, q),
        c != d ==> user_info::hmac_input(c, p) != user_info::hmac_input(d, p),
{
    laws::lemma_made_of(user_info::hmac_input(c, p), c, p);
    if p != q {
        laws::lemma_parts_differ(c, p, c, q);
    }
    if c != d {
        laws::lemma_parts_differ(c, p, d, p);
    }
}

/// Setting a key pair encrypts the whole private key, takes over the whole public key, and
/// leaves as the content the tag of the ciphertext and the public key, and that ciphertext
/// behind it. Where a step fails the error is passed on and the content stays; the public key
/// is then taken over only where the tag is what failed. The owner and the version stay.
pub proof fn law_set_keypair<C: CryptoManager, K: AsymmetricKeyPair>(
    subject: &mut UserInfo,
    manager: &C,
    keypair: &K,
    r: Result<(), Error>,
)
    requires
        call_ensures(UserInfo::set_keypair::<C, K>, (subject, manager, keypair), r),
    ensures
        exists|skey: Result<Vec<u8>, Error>| #[trigger]
            call_ensures(K::get_skey, (keypair,), skey) && match skey {
                Ok(s) => exists|clear: &[u8], cipher: Result<Vec<u8>, Error>| #[trigger]
                    call_ensures(C::encrypt, (manager, clear), cipher) && clear@ == s@
                        && match cipher {
                        Ok(c) => exists|pkey: Result<Vec<u8>, Error>| #[trigger]
                            call_ensures(K::get_pkey, (keypair,), pkey) && match pkey {
                                Ok(p) => final(subject).pubkey@ == p@ && exists|
                                    data: &[u8],
                                    tag: Result<Vec<u8>, Error>,
                                | #[trigger]
                                    call_ensures(C::hmac, (manager, data), tag) && laws::made_of(
                                        data@,
                                        c@,
                                        p@,
                                    ) && match tag {
                                        Ok(t) => r is Ok && final(subject).content is Some
                                            && laws::made_of(
                                            final(subject).content->Some_0@,
                                            t@,
                                            c@,
                                        ),
                                        Err(e) => r == (Err::<(), Error>(e)),
                                    },
                                Err(e) => r == (Err::<(), Error>(e)) && final(subject).pubkey@
                                    == old(subject).pubkey@,
                            },
                        Err(e) => r == (Err::<(), Error>(e)) && final(subject).pubkey@
                            == old(subject).pubkey@,
                    },
                Err(e) => r == (Err::<(), Error>(e)) && final(subject).pubkey@
                    == old(subject).pubkey@,
            },
        r is Err ==> crate::bytes::optional(final(subject).content) == crate::bytes::optional(
            old(subject).content,
        ),
        crate::text::optional(final(subject).owner) == crate::text::optional(old(subject).owner),
        final(subject).version == old(subject).version,
{
    let before = old(subject)@;
    let after = final(subject)@;
    assert(after.owner == before.owner && after.version == before.version);
    assert(r is Err ==> after.content == before.content);
    assert(after.content == crate::bytes::optional(final(subject).content));
    let skey = choose|skey: Result<Vec<u8>, Error>| #[trigger]
        crypto::get_skey_returns(keypair, skey) && match skey {
            Ok(s) => user_info::set_skey_outcome(before, manager, keypair, s@, after, r),
            Err(e) => r == (Err::<(), Error>(e)) && after == before,
        };
    assert(call_ensures(K::get_skey, (keypair,), skey));
    if let Ok(s) = skey {
        let cipher = choose|cipher: Result<Vec<u8>, Error>| #[trigger]
            crypto::encrypt_returns(manager, s@, cipher) && match cipher {
                Ok(c) => user_info::set_pubkey_outcome(before, manager, keypair, c@, after, r),
                Err(e) => r == (Err::<(), Error>(e)) && after == before,
            };
        let clear = choose|clear: &[u8]| #[trigger]
            call_ensures(C::encrypt, (manager, clear), cipher) && clear@ == s@;
        if let Ok(c) = cipher {
            let pkey = choose|pkey: Result<Vec<u8>, Error>| #[trigger]
                crypto::get_pkey_returns(keypair, pkey) && match pkey {
                    Ok(p) => user_info::seal_outcome(before, manager, c@, p@, after, r),
                    Err(e) => r == (Err::<(), Error>(e)) && after == before,
                };
            assert(call_ensures(K::get_pkey, (keypair,), pkey));
            if let Ok(p) = pkey {
                let tag = choose|tag: Result<Vec<u8>, Error>| #[trigger]
                    crypto::hmac_returns(manager, user_info::hmac_input(c@, p@), tag) && after.pubkey
                        == p@ && match tag {
                        Ok(t) => r is Ok && after.content == Some(crypto::sealed(t@, c@)),
                        Err(e) => r == (Err::<(), Error>(e)),
                    };
                let data = choose|data: &[u8]| #[trigger]
                    call_ensures(C::hmac, (manager, data), tag) && data@ == user_info::hmac_input(
                        c@,
                        p@,
                    );
                laws::lemma_made_of(data@, c@, p@);
                assert(laws::made_of(data@, c@, p@));
                if let Ok(t) = tag {
                    laws::lemma_made_of(after.content->Some_0, t@, c@);
                }
            }
        }
    }
}

/// A user info with a content is verified exactly where the first thirty-two bytes of it are the
/// tag of all the bytes behind them and of the public key. Anything else is a mismatch, an
/// absent content has an error of its own, and where the tag cannot be calculated that error is
/// passed on.
pub proof fn law_verify<C: CryptoManager>(subject: &UserInfo, manager: &C, r: Result<(), Error>)
    requires
        call_ensures(UserInfo::verify::<C>, (subject, manager), r),
        subject.content matches Some(content) ==> content@.len() >= 32,
    ensures
        subject.content is None ==> r == (Err::<(), Error>(Error::NoContent)),
        subject.content matches Some(content) ==> exists|
            data: &[u8],
            tag: Result<Vec<u8>, Error>,
        | #[trigger]
            call_ensures(C::hmac, (manager, data), tag) && laws::made_of(
                data@,
                content@.skip(32),
                subject.pubkey@,
            ) && match tag {
                Ok(t) => {
                    &&& r is Ok <==> content@.take(32) == t@
                    &&& r is Err ==> r == (Err::<(), Error>(Error::HmacMismatch))
                },
                Err(e) => r == (Err::<(), Error>(e)),
            },
{
    assert(subject@.content == crate::bytes::optional(subject.content));
    if let Some(content) = subject.content {
        let c = content@.skip(32);
        let tag = choose|tag: Result<Vec<u8>, Error>| #[trigger]
            crypto::hmac_returns(manager, user_info::hmac_input(c, subject@.pubkey), tag) && r
                == user_info::checked(subject@, tag);
        let data = choose|data: &[u8]| #[trigger]
            call_ensures(C::hmac, (manager, data), tag) && data@ == user_info::hmac_input(
                c,
                subject@.pubkey,
            );
        laws::lemma_made_of(data@, c, subject.pubkey@);
        assert(laws::made_of(data@, c, subject.pubkey@));
    }
}

/// A key pair is given out only where the user info is verified, and is then made of what the
/// manager makes of all the bytes behind the tag and of the public key; otherwise the reason why
/// it is not verified is given, and an absent content has an error of its own.
pub proof fn law_get_keypair<C: CryptoManager, K: AsymmetricKeyPair>(
    subject: &UserInfo,
    manager: &C,
    r: Result<K, Error>,
)
    requires
        call_ensures(UserInfo::get_keypair::<C, K>, (subject, manager), r),
        subject.content matches Some(content) ==> content@.len() >= 32,
    ensures
        subject.content is None ==> r == (Err::<K, Error>(Error::NoKeypair)),
        subject.content matches Some(content) ==> exists|
            data: &[u8],
            tag: Result<Vec<u8>, Error>,
        | #[trigger]
            call_ensures(C::hmac, (manager, data), tag) && laws::made_of(
                data@,
                content@.skip(32),
                subject.pubkey@,
            ) && match tag {
                Ok(t) => if content@.take(32) == t@ {
                    exists|cipher: &[u8], skey: Result<Vec<u8>, Error>| #[trigger]
                        call_ensures(C::decrypt, (manager, cipher), skey) && cipher@
                            == content@.skip(32) && match skey {
                            Ok(s) => exists|private: &[u8], public: &[u8]| #[trigger]
                                call_ensures(K::from_der, (private, public), r) && private@ == s@
                                    && public@ == subject.pubkey@,
                            Err(e) => r == (Err::<K, Error>(e)),
                        }
                } else {
                    r == (Err::<K, Error>(Error::HmacMismatch))
                },
                Err(e) => r == (Err::<K, Error>(e)),
            },
{
    assert(subject@.content == crate::bytes::optional(subject.content));
    if let Some(content) = subject.content {
        let c = content@.skip(32);
        let verified = choose|verified: Result<(), Error>| #[trigger]
            user_info::verify_outcome(subject@, manager, verified) && match verified {
                Ok(()) => user_info::open_outcome(manager, c, subject@.pubkey, r),
                Err(e) => r == (Err::<K, Error>(e)),
            };
        let tag = choose|tag: Result<Vec<u8>, Error>| #[trigger]
            crypto::hmac_returns(manager, user_info::hmac_input(c, subject@.pubkey), tag)
                && verified == user_info::checked(subject@, tag);
        let data = choose|data: &[u8]| #[trigger]
            call_ensures(C::hmac, (manager, data), tag) && data@ == user_info::hmac_input(
                c,
                subject@.pubkey,
            );
        laws::lemma_made_of(data@, c, subject.pubkey@);
        assert(laws::made_of(data@, c, subject.pubkey@));
        if verified is Ok {
            let skey = choose|skey: Result<Vec<u8>, Error>| #[trigger]
                crypto::decrypt_returns(manager, c, skey) && match skey {
                    Ok(s) => crypto::from_der_returns(s@, subject@.pubkey, r),
                    Err(e) => r == (Err::<K, Error>(e)),
                };
            let cipher = choose|cipher: &[u8]| #[trigger]
                call_ensures(C::decrypt, (manager, cipher), skey) && cipher@ == c;
            assert(call_ensures(C::decrypt, (manager, cipher), skey));
        }
    }
}

/// Once a key pair is set, a user info with that tag but with another public key, or with another
/// ciphertext, is accepted only where the manager gives one tag to two byte strings that differ.
/// The public keys may differ in length where the ciphertexts do not differ.
pub proof fn law_alteration_is_refused<C: CryptoManager, K: AsymmetricKeyPair>(
    subject: &mut UserInfo,
    manager: &C,
    keypair: &K,
    set: Result<(), Error>,
    altered: &UserInfo,
    verified: Result<(), Error>,
)
    requires
        crypto::has_full_tags(manager),
        call_ensures(UserInfo::set_keypair::<C, K>, (subject, manager, keypair), set),
        set is Ok,
        final(subject).content is Some,
        altered.content is Some,
        altered.content->Some_0@.len() >= 32,
        altered.content->Some_0@.take(32) == final(subject).content->Some_0@.take(32),
        altered.content->Some_0@ != final(subject).content->Some_0@
            || altered.pubkey@ != final(subject).pubkey@,
        altered.content->Some_0@.len() == final(subject).content->Some_0@.len() || altered.pubkey@
            == final(subject).pubkey@,
        call_ensures(UserInfo::verify::<C>, (altered, manager), verified),
        verified is Ok,
    ensures
        laws::has_collision(manager),
{
    law_set_keypair(subject, manager, keypair, set);
    law_verify(altered, manager, verified);
    let p = final(subject).pubkey@;
    let q = altered.pubkey@;
    let whole = final(subject).content->Some_0@;
    let other = altered.content->Some_0@;
    let d = other.skip(32);
    let (c, a, s) = choose|c: Vec<u8>, a: &[u8], s: Vec<u8>| #[trigger]
        call_ensures(C::hmac, (manager, a), Ok(s)) && laws::made_of(a@, c@, p)
            && #[trigger] laws::made_of(whole, s@, c@);
    let (b, t) = choose|b: &[u8], t: Vec<u8>| #[trigger]
        call_ensures(C::hmac, (manager, b), Ok(t)) && laws::made_of(b@, d, q) && t@ == other.take(
            32,
        );
    assert(crypto::hmac_returns(manager, a@, Ok(s)));
    assert(s@.len() == 32);
    laws::lemma_made_of(a@, c@, p);
    laws::lemma_made_of(b@, d, q);
    laws::lemma_made_of(whole, s@, c@);
    laws::lemma_made_of(other, t@, d);
    laws::lemma_parts_differ(c@, p, d, q);
}

/// The manager of user infos is made of the user's key, of one salt for all of them, and of the
/// version.
pub proof fn law_get_crypto_manager<C: CryptoManager>(
    subject: &UserInfo,
    key: &[u8],
    r: Result<C, Error>,
)
    requires
        call_ensures(UserInfo::get_crypto_manager::<C>, (subject, key), r),
    ensures
        exists|used: &[u8], salt: &str| #[trigger]
            call_ensures(C::new, (used, salt, subject.version), r) && used@ == key@ && salt@
                == "userInfo"@,
{
}

/// A new user info has the owner and the version that it is given, and no keys.
pub proof fn law_new(owner: &str, version: u8, r: UserInfo)
    requires
        call_ensures(UserInfo::new, (owner, version), r),
    ensures
        r.owner is Some,
        r.owner->Some_0@ == owner@,
        r.version == version,
        r.pubkey@.len() == 0,
        r.content is None,
{
    assert(r@.owner == crate::text::optional(r.owner));
    assert(r@.content == crate::bytes::optional(r.content));
}

/// A user info that is read from the service belongs to the user that it is asked for, and holds
/// what the service says.
pub proof fn law_from_json(owner: &str, json: &UserInfoJson, r: UserInfo)
    requires
        codec::base64_bytes(json.pubkey@) is Some,
        json.content matches Some(k) ==> codec::base64_bytes(k@) is Some,
        call_ensures(UserInfo::from_json, (owner, json), r),
    ensures
        r.owner is Some,
        r.owner->Some_0@ == owner@,
        r.version == json.version,
        codec::base64_bytes(json.pubkey@) == Some(r.pubkey@),
        r.content is Some <==> json.content is Some,
        json.content matches Some(k) ==> codec::base64_bytes(k@) == Some(r.content->Some_0@),
{
    assert(r@.owner == crate::text::optional(r.owner));
    assert(r@.content == crate::bytes::optional(r.content));
    assert(json@.content == crate::text::optional(json.content));
}

/// Reading may fail only where the public key or the content cannot be decoded, and gives the
/// same as reading what is known to be Base64.
pub proof fn law_try_from_json(
    owner: &str,
    json: &UserInfoJson,
    r: UserInfo,
    tried: Option<UserInfo>,
)
    requires
        call_ensures(UserInfo::from_json, (owner, json), r),
        call_ensures(UserInfo::try_from_json, (owner, json), tried),
    ensures
        tried is Some <==> {
            &&& codec::base64_bytes(json.pubkey@) is Some
            &&& 4 * encode_utf8(json.pubkey@).len() <= usize::MAX
            &&& json.content matches Some(k) ==> codec::base64_bytes(k@) is Some && 4
                * encode_utf8(k@).len() <= usize::MAX
        },
        tried matches Some(t) ==> crate::text::optional(t.owner) == crate::text::optional(r.owner)
            && t.version == r.version && t.pubkey@ == r.pubkey@ && crate::bytes::optional(t.content)
            == crate::bytes::optional(r.content),
{
    assert(json@.content == crate::text::optional(json.content));
    if let Some(t) = tried {
        assert(t@ == r@);
        assert(t@.owner == crate::text::optional(t.owner));
        assert(t@.content == crate::bytes::optional(t.content));
    }
}

/// A user info is written with all that it holds, and reading that for any user gives it back as
/// that user's.
pub proof fn law_to_json(subject: &UserInfo, r: UserInfoJson, owner: &str, back: UserInfo)
    requires
        call_ensures(UserInfo::to_json, (subject,), r),
        call_ensures(UserInfo::from_json, (owner, &r), back),
    ensures
        crate::text::optional(r.owner) == crate::text::optional(subject.owner),
        r.version == subject.version,
        r.pubkey@ == codec::base64_text(subject.pubkey@),
        codec::base64_bytes(r.pubkey@) == Some(subject.pubkey@),
        r.content is Some <==> subject.content is Some,
        r.content matches Some(k) ==> codec::base64_bytes(k@) == Some(subject.content->Some_0@),
        back.owner is Some,
        back.owner->Some_0@ == owner@,
        back.version == subject.version,
        back.pubkey@ == subject.pubkey@,
        crate::bytes::optional(back.content) == crate::bytes::optional(subject.content),
{
    assert(r@.owner == crate::text::optional(r.owner));
    assert(r@.content == crate::text::optional(r.content));
    assert(subject@.content == crate::bytes::optional(subject.content));
    if let Some(k) = subject.content {
        codec::lemma_base64_round_trip(k@);
    }
    assert(back@.owner == crate::text::optional(back.owner));
    assert(back@.content == crate::bytes::optional(back.content));
    assert(back@ == r@.user_info(owner@));
}

/// A copy of a user info, and one put together of its parts, hold those parts.
pub proof fn law_parts(
    subject: &UserInfo,
    copy: UserInfo,
    owner: &str,
    version: u8,
    pubkey: Vec<u8>,
    content: Option<Vec<u8>>,
    put_together: UserInfo,
)
    requires
        call_ensures(<UserInfo as Clone>::clone, (subject,), copy),
        call_ensures(UserInfo::from_parts, (owner, version, pubkey, content), put_together),
    ensures
        crate::text::optional(copy.owner) == crate::text::optional(subject.owner),
        copy.version == subject.version,
        copy.pubkey@ == subject.pubkey@,
        crate::bytes::optional(copy.content) == crate::bytes::optional(subject.content),
        put_together.owner is Some,
        put_together.owner->Some_0@ == owner@,
        put_together.version == version,
        put_together.pubkey@ == pubkey@,
        crate::bytes::optional(put_together.content) == crate::bytes::optional(content),
{
    assert(copy@.owner == crate::text::optional(copy.owner));
    assert(copy@.content == crate::bytes::optional(copy.content));
    assert(put_together@.owner == crate::text::optional(put_together.owner));
    assert(put_together@.content == crate::bytes::optional(put_together.content));
}

/// Sealing leaves as the content the tag and the ciphertext behind it, and nothing else changed.
pub proof fn law_seal(subject: &mut UserInfo, tag: &[u8], ciphertext: &[u8])
    requires
        call_ensures(UserInfo::seal, (subject, tag, ciphertext), ()),
    ensures
        final(subject).content is Some,
        laws::made_of(final(subject).content->Some_0@, tag@, ciphertext@),
        crate::text::optional(final(subject).owner) == crate::text::optional(old(subject).owner),
        final(subject).version == old(subject).version,
        final(subject).pubkey@ == old(subject).pubkey@,
{
    assert(final(subject)@.content == crate::bytes::optional(final(subject).content));
    assert(final(subject)@.owner == old(subject)@.owner);
    laws::lemma_made_of(final(subject)@.content->Some_0, tag@, ciphertext@);
}

/// A user info can be read where it has no content, or one of thirty-two bytes or more; holding
/// the tag at its head against another one succeeds exactly where they are the same bytes.
pub proof fn law_tag(
    subject: &UserInfo,
    has_tag: bool,
    calculated: &[u8],
    r: Result<(), Error>,
)
    requires
        call_ensures(UserInfo::has_tag, (subject,), has_tag),
        call_ensures(UserInfo::verify_tag, (subject, calculated), r),
    ensures
        has_tag <==> (subject.content matches Some(content) ==> content@.len() >= 32),
        subject.content is None ==> r == (Err::<(), Error>(Error::NoContent)),
        subject.content matches Some(content) ==> {
            &&& has_tag ==> (r is Ok <==> laws::made_of(content@, calculated@, content@.skip(32)))
            &&& r is Err ==> r == (Err::<(), Error>(Error::HmacMismatch))
        },
{
    assert(subject@.content == crate::bytes::optional(subject.content));
    if let Some(content) = subject.content {
        laws::lemma_made_of(content@, calculated@, content@.skip(32));
        if has_tag {
            assert(content@ =~= content@.take(32) + content@.skip(32));
            if laws::made_of(content@, calculated@, content@.skip(32)) {
                assert(calculated@.len() == 32);
            }
        }
    }
}

} // verus!
