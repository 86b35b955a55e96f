//! Laws of journals: what is put into one comes out of it, and only where it is unaltered.

use vstd::prelude::*;
use vstd::utf8::encode_utf8;
use crate::codec;
use crate::crypto;
use crate::crypto::{AsymmetricKeyPair, CryptoManager};
use crate::error::Error;
use crate::journal;
use crate::journal::{Journal, JournalJson, JournalView};
use crate::laws;

verus! {

/// The tag of a journal is calculated over the uid that is given, all of it, and the whole
/// message behind it.
pub proof fn law_tag_covers_uid_and_message<C: CryptoManager>(
    manager: &C,
    message: &[u8],
    uid: &[u8],
    r: Result<Vec<u8>, Error>,
)
    requires
        call_ensures(Journal::calculate_hmac::<C>, (manager, message, uid), r),
    ensures
        exists|data: &[u8]| #[trigger]
            call_ensures(C::hmac, (manager, data), r) && laws::made_of(data@, uid@, message@),
{
    let data = choose|data: &[u8]| #[trigger]
        call_ensures(C::hmac, (manager, data), r) && data@ == uid@ + message@;
    laws::lemma_made_of(data@, uid@, message@);
    assert(laws::made_of(data@, uid@, message@));
}

/// The bytes that the tag of a journal is calculated over begin with those of its uid and end
/// with the whole ciphertext. They differ for two ciphertexts of one uid that differ anywhere,
/// and for two uids of one ciphertext that differ.
pub proof fn law_tagged_bytes_are_told_apart(a: JournalView, b: JournalView, c: Seq<u8>, d: Seq<u8>)
    ensures
        laws::made_of(a.hmac_input(c), encode_utf8(a.uid), c),
        a.uid == b.uid && c != d ==> a.hmac_input(c) != b.hmac_input(d),
        a.uid != b.uid ==> a.hmac_input(c) != b.hmac_input(c),
        a.uid == b.uid ==> a.hmac_input(c) == b.hmac_input(c),
{
    laws::lemma_made_of(a.hmac_input(c), encode_utf8(a.uid), c);
    vstd::utf8::encode_utf8_decode_utf8(a.uid);
    vstd::utf8::encode_utf8_decode_utf8(b.uid);
    if a.uid == b.uid && c != d {
        laws::lemma_parts_differ(encode_utf8(a.uid), c, encode_utf8(b.uid), d);
    }
    if a.uid != b.uid {
        laws::lemma_parts_differ(encode_utf8(a.uid), c, encode_utf8(b.uid), c);
    }
}

/// Setting the info of a journal encrypts the whole info, and leaves as the content the tag of
/// the uid and of the whole ciphertext, and that ciphertext behind it. Where the manager fails
/// the content stays and the error is passed on, and nothing else ever changes.
pub proof fn law_set_info<C: CryptoManager>(
    subject: &mut Journal,
    manager: &C,
    info: &[u8],
    r: Result<(), Error>,
)
    requires
        call_ensures(Journal::set_info::<C>, (subject, manager, info), r),
    ensures
        exists|clear: &[u8], cipher: Result<Vec<u8>, Error>| #[trigger]
            call_ensures(C::encrypt, (manager, clear), cipher) && clear@ == info@ && match cipher {
                Ok(c) => exists|data: &[u8], tag: Result<Vec<u8>, Error>| #[trigger]
                    call_ensures(C::hmac, (manager, data), tag) && laws::made_of(
                        data@,
                        encode_utf8(old(subject).uid@),
                        c@,
                    ) && match tag {
                        Ok(t) => r is Ok && laws::made_of(final(subject).content@, t@, c@),
                        Err(e) => r == (Err::<(), Error>(e)),
                    },
                Err(e) => r == (Err::<(), Error>(e)),
            },
        r is Err ==> final(subject).content@ == old(subject).content@,
        final(subject).uid@ == old(subject).uid@,
        final(subject).version == old(subject).version,
        final(subject).owner@ == old(subject).owner@,
        crate::bytes::optional(final(subject).key) == crate::bytes::optional(old(subject).key),
        final(subject).status.read_only() == old(subject).status.read_only(),
        final(subject).status.last_uid() == old(subject).status.last_uid(),
{
    let before = old(subject)@;
    let after = final(subject)@;
    assert(after.uid == before.uid && after.version == before.version && after.owner
        == before.owner && after.key == before.key && after.read_only == before.read_only
        && after.last_uid == before.last_uid);
    let cipher = choose|cipher: Result<Vec<u8>, Error>| #[trigger]
        crypto::encrypt_returns(manager, info@, cipher) && match cipher {
            Ok(c) => journal::seal_outcome(before, manager, c@, after, r),
            Err(e) => r == (Err::<(), Error>(e)) && after == before,
        };
    let clear = choose|clear: &[u8]| #[trigger]
        call_ensures(C::encrypt, (manager, clear), cipher) && clear@ == info@;
    if let Ok(c) = cipher {
        let tag = choose|tag: Result<Vec<u8>, Error>| #[trigger]
            crypto::hmac_returns(manager, before.hmac_input(c@), tag) && match tag {
                Ok(t) => r is Ok && after.content == crypto::sealed(t@, c@),
                Err(e) => r == (Err::<(), Error>(e)) && after == before,
            };
        let data = choose|data: &[u8]| #[trigger]
            call_ensures(C::hmac, (manager, data), tag) && data@ == before.hmac_input(c@);
        laws::lemma_made_of(data@, encode_utf8(before.uid), c@);
        assert(laws::made_of(data@, encode_utf8(before.uid), c@));
        if let Ok(t) = tag {
            laws::lemma_made_of(after.content, t@, c@);
        }
    }
}

/// A journal is verified exactly where the first thirty-two bytes of its content are the tag of
/// its uid and of all the bytes behind them. Anything else is a mismatch, and where the tag
/// cannot be calculated that error is passed on.
pub proof fn law_verify<C: CryptoManager>(subject: &Journal, manager: &C, r: Result<(), Error>)
    requires
        call_ensures(Journal::verify::<C>, (subject, manager), r),
        subject.content@.len() >= 32,
    ensures
        exists|data: &[u8], tag: Result<Vec<u8>, Error>| #[trigger]
            call_ensures(C::hmac, (manager, data), tag) && laws::made_of(
                data@,
                encode_utf8(subject.uid@),
                subject.content@.skip(32),
            ) && match tag {
                Ok(t) => {
                    &&& r is Ok <==> subject.content@.take(32) == t@
                    &&& r is Err ==> r == (Err::<(), Error>(Error::HmacMismatch))
                },
                Err(e) => r == (Err::<(), Error>(e)),
            },
{
    let c = subject.content@.skip(32);
    let tag = choose|tag: Result<Vec<u8>, Error>| #[trigger]
        crypto::hmac_returns(manager, subject@.hmac_input(c), tag) && r == journal::checked(
            subject@,
            tag,
        );
    let data = choose|data: &[u8]| #[trigger]
        call_ensures(C::hmac, (manager, data), tag) && data@ == subject@.hmac_input(c);
    laws::lemma_made_of(data@, encode_utf8(subject.uid@), c);
    assert(laws::made_of(data@, encode_utf8(subject.uid@), c));
}

/// The info is given out only where the journal is verified, and is then what the manager makes
/// of all the bytes behind the tag; otherwise the reason why it is not verified is given.
pub proof fn law_get_info<C: CryptoManager>(
    subject: &Journal,
    manager: &C,
    r: Result<Vec<u8>, Error>,
)
    requires
        call_ensures(Journal::get_info::<C>, (subject, manager), r),
        subject.content@.len() >= 32,
    ensures
        exists|data: &[u8], tag: Result<Vec<u8>, Error>| #[trigger]
            call_ensures(C::hmac, (manager, data), tag) && laws::made_of(
                data@,
                encode_utf8(subject.uid@),
                subject.content@.skip(32),
            ) && match tag {
                Ok(t) => if subject.content@.take(32) == t@ {
                    exists|cipher: &[u8]| #[trigger]
                        call_ensures(C::decrypt, (manager, cipher), r) && cipher@
                            == subject.content@.skip(32)
                } else {
                    r == (Err::<Vec<u8>, Error>(Error::HmacMismatch))
                },
                Err(e) => r == (Err::<Vec<u8>, Error>(e)),
            },
{
    let c = subject.content@.skip(32);
    let verified = choose|verified: Result<(), Error>| #[trigger]
        journal::verify_outcome(subject@, manager, verified) && match verified {
            Ok(()) => crypto::decrypt_returns(manager, c, r),
            Err(e) => r == (Err::<Vec<u8>, Error>(e)),
        };
    let tag = choose|tag: Result<Vec<u8>, Error>| #[trigger]
        crypto::hmac_returns(manager, subject@.hmac_input(c), tag) && verified == journal::checked(
            subject@,
            tag,
        );
    let data = choose|data: &[u8]| #[trigger]
        call_ensures(C::hmac, (manager, data), tag) && data@ == subject@.hmac_input(c);
    laws::lemma_made_of(data@, encode_utf8(subject.uid@), c);
    assert(laws::made_of(data@, encode_utf8(subject.uid@), c));
}

/// Once the info of a journal is set, a journal with that tag but with another ciphertext, or
/// with another uid, is accepted only where the manager gives one tag to two byte strings that
/// differ. The uids may differ in length where the ciphertexts do not differ.
pub proof fn law_alteration_is_refused<C: CryptoManager>(
    subject: &mut Journal,
    manager: &C,
    info: &[u8],
    set: Result<(), Error>,
    altered: &Journal,
    verified: Result<(), Error>,
)
    requires
        crypto::has_full_tags(manager),
        call_ensures(Journal::set_info::<C>, (subject, manager, info), set),
        set is Ok,
        altered.content@.len() >= 32,
        altered.content@.take(32) == final(subject).content@.take(32),
        altered.content@ != final(subject).content@ || altered.uid@ != final(subject).uid@,
        altered.uid@ == final(subject).uid@ || altered.content@ == final(subject).content@
            || encode_utf8(altered.uid@).len() == encode_utf8(final(subject).uid@).len(),
        call_ensures(Journal::verify::<C>, (altered, manager), verified),
        verified is Ok,
    ensures
        laws::has_collision(manager),
{
    law_set_info(subject, manager, info, set);
    law_verify(altered, manager, verified);
    let u = encode_utf8(final(subject).uid@);
    let v = encode_utf8(altered.uid@);
    let whole = final(subject).content@;
    let d = altered.content@.skip(32);
    let (c, a, s) = choose|c: Vec<u8>, a: &[u8], s: Vec<u8>| #[trigger]
        call_ensures(C::hmac, (manager, a), Ok(s)) && laws::made_of(a@, u, c@)
            && #[trigger] laws::made_of(whole, s@, c@);
    let (b, t) = choose|b: &[u8], t: Vec<u8>| #[trigger]
        call_ensures(C::hmac, (manager, b), Ok(t)) && laws::made_of(b@, v, d) && t@
            == altered.content@.take(32);
    assert(crypto::hmac_returns(manager, a@, Ok(s)));
    assert(s@.len() == 32);
    laws::lemma_made_of(a@, u, c@);
    laws::lemma_made_of(b@, v, d);
    laws::lemma_made_of(whole, s@, c@);
    laws::lemma_made_of(altered.content@, t@, d);
    vstd::utf8::encode_utf8_decode_utf8(final(subject).uid@);
    vstd::utf8::encode_utf8_decode_utf8(altered.uid@);
    if c@ == d {
        assert(u != v);
    }
    laws::lemma_parts_differ(u, c@, v, d);
}

/// The manager of a journal that carries an encrypted key is made of what the key pair decrypts
/// of that key, whatever else the journal holds; that of any other is made of the user's key and
/// the uid. Either is told the version of the journal, and an error on the way is passed on.
pub proof fn law_get_crypto_manager<C: CryptoManager, K: AsymmetricKeyPair>(
    subject: &Journal,
    key: &[u8],
    keypair: &K,
    r: Result<C, Error>,
)
    requires
        call_ensures(Journal::get_crypto_manager::<C, K>, (subject, key, keypair), r),
    ensures
        subject.key matches Some(encrypted) ==> exists|
            cipher: &[u8],
            derived: Result<Vec<u8>, Error>,
        | #[trigger]
            call_ensures(K::decrypt, (keypair, cipher), derived) && cipher@ == encrypted@
                && match derived {
                Ok(d) => exists|used: &[u8]| #[trigger]
                    call_ensures(C::from_derived_key, (used, subject.version), r) && used@ == d@,
                Err(e) => r == (Err::<C, Error>(e)),
            },
        subject.key is None ==> exists|used: &[u8], salt: &str| #[trigger]
            call_ensures(C::new, (used, salt, subject.version), r) && used@ == key@ && salt@
                == subject.uid@,
{
}

/// Journals that agree in uid, version and key have managers made alike, whatever else they
/// hold, and of a shared journal the user's own key makes no difference.
pub proof fn law_crypto_manager_depends_on_uid_version_and_key<
    C: CryptoManager,
    K: AsymmetricKeyPair,
>(a: JournalView, b: JournalView, key: Seq<u8>, other: Seq<u8>, keypair: &K, r: Result<C, Error>)
    requires
        a.uid == b.uid,
        a.version == b.version,
        a.key == b.key,
        key == other || a.key is Some,
    ensures
        journal::get_crypto_manager_outcome(a, key, keypair, r)
            <==> journal::get_crypto_manager_outcome(b, other, keypair, r),
        a.key is Some && r is Ok ==> (journal::get_crypto_manager_outcome(a, key, keypair, r)
            <==> exists|derived: Vec<u8>| #[trigger]
            crypto::pair_decrypt_returns(keypair, a.key->Some_0, Ok(derived))
                && crypto::from_derived_key_returns(derived@, a.version, r)),
{
    if a.key is Some && r is Ok && exists|derived: Vec<u8>| #[trigger]
        crypto::pair_decrypt_returns(keypair, a.key->Some_0, Ok(derived))
            && crypto::from_derived_key_returns(derived@, a.version, r) {
        let derived = choose|derived: Vec<u8>| #[trigger]
            crypto::pair_decrypt_returns(keypair, a.key->Some_0, Ok(derived))
                && crypto::from_derived_key_returns(derived@, a.version, r);
        let d: Result<Vec<u8>, Error> = Ok(derived);
        assert(crypto::pair_decrypt_returns(keypair, a.key->Some_0, d));
    }
}

/// A new journal has the uid, the version and the owner that it is given and nothing else, and
/// may be written to.
pub proof fn law_new(
    uid: &str,
    version: u8,
    owner: &str,
    r: Journal,
    read_only: bool,
    last_uid: &Option<String>,
    has_tag: bool,
)
    requires
        call_ensures(Journal::new, (uid, version, owner), r),
        call_ensures(Journal::is_read_only, (&r,), read_only),
        call_ensures(Journal::get_last_uid, (&r,), last_uid),
        call_ensures(Journal::has_tag, (&r,), has_tag),
    ensures
        r.uid@ == uid@,
        r.version == version,
        r.owner@ == owner@,
        r.content@.len() == 0,
        r.key is None,
        !read_only,
        last_uid is None,
        !has_tag,
{
    assert(r@.key is None);
}

/// A journal that is read from the service holds what the service says of it, under the uid that
/// it is asked for; it may be written to unless the service says otherwise.
pub proof fn law_from_json(
    uid: &str,
    json: &JournalJson,
    r: Journal,
    read_only: bool,
    last_uid: &Option<String>,
)
    requires
        codec::base64_bytes(json.content@) is Some,
        json.key matches Some(k) ==> codec::base64_bytes(k@) is Some,
        call_ensures(Journal::from_json, (uid, json), r),
        call_ensures(Journal::is_read_only, (&r,), read_only),
        call_ensures(Journal::get_last_uid, (&r,), last_uid),
    ensures
        r.uid@ == uid@,
        r.version == json.version,
        r.owner@ == json.owner@,
        codec::base64_bytes(json.content@) == Some(r.content@),
        r.key is Some <==> json.key is Some,
        json.key matches Some(k) ==> codec::base64_bytes(k@) == Some(r.key->Some_0@),
        read_only <==> json.read_only == Some(true),
        last_uid is Some <==> json.last_uid is Some,
        last_uid is Some ==> last_uid->Some_0@ == json.last_uid->Some_0@,
{
    assert(r@.key == crate::bytes::optional(r.key));
    assert(json@.key == crate::text::optional(json.key));
    assert(r@.last_uid == crate::text::optional(json.last_uid));
    assert(crate::text::optional(*last_uid) == r@.last_uid);
}

/// Reading may fail only where the content or the key cannot be decoded, and gives the same as
/// reading what is known to be Base64.
pub proof fn law_try_from_json(uid: &str, json: &JournalJson, r: Journal, tried: Option<Journal>)
    requires
        call_ensures(Journal::from_json, (uid, json), r),
        call_ensures(Journal::try_from_json, (uid, json), tried),
    ensures
        tried is Some <==> {
            &&& codec::base64_bytes(json.content@) is Some
            &&& 4 * encode_utf8(json.content@).len() <= usize::MAX
            &&& json.key matches Some(k) ==> codec::base64_bytes(k@) is Some && 4 * encode_utf8(
                k@,
            ).len() <= usize::MAX
        },
        tried matches Some(t) ==> t.uid@ == r.uid@ && t.version == r.version && t.owner@
            == r.owner@ && t.content@ == r.content@ && crate::bytes::optional(t.key)
            == crate::bytes::optional(r.key) && t.status.read_only() == r.status.read_only()
            && t.status.last_uid() == r.status.last_uid(),
{
    assert(json@.key == crate::text::optional(json.key));
    if let Some(t) = tried {
        assert(t@ == r@);
        assert(t@.uid == t.uid@ && r@.uid == r.uid@);
        assert(t@.key == crate::bytes::optional(t.key));
    }
}

/// A list is read whole and in its order, each journal under the uid that it comes with, and as
/// it is read alone; it is refused where one of its journals is.
pub proof fn law_json_list(
    list: &Vec<JournalJson>,
    r: Vec<Journal>,
    tried: Option<Vec<Journal>>,
    i: int,
    uid: &str,
    alone: Journal,
    tried_alone: Option<Journal>,
)
    requires
        call_ensures(Journal::from_json_list, (list,), r),
        call_ensures(Journal::try_from_json_list, (list,), tried),
        0 <= i < list@.len(),
        uid@ == list@[i].uid@,
        call_ensures(Journal::from_json, (uid, &list@[i]), alone),
        call_ensures(Journal::try_from_json, (uid, &list@[i]), tried_alone),
    ensures
        r@.len() == list@.len(),
        r@[i]@ == alone@,
        r@[i].uid@ == list@[i].uid@,
        tried is Some ==> tried->Some_0@.len() == list@.len() && tried->Some_0@[i]@ == alone@,
        tried is Some ==> tried_alone is Some,
        tried is None ==> exists|j: int|
            0 <= j < list@.len() && !((#[trigger] list@[j])@.has_decodable_size()
                && list@[j]@.is_base64()),
{
    assert(list@[i] == list[i]);
    assert(r[i]@ == list[i]@.journal(list[i]@.uid));
    assert(r@[i]@.uid == r@[i].uid@);
    if tried is Some {
        assert(tried->Some_0[i]@ == list[i]@.journal(list[i]@.uid));
        assert(list[i]@.has_decodable_size() && list[i]@.is_base64());
    } else {
        let j = choose|j: int|
            0 <= j < list.len() && !((#[trigger] list[j])@.has_decodable_size()
                && list[j]@.is_base64());
        assert(!(list@[j]@.has_decodable_size() && list@[j]@.is_base64()));
    }
}

/// A journal is written with all that it holds but the newest entry, and reading that gives it
/// back.
pub proof fn law_to_json(subject: &Journal, read_only: bool, r: JournalJson, back: Journal)
    requires
        call_ensures(Journal::is_read_only, (subject,), read_only),
        call_ensures(Journal::to_json, (subject,), r),
        exists|uid: &str|
            uid@ == subject.uid@ && #[trigger] call_ensures(Journal::from_json, (uid, &r), back),
    ensures
        r.uid@ == subject.uid@,
        r.version == subject.version,
        r.owner@ == subject.owner@,
        r.content@ == codec::base64_text(subject.content@),
        codec::base64_bytes(r.content@) == Some(subject.content@),
        r.key is Some <==> subject.key is Some,
        r.key matches Some(k) ==> codec::base64_bytes(k@) == Some(subject.key->Some_0@),
        r.read_only == Some(read_only),
        r.last_uid is None,
        back.uid@ == subject.uid@,
        back.version == subject.version,
        back.owner@ == subject.owner@,
        back.content@ == subject.content@,
        crate::bytes::optional(back.key) == crate::bytes::optional(subject.key),
        back.status.read_only() == read_only,
{
    assert(r@.key == crate::text::optional(r.key));
    assert(r@.last_uid == crate::text::optional(r.last_uid));
    assert(subject@.key == crate::bytes::optional(subject.key));
    if let Some(k) = subject.key {
        codec::lemma_base64_round_trip(k@);
    }
    let uid = choose|uid: &str|
        uid@ == subject.uid@ && #[trigger] call_ensures(Journal::from_json, (uid, &r), back);
    assert(back@ == r@.journal(subject.uid@));
    assert(back@.uid == back.uid@);
    assert(back@.key == crate::bytes::optional(back.key));
}

/// A copy of a journal holds what the journal does.
pub proof fn law_copy(subject: &Journal, copy: Journal, a: bool, b: bool)
    requires
        call_ensures(<Journal as Clone>::clone, (subject,), copy),
        call_ensures(Journal::is_read_only, (subject,), a),
        call_ensures(Journal::is_read_only, (&copy,), b),
    ensures
        copy.uid@ == subject.uid@,
        copy.version == subject.version,
        copy.owner@ == subject.owner@,
        copy.content@ == subject.content@,
        crate::bytes::optional(copy.key) == crate::bytes::optional(subject.key),
        a == b,
        copy.status.last_uid() == subject.status.last_uid(),
{
    assert(copy@.uid == copy.uid@ && subject@.uid == subject.uid@);
    assert(copy@.key == crate::bytes::optional(copy.key));
}

/// Sealing leaves as the content the tag and the ciphertext behind it, and nothing else changed.
pub proof fn law_seal(subject: &mut Journal, tag: &[u8], ciphertext: &[u8])
    requires
        call_ensures(Journal::seal, (subject, tag, ciphertext), ()),
    ensures
        laws::made_of(final(subject).content@, tag@, ciphertext@),
        final(subject).uid@ == old(subject).uid@,
        final(subject).version == old(subject).version,
        final(subject).owner@ == old(subject).owner@,
        crate::bytes::optional(final(subject).key) == crate::bytes::optional(old(subject).key),
        final(subject).status.read_only() == old(subject).status.read_only(),
        final(subject).status.last_uid() == old(subject).status.last_uid(),
{
    laws::lemma_made_of(final(subject)@.content, tag@, ciphertext@);
    assert(final(subject)@.uid == old(subject)@.uid);
    assert(final(subject)@.key == old(subject)@.key);
}

/// A journal carries a tag exactly where its content has thirty-two bytes or more, and holding
/// that tag against another one succeeds exactly where they are the same bytes.
pub proof fn law_tag(
    subject: &Journal,
    has_tag: bool,
    calculated: &[u8],
    r: Result<(), Error>,
    uid: &str,
)
    requires
        call_ensures(Journal::has_tag, (subject,), has_tag),
        call_ensures(Journal::verify_tag, (subject, calculated), r),
        call_ensures(Journal::uid, (subject,), uid),
    ensures
        has_tag <==> subject.content@.len() >= 32,
        has_tag ==> (r is Ok <==> laws::made_of(
            subject.content@,
            calculated@,
            subject.content@.skip(32),
        )),
        r is Err ==> r == (Err::<(), Error>(Error::HmacMismatch)),
        uid@ == subject.uid@,
{
    laws::lemma_made_of(subject.content@, calculated@, subject.content@.skip(32));
    if has_tag {
        assert(subject.content@ =~= subject.content@.take(32) + subject.content@.skip(32));
        if laws::made_of(subject.content@, calculated@, subject.content@.skip(32)) {
            assert(calculated@.len() == 32);
        }
    }
}

} // verus!
