//! Laws of entries: each is tied to the one before it, and is read only where it is unaltered.

use vstd::prelude::*;
use vstd::utf8::encode_utf8;
use crate::codec;
use crate::crypto;
use crate::crypto::CryptoManager;
use crate::entry;
use crate::entry::{Entry, EntryJson};
use crate::error::Error;
use crate::laws;

verus! {

/// The tag of an entry is calculated over the bytes of the uid before it, all of them, and the
/// whole message behind them.
pub proof fn law_tag_covers_predecessor_and_message<C: CryptoManager>(
    manager: &C,
    message: &[u8],
    prev_uid: Option<&str>,
    r: Result<Vec<u8>, Error>,
)
    requires
        call_ensures(Entry::calculate_hmac::<C>, (manager, message, prev_uid), r),
    ensures
        exists|data: &[u8]| #[trigger]
            call_ensures(C::hmac, (manager, data), r) && laws::made_of(
                data@,
                laws::bytes_of(prev_uid),
                message@,
            ),
{
    let data = choose|data: &[u8]| #[trigger]
        call_ensures(C::hmac, (manager, data), r) && data@ == entry::hmac_input(
            crate::text::optional_ref(prev_uid),
            message@,
        );
    laws::lemma_made_of(data@, laws::bytes_of(prev_uid), message@);
    assert(laws::made_of(data@, laws::bytes_of(prev_uid), message@));
}

/// The bytes that a tag is calculated over differ for two predecessors of the same message that
/// differ, and for two messages after the same predecessor that differ.
pub proof fn law_tagged_bytes_are_told_apart(
    u: Option<Seq<char>>,
    v: Option<Seq<char>>,
    c: Seq<u8>,
    d: Seq<u8>,
)
    ensures
        u is Some && v is Some && u != v ==> entry::hmac_input(u, c) != entry::hmac_input(v, c),
        u is Some && u->Some_0.len() > 0 ==> entry::hmac_input(u, c) != entry::hmac_input(None, c),
        c != d ==> entry::hmac_input(u, c) != entry::hmac_input(u, d),
        entry::hmac_input(None, c) == c,
        u is Some ==> laws::made_of(entry::hmac_input(u, c), encode_utf8(u->Some_0), c),
{
    if let Some(a) = u {
        vstd::utf8::encode_utf8_decode_utf8(a);
        laws::lemma_made_of(entry::hmac_input(u, c), encode_utf8(a), c);
        if c != d {
            laws::lemma_parts_differ(encode_utf8(a), c, encode_utf8(a), d);
        }
        if let Some(b) = v {
            vstd::utf8::encode_utf8_decode_utf8(b);
            if a != b {
                laws::lemma_parts_differ(encode_utf8(a), c, encode_utf8(b), c);
            }
        }
        if encode_utf8(a).len() == 0 {
            assert(encode_utf8(a) =~= encode_utf8(Seq::<char>::empty()));
            vstd::utf8::encode_utf8_decode_utf8(Seq::<char>::empty());
        }
    }
}

/// An entry is verified exactly where its uid spells the tag of the predecessor and the whole
/// content. A uid that spells nothing is told from one that spells another tag, and where the
/// tag cannot be calculated that error is passed on.
pub proof fn law_verify<C: CryptoManager>(
    subject: &Entry,
    manager: &C,
    prev_uid: Option<&str>,
    r: Result<(), Error>,
)
    requires
        call_ensures(Entry::verify::<C>, (subject, manager, prev_uid), r),
    ensures
        exists|data: &[u8], tag: Result<Vec<u8>, Error>| #[trigger]
            call_ensures(C::hmac, (manager, data), tag) && laws::made_of(
                data@,
                laws::bytes_of(prev_uid),
                subject.content@,
            ) && match tag {
                Ok(t) => {
                    &&& r is Ok <==> laws::spells(subject.uid@, t@)
                    &&& r is Err ==> r == (if codec::is_hex(subject.uid@) {
                        Err::<(), Error>(Error::HmacMismatch)
                    } else {
                        Err::<(), Error>(Error::UndecodableUid)
                    })
                },
                Err(e) => r == (Err::<(), Error>(e)),
            },
{
    let prev = crate::text::optional_ref(prev_uid);
    let tag = choose|tag: Result<Vec<u8>, Error>| #[trigger]
        crypto::hmac_returns(manager, entry::hmac_input(prev, subject@.content), tag) && r
            == entry::checked(subject@, tag);
    let data = choose|data: &[u8]| #[trigger]
        call_ensures(C::hmac, (manager, data), tag) && data@ == entry::hmac_input(
            prev,
            subject@.content,
        );
    laws::lemma_made_of(data@, laws::bytes_of(prev_uid), subject.content@);
    assert(laws::made_of(data@, laws::bytes_of(prev_uid), subject.content@));
    if let Ok(t) = tag {
        laws::lemma_spells(subject.uid@, t@);
    }
}

/// A change is given out only where the entry is verified, and is then what the manager makes of
/// the whole content; otherwise the reason why it is not verified is given.
pub proof fn law_get_sync_entry<C: CryptoManager>(
    subject: &Entry,
    manager: &C,
    prev_uid: Option<&str>,
    r: Result<Vec<u8>, Error>,
)
    requires
        call_ensures(Entry::get_sync_entry::<C>, (subject, manager, prev_uid), r),
    ensures
        exists|data: &[u8], tag: Result<Vec<u8>, Error>| #[trigger]
            call_ensures(C::hmac, (manager, data), tag) && laws::made_of(
                data@,
                laws::bytes_of(prev_uid),
                subject.content@,
            ) && match tag {
                Ok(t) => if laws::spells(subject.uid@, t@) {
                    exists|cipher: &[u8]| #[trigger]
                        call_ensures(C::decrypt, (manager, cipher), r) && cipher@
                            == subject.content@
                } else {
                    r == (if codec::is_hex(subject.uid@) {
                        Err::<Vec<u8>, Error>(Error::HmacMismatch)
                    } else {
                        Err::<Vec<u8>, Error>(Error::UndecodableUid)
                    })
                },
                Err(e) => r == (Err::<Vec<u8>, Error>(e)),
            },
{
    let prev = crate::text::optional_ref(prev_uid);
    let verified = choose|verified: Result<(), Error>| #[trigger]
        entry::verify_outcome(subject@, manager, prev, verified) && match verified {
            Ok(()) => crypto::decrypt_returns(manager, subject@.content, r),
            Err(e) => r == (Err::<Vec<u8>, Error>(e)),
        };
    let tag = choose|tag: Result<Vec<u8>, Error>| #[trigger]
        crypto::hmac_returns(manager, entry::hmac_input(prev, subject@.content), tag) && verified
            == entry::checked(subject@, tag);
    let data = choose|data: &[u8]| #[trigger]
        call_ensures(C::hmac, (manager, data), tag) && data@ == entry::hmac_input(
            prev,
            subject@.content,
        );
    laws::lemma_made_of(data@, laws::bytes_of(prev_uid), subject.content@);
    assert(laws::made_of(data@, laws::bytes_of(prev_uid), subject.content@));
    if let Ok(t) = tag {
        laws::lemma_spells(subject.uid@, t@);
    }
}

/// The content of a new entry is what the manager made of the whole change, and its uid spells,
/// in lower case, the tag of the predecessor and that content. It fails only where the manager
/// does, for the same reason.
pub proof fn law_from_sync_entry<C: CryptoManager>(
    manager: &C,
    change: &[u8],
    prev_uid: Option<&str>,
    r: Result<Entry, Error>,
)
    requires
        call_ensures(Entry::from_sync_entry::<C>, (manager, change, prev_uid), r),
    ensures
        exists|clear: &[u8], cipher: Result<Vec<u8>, Error>| #[trigger]
            call_ensures(C::encrypt, (manager, clear), cipher) && clear@ == change@ && match cipher {
                Ok(c) => exists|data: &[u8], tag: Result<Vec<u8>, Error>| #[trigger]
                    call_ensures(C::hmac, (manager, data), tag) && laws::made_of(
                        data@,
                        laws::bytes_of(prev_uid),
                        c@,
                    ) && match tag {
                        Ok(t) => {
                            &&& r is Ok
                            &&& r->Ok_0.content@ == c@
                            &&& laws::spells(r->Ok_0.uid@, t@)
                            &&& forall|i: int|
                                0 <= i < r->Ok_0.uid@.len() ==> !('A' <= #[trigger] r->Ok_0.uid@[i]
                                    <= 'Z')
                        },
                        Err(e) => r == (Err::<Entry, Error>(e)),
                    },
                Err(e) => r == (Err::<Entry, Error>(e)),
            },
{
    let prev = crate::text::optional_ref(prev_uid);
    let cipher = choose|cipher: Result<Vec<u8>, Error>| #[trigger]
        crypto::encrypt_returns(manager, change@, cipher) && match cipher {
            Ok(c) => entry::seal_outcome(manager, c@, prev, r),
            Err(e) => r == (Err::<Entry, Error>(e)),
        };
    let clear = choose|clear: &[u8]| #[trigger]
        call_ensures(C::encrypt, (manager, clear), cipher) && clear@ == change@;
    if let Ok(c) = cipher {
        let tag = choose|tag: Result<Vec<u8>, Error>| #[trigger]
            crypto::hmac_returns(manager, entry::hmac_input(prev, c@), tag) && match tag {
                Ok(t) => r is Ok && r->Ok_0@.uid == codec::hex_text(t@) && r->Ok_0@.content == c@,
                Err(e) => r == (Err::<Entry, Error>(e)),
            };
        let data = choose|data: &[u8]| #[trigger]
            call_ensures(C::hmac, (manager, data), tag) && data@ == entry::hmac_input(prev, c@);
        laws::lemma_made_of(data@, laws::bytes_of(prev_uid), c@);
        assert(laws::made_of(data@, laws::bytes_of(prev_uid), c@));
        if let Ok(t) = tag {
            codec::lemma_hex_round_trip(t@);
            laws::lemma_spells(r->Ok_0.uid@, t@);
            assert forall|i: int| 0 <= i < r->Ok_0.uid@.len() implies !('A'
                <= #[trigger] r->Ok_0.uid@[i] <= 'Z') by {
                let b = t@[i / 2];
                assert(0 <= b as int / 16 < 16 && 0 <= b as int % 16 < 16);
            }
        }
    }
}

/// An entry that was made to follow one predecessor is accepted after another one, or with
/// another content, only where the manager gives one tag to two byte strings that differ. The
/// predecessors, or the contents, may differ in length where nothing else differs.
pub proof fn law_chain_is_tied<C: CryptoManager>(
    manager: &C,
    change: &[u8],
    u: Option<&str>,
    v: Option<&str>,
    made: Result<Entry, Error>,
    subject: &Entry,
    verified: Result<(), Error>,
)
    requires
        call_ensures(Entry::from_sync_entry::<C>, (manager, change, u), made),
        made is Ok,
        subject.uid@ == made->Ok_0.uid@,
        call_ensures(Entry::verify::<C>, (subject, manager, v), verified),
        verified is Ok,
        laws::bytes_of(u) != laws::bytes_of(v) || subject.content@ != made->Ok_0.content@,
        laws::bytes_of(u).len() == laws::bytes_of(v).len() || laws::bytes_of(u) == laws::bytes_of(v)
            || subject.content@ == made->Ok_0.content@,
    ensures
        laws::has_collision(manager),
{
    law_from_sync_entry(manager, change, u, made);
    law_verify(subject, manager, v, verified);
    let c = made->Ok_0.content@;
    let (a, s) = choose|a: &[u8], s: Vec<u8>| #[trigger]
        call_ensures(C::hmac, (manager, a), Ok(s)) && laws::made_of(a@, laws::bytes_of(u), c)
            && laws::spells(subject.uid@, s@);
    let (b, t) = choose|b: &[u8], t: Vec<u8>| #[trigger]
        call_ensures(C::hmac, (manager, b), Ok(t)) && laws::made_of(
            b@,
            laws::bytes_of(v),
            subject.content@,
        ) && laws::spells(subject.uid@, t@);
    laws::lemma_spells(subject.uid@, s@);
    laws::lemma_spells(subject.uid@, t@);
    laws::lemma_made_of(a@, laws::bytes_of(u), c);
    laws::lemma_made_of(b@, laws::bytes_of(v), subject.content@);
    laws::lemma_parts_differ(laws::bytes_of(u), c, laws::bytes_of(v), subject.content@);
}

/// Predecessors whose texts differ have bytes that differ, and no predecessor has the bytes of
/// one with a uid.
pub proof fn law_predecessors_are_told_apart(u: &str, v: &str)
    ensures
        u@ != v@ ==> laws::bytes_of(Some(u)) != laws::bytes_of(Some(v)),
        u@.len() > 0 ==> laws::bytes_of(Some(u)) != laws::bytes_of(None),
{
    vstd::utf8::encode_utf8_decode_utf8(u@);
    vstd::utf8::encode_utf8_decode_utf8(v@);
    vstd::utf8::encode_utf8_decode_utf8(Seq::<char>::empty());
    assert(encode_utf8(Seq::<char>::empty()) =~= Seq::<u8>::empty());
}

/// An entry is read from and written to the service with the same uid and content.
pub proof fn law_json(
    uid: &str,
    json: &EntryJson,
    read: Entry,
    subject: &Entry,
    written: EntryJson,
)
    requires
        codec::base64_bytes(json.content@) is Some,
        call_ensures(Entry::from_json, (uid, json), read),
        call_ensures(Entry::to_json, (subject,), written),
    ensures
        read.uid@ == uid@,
        codec::base64_bytes(json.content@) == Some(read.content@),
        written.uid@ == subject.uid@,
        written.content@ == codec::base64_text(subject.content@),
        codec::base64_bytes(written.content@) == Some(subject.content@),
{
}

/// Reading may fail only where the content cannot be decoded, and gives the same as reading what
/// is known to be Base64.
pub proof fn law_try_json(uid: &str, json: &EntryJson, tried: Option<Entry>)
    requires
        call_ensures(Entry::try_from_json, (uid, json), tried),
    ensures
        tried is Some <==> codec::base64_bytes(json.content@) is Some && 4 * encode_utf8(
            json.content@,
        ).len() <= usize::MAX,
        tried is Some ==> tried->Some_0.uid@ == uid@ && codec::base64_bytes(json.content@) == Some(
            tried->Some_0.content@,
        ),
{
}

/// A list is read whole and in its order, each entry under the uid that it comes with; it is
/// refused where one of its entries is.
pub proof fn law_json_list(list: &Vec<EntryJson>, r: Vec<Entry>, tried: Option<Vec<Entry>>)
    requires
        call_ensures(Entry::from_json_list, (list,), r),
        call_ensures(Entry::try_from_json_list, (list,), tried),
    ensures
        r@.len() == list@.len(),
        forall|i: int|
            0 <= i < list@.len() && codec::base64_bytes(list@[i].content@) is Some ==> (
            #[trigger] r@[i]).uid@ == list@[i].uid@ && codec::base64_bytes(list@[i].content@)
                == Some(r@[i].content@),
        tried is Some <==> forall|i: int|
            0 <= i < list@.len() ==> codec::base64_bytes((#[trigger] list@[i]).content@) is Some && 4
                * encode_utf8(list@[i].content@).len() <= usize::MAX,
        tried is Some ==> tried->Some_0@.len() == list@.len() && forall|i: int|
            0 <= i < list@.len() ==> (#[trigger] tried->Some_0@[i]).uid@ == list@[i].uid@
                && codec::base64_bytes(list@[i].content@) == Some(tried->Some_0@[i].content@),
{
    assert forall|i: int| 0 <= i < list@.len() implies (#[trigger] list@[i]) == list[i] by {}
    if tried is Some {
        assert forall|i: int| 0 <= i < list@.len() implies codec::base64_bytes(
            (#[trigger] list@[i]).content@,
        ) is Some && 4 * encode_utf8(list@[i].content@).len() <= usize::MAX by {
            assert(list[i]@.has_decodable_size());
        }
        assert forall|i: int| 0 <= i < list@.len() implies (#[trigger] tried->Some_0@[i]).uid@
            == list@[i].uid@ && codec::base64_bytes(list@[i].content@) == Some(
            tried->Some_0@[i].content@,
        ) by {
            assert(tried->Some_0[i]@ == list[i]@.entry(list[i]@.uid));
        }
    }
    assert forall|i: int|
        0 <= i < list@.len() && codec::base64_bytes(list@[i].content@) is Some implies (
    #[trigger] r@[i]).uid@ == list@[i].uid@ && codec::base64_bytes(list@[i].content@) == Some(
        r@[i].content@,
    ) by {
        assert(r[i]@ == list[i]@.entry(list[i]@.uid));
    }
}

/// A list is written whole and in its order.
pub proof fn law_written_list(entries: &[&Entry], r: Vec<EntryJson>)
    requires
        call_ensures(Entry::to_json_list, (entries,), r),
    ensures
        r@.len() == entries@.len(),
        forall|i: int|
            0 <= i < entries@.len() ==> (#[trigger] r@[i]).uid@ == entries@[i].uid@
                && codec::base64_bytes(r@[i].content@) == Some(entries@[i].content@),
{
    assert forall|i: int| 0 <= i < entries@.len() implies (#[trigger] r@[i]).uid@
        == entries@[i].uid@ && codec::base64_bytes(r@[i].content@) == Some(
        entries@[i].content@,
    ) by {
        assert(entry::stands_for(r[i]@, entries@[i]@));
    }
}

/// A copy of an entry, and an entry put together of its parts, hold those parts.
pub proof fn law_parts(
    subject: &Entry,
    copy: Entry,
    uid: &str,
    content: Vec<u8>,
    put_together: Entry,
    tag: &[u8],
    sealed: Entry,
)
    requires
        call_ensures(<Entry as Clone>::clone, (subject,), copy),
        call_ensures(Entry::from_parts, (uid, content), put_together),
        call_ensures(Entry::seal, (tag, content), sealed),
    ensures
        copy.uid@ == subject.uid@,
        copy.content@ == subject.content@,
        put_together.uid@ == uid@,
        put_together.content@ == content@,
        laws::spells(sealed.uid@, tag@),
        sealed.content@ == content@,
{
    codec::lemma_hex_round_trip(tag@);
    laws::lemma_spells(sealed.uid@, tag@);
}

/// Holding the uid of an entry against a calculated tag succeeds exactly where it spells that
/// tag.
pub proof fn law_verify_tag(subject: &Entry, calculated: &[u8], r: Result<(), Error>)
    requires
        call_ensures(Entry::verify_tag, (subject, calculated), r),
    ensures
        r is Ok <==> laws::spells(subject.uid@, calculated@),
        codec::is_hex(subject.uid@) && r is Err ==> r == (Err::<(), Error>(Error::HmacMismatch)),
        !codec::is_hex(subject.uid@) ==> r == (Err::<(), Error>(Error::UndecodableUid)),
{
    laws::lemma_spells(subject.uid@, calculated@);
}

} // verus!
