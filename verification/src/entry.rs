//! Entries: the encrypted changes of a journal, each tied to the one before it.

use vstd::prelude::*;
use crate::bytes;
use crate::codec;
use crate::crypto;
use crate::crypto::CryptoManager;
use crate::error::Error;
use crate::text;

verus! {

/// An entry as the service gives and takes it.
#[derive(Debug, PartialEq, Eq)]
pub struct EntryJson {
    /// The identifier of the entry.
    pub uid: String,
    /// The ciphertext, in Base64.
    pub content: String,
}

/// What an [`EntryJson`] holds.
pub struct EntryJsonView {
    pub uid: Seq<char>,
    pub content: Seq<char>,
}

impl View for EntryJson {
    type V = EntryJsonView;

    open spec fn view(&self) -> EntryJsonView {
        EntryJsonView { uid: self.uid@, content: self.content@ }
    }
}

impl EntryJsonView {
    /// Whether the content is Base64.
    pub open spec fn is_base64(self) -> bool {
        codec::base64_bytes(self.content) is Some
    }

    /// Whether the content is short enough to be decoded.
    pub open spec fn has_decodable_size(self) -> bool {
        codec::decodable_size(self.content)
    }

    /// The entry that this stands for, under the given uid.
    pub open spec fn entry(self, uid: Seq<char>) -> EntryView {
        EntryView { uid, content: codec::base64_bytes(self.content)->Some_0 }
    }
}

/// An entry: an encrypted change.
pub struct Entry {
    /// The identifier of the entry: the tag of its ciphertext and of the uid of the entry
    /// before it, in hexadecimal.
    pub uid: String,
    /// The ciphertext.
    pub content: Vec<u8>,
}

/// What an [`Entry`] holds.
pub struct EntryView {
    pub uid: Seq<char>,
    pub content: Seq<u8>,
}

impl View for Entry {
    type V = EntryView;

    open spec fn view(&self) -> EntryView {
        EntryView { uid: self.uid@, content: self.content@ }
    }
}

impl Clone for Entry {
    /// A copy that holds the same.
    fn clone(&self) -> (r: Entry)
        ensures
            r@ == self@,
    {
        Entry { uid: self.uid.clone(), content: bytes::copy(self.content.as_slice()) }
    }
}

impl EntryView {
    /// The entry as the service takes it.
    pub open spec fn json(self) -> EntryJsonView {
        EntryJsonView { uid: self.uid, content: codec::base64_text(self.content) }
    }
}

/// Whether reading `json` under its own uid gives `entry` back.
pub open spec fn stands_for(json: EntryJsonView, entry: EntryView) -> bool {
    json.is_base64() && json.entry(json.uid) == entry
}

/// What the tag of an entry is calculated over: the uid of the entry before it, where there
/// is one, and the ciphertext.
pub open spec fn hmac_input(prev_uid: Option<Seq<char>>, ciphertext: Seq<u8>) -> Seq<u8> {
    match prev_uid {
        Some(uid) => vstd::utf8::encode_utf8(uid) + ciphertext,
        None => ciphertext,
    }
}

/// Whether sealing a ciphertext into an entry may return `r`.
pub open spec fn seal_outcome<C: CryptoManager>(
    manager: &C,
    ciphertext: Seq<u8>,
    prev_uid: Option<Seq<char>>,
    r: Result<Entry, Error>,
) -> bool {
    exists|tag: Result<Vec<u8>, Error>| #[trigger]
        crypto::hmac_returns(manager, hmac_input(prev_uid, ciphertext), tag) && match tag {
            Ok(t) => r is Ok && r->Ok_0@ == (EntryView {
                uid: codec::hex_text(t@),
                content: ciphertext,
            }),
            Err(e) => r == (Err::<Entry, Error>(e)),
        }
}

/// Whether making the entry of a change may return `r`.
pub open spec fn from_sync_entry_outcome<C: CryptoManager>(
    manager: &C,
    sync_entry: Seq<u8>,
    prev_uid: Option<Seq<char>>,
    r: Result<Entry, Error>,
) -> bool {
    exists|ciphertext: Result<Vec<u8>, Error>| #[trigger]
        crypto::encrypt_returns(manager, sync_entry, ciphertext) && match ciphertext {
            Ok(c) => seal_outcome(manager, c@, prev_uid, r),
            Err(e) => r == (Err::<Entry, Error>(e)),
        }
}

/// What comes of holding the uid of an entry against a calculated tag.
pub open spec fn tag_verdict(entry: EntryView, calculated: Seq<u8>) -> Result<(), Error> {
    if !codec::is_hex(entry.uid) {
        Err(Error::UndecodableUid)
    } else if codec::hex_bytes(entry.uid) == calculated {
        Ok(())
    } else {
        Err(Error::HmacMismatch)
    }
}

/// What comes of checking an entry once its tag is calculated.
pub open spec fn checked(entry: EntryView, tag: Result<Vec<u8>, Error>) -> Result<(), Error> {
    match tag {
        Ok(t) => tag_verdict(entry, t@),
        Err(e) => Err(e),
    }
}

/// Whether verifying an entry may return `r`.
pub open spec fn verify_outcome<C: CryptoManager>(
    entry: EntryView,
    manager: &C,
    prev_uid: Option<Seq<char>>,
    r: Result<(), Error>,
) -> bool {
    exists|tag: Result<Vec<u8>, Error>| #[trigger]
        crypto::hmac_returns(manager, hmac_input(prev_uid, entry.content), tag) && r == checked(
            entry,
            tag,
        )
}

/// Whether getting the change of an entry may return `r`: the ciphertext is decrypted only
/// where the entry is verified.
pub open spec fn get_sync_entry_outcome<C: CryptoManager>(
    entry: EntryView,
    manager: &C,
    prev_uid: Option<Seq<char>>,
    r: Result<Vec<u8>, Error>,
) -> bool {
    exists|verified: Result<(), Error>| #[trigger]
        verify_outcome(entry, manager, prev_uid, verified) && match verified {
            Ok(()) => crypto::decrypt_returns(manager, entry.content, r),
            Err(e) => r == (Err::<Vec<u8>, Error>(e)),
        }
}

impl Entry {
    /// The entry with this ciphertext and tag.
    pub fn seal(tag: &[u8], ciphertext: Vec<u8>) -> (r: Entry)
        ensures
            r@ == (EntryView { uid: codec::hex_text(tag@), content: ciphertext@ }),
    {
        Entry { uid: codec::hex_encode(tag), content: ciphertext }
    }

    /// Encrypts a change into an entry that follows the one with the uid `prev_uid`, or
    /// that is the first. `sync_entry` is the JSON of the change.
    pub fn from_sync_entry<C: CryptoManager>(
        crypto_manager: &C,
        sync_entry: &[u8],
        prev_uid: Option<&str>,
    ) -> (r: Result<Entry, Error>)
        ensures
            from_sync_entry_outcome(
                crypto_manager,
                sync_entry@,
                text::optional_ref(prev_uid),
                r,
            ),
    {
        let encrypted = crypto_manager.encrypt(sync_entry);
        assert(crypto::encrypt_returns(crypto_manager, sync_entry@, encrypted));
        let ciphertext = encrypted?;
        let tag = Entry::calculate_hmac(crypto_manager, ciphertext.as_slice(), prev_uid);
        assert(crypto::hmac_returns(
            crypto_manager,
            hmac_input(text::optional_ref(prev_uid), ciphertext@),
            tag,
        ));
        let hmac = tag?;
        Ok(Entry::seal(hmac.as_slice(), ciphertext))
    }

    /// The entry with this uid and ciphertext.
    pub fn from_parts(uid: &str, content: Vec<u8>) -> (r: Entry)
        ensures
            r@ == (EntryView { uid: uid@, content: content@ }),
    {
        Entry { uid: uid.to_owned(), content }
    }

    /// The entry that `json` stands for, under the given uid.
    pub fn from_json(uid: &str, json: &EntryJson) -> (r: Entry)
        requires
            json@.has_decodable_size(),
            json@.is_base64(),
        ensures
            r@ == json@.entry(uid@),
    {
        Entry::from_parts(uid, codec::known_base64_decode(json.content.as_str()))
    }

    /// The entry that `json` stands for, under the given uid, or `None` where its content
    /// cannot be decoded.
    pub fn try_from_json(uid: &str, json: &EntryJson) -> (r: Option<Entry>)
        ensures
            r is Some <==> json@.has_decodable_size() && json@.is_base64(),
            r matches Some(entry) ==> entry@ == json@.entry(uid@),
    {
        if codec::is_base64(json.content.as_str()) {
            Some(Entry::from_json(uid, json))
        } else {
            None
        }
    }

    /// The entries of a list, each under its own uid, in the order of the list.
    pub fn from_json_list(list: &Vec<EntryJson>) -> (r: Vec<Entry>)
        requires
            forall|i: int|
                0 <= i < list.len() ==> (#[trigger] list[i])@.has_decodable_size()
                    && list[i]@.is_base64(),
        ensures
            r.len() == list.len(),
            forall|i: int|
                0 <= i < list.len() ==> (#[trigger] r[i])@ == list[i]@.entry(list[i]@.uid),
    {
        let mut entries: Vec<Entry> = Vec::new();
        let mut i: usize = 0;
        while i < list.len()
            invariant
                i <= list.len(),
                entries.len() == i,
                forall|j: int|
                    0 <= j < list.len() ==> (#[trigger] list[j])@.has_decodable_size()
                        && list[j]@.is_base64(),
                forall|j: int|
                    0 <= j < i ==> (#[trigger] entries[j])@ == list[j]@.entry(list[j]@.uid),
            decreases list.len() - i,
        {
            let json = &list[i];
            entries.push(Entry::from_json(json.uid.as_str(), json));
            i = i + 1;
        }
        entries
    }

    /// The entries of a list, each under its own uid, in the order of the list, or `None`
    /// where one of them cannot be decoded.
    pub fn try_from_json_list(list: &Vec<EntryJson>) -> (r: Option<Vec<Entry>>)
        ensures
            r is Some <==> (forall|i: int|
                0 <= i < list.len() ==> (#[trigger] list[i])@.has_decodable_size()
                    && list[i]@.is_base64()),
            r matches Some(entries) ==> {
                &&& entries.len() == list.len()
                &&& forall|i: int|
                    0 <= i < list.len() ==> (#[trigger] entries[i])@ == list[i]@.entry(
                        list[i]@.uid,
                    )
            },
    {
        let mut i: usize = 0;
        while i < list.len()
            invariant
                i <= list.len(),
                forall|j: int|
                    0 <= j < i ==> (#[trigger] list[j])@.has_decodable_size()
                        && list[j]@.is_base64(),
            decreases list.len() - i,
        {
            if !codec::is_base64(list[i].content.as_str()) {
                assert(!(list[i as int]@.has_decodable_size() && list[i as int]@.is_base64()));
                return None;
            }
            i = i + 1;
        }
        Some(Entry::from_json_list(list))
    }

    /// The entry as the service takes it, given its content once encoded.
    pub fn to_json_with(&self, content: String) -> (r: EntryJson)
        ensures
            r@ == (EntryJsonView { uid: self@.uid, content: content@ }),
    {
        EntryJson { uid: self.uid.clone(), content }
    }

    /// The entry as the service takes it. Reading that back gives the entry.
    pub fn to_json(&self) -> (r: EntryJson)
        ensures
            r@ == self@.json(),
            stands_for(r@, self@),
    {
        proof {
            codec::lemma_base64_round_trip(self.content@);
        }
        self.to_json_with(codec::base64_encode(self.content.as_slice()))
    }

    /// The entries of a list as the service takes them, in the order of the list.
    pub fn to_json_list(entries: &[&Entry]) -> (r: Vec<EntryJson>)
        ensures
            r@.len() == entries@.len(),
            forall|i: int|
                0 <= i < entries@.len() ==> (#[trigger] r[i])@ == entries@[i]@.json()
                    && stands_for(r[i]@, entries@[i]@),
    {
        let mut list: Vec<EntryJson> = Vec::new();
        let mut i: usize = 0;
        while i < entries.len()
            invariant
                i <= entries@.len(),
                list.len() == i,
                forall|j: int|
                    0 <= j < i ==> (#[trigger] list[j])@ == entries@[j]@.json() && stands_for(
                        list[j]@,
                        entries@[j]@,
                    ),
            decreases entries@.len() - i,
        {
            list.push(entries[i].to_json());
            i = i + 1;
        }
        list
    }

    /// Decrypts the change, once the entry is verified to follow the one with the uid
    /// `prev_uid`, or to be the first. The result is the JSON of the change.
    pub fn get_sync_entry<C: CryptoManager>(
        &self,
        crypto_manager: &C,
        prev_uid: Option<&str>,
    ) -> (r: Result<Vec<u8>, Error>)
        ensures
            get_sync_entry_outcome(self@, crypto_manager, text::optional_ref(prev_uid), r),
    {
        let verified = self.verify(crypto_manager, prev_uid);
        assert(verify_outcome(self@, crypto_manager, text::optional_ref(prev_uid), verified));
        verified?;
        crypto_manager.decrypt(self.content.as_slice())
    }

    /// The tag of a message that follows the entry with the uid `prev_uid`, or that is the
    /// first.
    pub fn calculate_hmac<C: CryptoManager>(
        crypto_manager: &C,
        message: &[u8],
        prev_uid: Option<&str>,
    ) -> (r: Result<Vec<u8>, Error>)
        ensures
            crypto::hmac_returns(
                crypto_manager,
                hmac_input(text::optional_ref(prev_uid), message@),
                r,
            ),
    {
        let data = match prev_uid {
            Some(prev_uid) => bytes::joined(prev_uid.as_bytes(), message),
            None => bytes::copy(message),
        };
        crypto_manager.hmac(data.as_slice())
    }

    /// Holds the uid of the entry against a calculated tag.
    pub fn verify_tag(&self, calculated: &[u8]) -> (r: Result<(), Error>)
        ensures
            r == tag_verdict(self@, calculated@),
    {
        let hmac = match codec::hex_decode(self.uid.as_str()) {
            Ok(hmac) => hmac,
            Err(_) => return Err(Error::UndecodableUid),
        };
        crypto::check_tag(hmac.as_slice(), calculated)
    }

    /// Whether the uid of the entry is the tag of its ciphertext and of `prev_uid`.
    pub fn verify<C: CryptoManager>(
        &self,
        crypto_manager: &C,
        prev_uid: Option<&str>,
    ) -> (r: Result<(), Error>)
        ensures
            verify_outcome(self@, crypto_manager, text::optional_ref(prev_uid), r),
    {
        let tag = Entry::calculate_hmac(crypto_manager, self.content.as_slice(), prev_uid);
        assert(crypto::hmac_returns(
            crypto_manager,
            hmac_input(text::optional_ref(prev_uid), self@.content),
            tag,
        ));
        let calculated = tag?;
        self.verify_tag(calculated.as_slice())
    }
}

/// An entry that was made of a change is verified to follow the same predecessor, with a
/// manager whose tags are stable.
pub proof fn law_from_sync_entry_verifies<C: CryptoManager>(
    manager: &C,
    sync_entry: Seq<u8>,
    prev_uid: Option<Seq<char>>,
    made: Result<Entry, Error>,
    verified: Result<(), Error>,
)
    requires
        crypto::has_stable_tags(manager),
        from_sync_entry_outcome(manager, sync_entry, prev_uid, made),
        made is Ok,
        verify_outcome(made->Ok_0@, manager, prev_uid, verified),
    ensures
        verified is Ok,
{
    let entry = made->Ok_0@;
    let t = choose|t: Vec<u8>| #[trigger]
        crypto::hmac_returns(manager, hmac_input(prev_uid, entry.content), Ok(t)) && entry.uid
            == codec::hex_text(t@);
    codec::lemma_hex_round_trip(t@);
}

/// The letter case of the uid of an entry is ignored: of two entries of the same content whose
/// uids differ in case alone, one is verified to follow a predecessor exactly where the other
/// is, with a manager whose tags are stable.
pub proof fn law_uid_case_is_ignored<C: CryptoManager>(
    a: EntryView,
    b: EntryView,
    manager: &C,
    prev_uid: Option<Seq<char>>,
    verified_a: Result<(), Error>,
    verified_b: Result<(), Error>,
)
    requires
        crypto::has_stable_tags(manager),
        a.content == b.content,
        codec::same_but_for_case(a.uid, b.uid),
        verify_outcome(a, manager, prev_uid, verified_a),
        verify_outcome(b, manager, prev_uid, verified_b),
    ensures
        verified_a is Ok <==> verified_b is Ok,
{
    codec::lemma_hex_ignores_case(a.uid, b.uid);
}

/// A change that was put into an entry comes out of it, after the same predecessor: with a
/// manager whose tags are stable and which decrypts what it has encrypted.
pub proof fn law_sync_entry_round_trip<C: CryptoManager>(
    manager: &C,
    sync_entry: Seq<u8>,
    prev_uid: Option<Seq<char>>,
    made: Result<Entry, Error>,
    got: Result<Vec<u8>, Error>,
)
    requires
        crypto::has_stable_tags(manager),
        crypto::undoes_encryption(manager),
        from_sync_entry_outcome(manager, sync_entry, prev_uid, made),
        made is Ok,
        get_sync_entry_outcome(made->Ok_0@, manager, prev_uid, got),
    ensures
        got is Ok,
        got->Ok_0@ == sync_entry,
{
    let entry = made->Ok_0@;
    let c = choose|c: Vec<u8>| #[trigger]
        crypto::encrypt_returns(manager, sync_entry, Ok(c)) && seal_outcome(
            manager,
            c@,
            prev_uid,
            made,
        );
    let t = choose|t: Vec<u8>| #[trigger]
        crypto::hmac_returns(manager, hmac_input(prev_uid, c@), Ok(t)) && entry == (EntryView {
            uid: codec::hex_text(t@),
            content: c@,
        });
    codec::lemma_hex_round_trip(t@);
    assert(crypto::decrypt_returns(manager, c@, got));
}

/// The uid that the entry at a place of a chain follows: that of the entry before it, or
/// what the whole chain follows.
pub open spec fn uid_before(entries: Seq<EntryView>, start: Option<Seq<char>>, i: int) -> Option<
    Seq<char>,
> {
    if i == 0 {
        start
    } else {
        Some(entries[i - 1].uid)
    }
}

/// A chain of entries, each made to follow the one before it, gives back all its changes
/// when it is read in the same order: with a manager whose tags are stable and which
/// decrypts what it has encrypted.
pub proof fn law_chain_round_trip<C: CryptoManager>(
    manager: &C,
    start: Option<Seq<char>>,
    changes: Seq<Seq<u8>>,
    made: Seq<Result<Entry, Error>>,
    entries: Seq<EntryView>,
    got: Seq<Result<Vec<u8>, Error>>,
)
    requires
        crypto::has_stable_tags(manager),
        crypto::undoes_encryption(manager),
        made.len() == changes.len(),
        entries.len() == changes.len(),
        got.len() == changes.len(),
        forall|i: int|
            0 <= i < changes.len() ==> {
                &&& #[trigger] made[i] is Ok
                &&& made[i]->Ok_0@ == entries[i]
                &&& from_sync_entry_outcome(
                    manager,
                    changes[i],
                    uid_before(entries, start, i),
                    made[i],
                )
            },
        forall|i: int|
            0 <= i < changes.len() ==> get_sync_entry_outcome(
                entries[i],
                manager,
                uid_before(entries, start, i),
                #[trigger] got[i],
            ),
    ensures
        forall|i: int|
            0 <= i < changes.len() ==> #[trigger] got[i] is Ok && got[i]->Ok_0@ == changes[i],
{
    assert forall|i: int| 0 <= i < changes.len() implies #[trigger] got[i] is Ok
        && got[i]->Ok_0@ == changes[i] by {
        assert(made[i] is Ok);
        law_sync_entry_round_trip(
            manager,
            changes[i],
            uid_before(entries, start, i),
            made[i],
            got[i],
        );
    }
}

/// An entry whose uid is hexadecimal for another tag than that of its ciphertext and of the
/// given predecessor is refused as a mismatch, and gives out nothing.
pub proof fn law_altered_entry_is_refused<C: CryptoManager>(
    entry: EntryView,
    manager: &C,
    prev_uid: Option<Seq<char>>,
    tag: Vec<u8>,
    got: Result<Vec<u8>, Error>,
)
    requires
        crypto::has_stable_tags(manager),
        crypto::hmac_returns(manager, hmac_input(prev_uid, entry.content), Ok(tag)),
        codec::is_hex(entry.uid),
        codec::hex_bytes(entry.uid) != tag@,
        get_sync_entry_outcome(entry, manager, prev_uid, got),
    ensures
        got == (Err::<Vec<u8>, Error>(Error::HmacMismatch)),
{
}

} // verus!
