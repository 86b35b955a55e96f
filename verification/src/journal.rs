//! Journals: encrypted collections.

use vstd::prelude::*;
use crate::bytes;
use crate::codec;
use crate::crypto;
use crate::crypto::{AsymmetricKeyPair, CryptoManager, HMAC_SIZE};
use crate::error::Error;
use crate::text;

verus! {

/// A journal as the service gives and takes it.
#[derive(Debug, PartialEq, Eq)]
pub struct JournalJson {
    /// The identifier of the journal.
    pub uid: String,
    /// The version of the protocol.
    pub version: u8,
    /// The user that the journal belongs to.
    pub owner: String,
    /// The sealed description of the collection, in Base64.
    pub content: String,
    /// Whether the user may only read, where the service says so.
    pub read_only: Option<bool>,
    /// The encrypted key of a shared journal, in Base64.
    pub key: Option<String>,
    /// The uid of the newest entry.
    pub last_uid: Option<String>,
}

/// What a [`JournalJson`] holds.
pub struct JournalJsonView {
    pub uid: Seq<char>,
    pub version: u8,
    pub owner: Seq<char>,
    pub content: Seq<char>,
    pub read_only: Option<bool>,
    pub key: Option<Seq<char>>,
    pub last_uid: Option<Seq<char>>,
}

impl View for JournalJson {
    type V = JournalJsonView;

    open spec fn view(&self) -> JournalJsonView {
        JournalJsonView {
            uid: self.uid@,
            version: self.version,
            owner: self.owner@,
            content: self.content@,
            read_only: self.read_only,
            key: text::optional(self.key),
            last_uid: text::optional(self.last_uid),
        }
    }
}

impl JournalJsonView {
    /// Whether the content and the key, where there is one, are Base64.
    pub open spec fn is_base64(self) -> bool {
        codec::base64_bytes(self.content) is Some && codec::optional_is_base64(self.key)
    }

    /// Whether the content and the key, where there is one, are short enough to be decoded.
    pub open spec fn has_decodable_size(self) -> bool {
        codec::decodable_size(self.content) && codec::optional_decodable_size(self.key)
    }

    /// The journal that this stands for, under the given uid. A journal is writable unless
    /// the service says otherwise.
    pub open spec fn journal(self, uid: Seq<char>) -> JournalView {
        JournalView {
            uid,
            version: self.version,
            owner: self.owner,
            content: codec::base64_bytes(self.content)->Some_0,
            key: codec::optional_base64_bytes(self.key),
            read_only: self.read_only == Some(true),
            last_uid: self.last_uid,
        }
    }
}

/// What the service alone says of a journal. Only reading a journal from the service makes one
/// that says anything.
pub struct JournalStatus {
    read_only: bool,
    last_uid: Option<String>,
}

impl JournalStatus {
    /// Whether the journal cannot be written to.
    pub closed spec fn read_only(&self) -> bool {
        self.read_only
    }

    /// The uid of the newest entry, where there is one.
    pub closed spec fn last_uid(&self) -> Option<Seq<char>> {
        text::optional(self.last_uid)
    }
}

/// A journal: an encrypted collection.
pub struct Journal {
    /// The identifier of the journal.
    pub uid: String,
    /// The version of the protocol.
    pub version: u8,
    /// The user that the journal belongs to.
    pub owner: String,
    /// The sealed description of the collection.
    pub content: Vec<u8>,
    /// The key, encrypted with the public key of the user that it is shared with.
    pub key: Option<Vec<u8>>,
    /// What the service alone says of the journal.
    pub status: JournalStatus,
}

/// What a [`Journal`] holds.
pub struct JournalView {
    pub uid: Seq<char>,
    pub version: u8,
    pub owner: Seq<char>,
    pub content: Seq<u8>,
    pub key: Option<Seq<u8>>,
    pub read_only: bool,
    pub last_uid: Option<Seq<char>>,
}

impl View for Journal {
    type V = JournalView;

    open spec fn view(&self) -> JournalView {
        JournalView {
            uid: self.uid@,
            version: self.version,
            owner: self.owner@,
            content: self.content@,
            key: bytes::optional(self.key),
            read_only: self.status.read_only(),
            last_uid: self.status.last_uid(),
        }
    }
}

impl Clone for Journal {
    /// A copy that holds the same.
    fn clone(&self) -> (r: Journal)
        ensures
            r@ == self@,
    {
        Journal {
            uid: self.uid.clone(),
            version: self.version,
            owner: self.owner.clone(),
            content: bytes::copy(self.content.as_slice()),
            key: bytes::copy_optional(&self.key),
            status: JournalStatus {
                read_only: self.status.read_only,
                last_uid: text::copy_optional(&self.status.last_uid),
            },
        }
    }
}

impl JournalView {
    /// The journal as the service takes it: the newest entry is not told.
    pub open spec fn json(self) -> JournalJsonView {
        JournalJsonView {
            uid: self.uid,
            version: self.version,
            owner: self.owner,
            content: codec::base64_text(self.content),
            read_only: Some(self.read_only),
            key: codec::optional_base64_text(self.key),
            last_uid: None,
        }
    }

    /// What the tag of a ciphertext is calculated over: the uid, and the ciphertext.
    pub open spec fn hmac_input(self, ciphertext: Seq<u8>) -> Seq<u8> {
        vstd::utf8::encode_utf8(self.uid) + ciphertext
    }

    /// Whether the content has room for a tag.
    pub open spec fn has_tag(self) -> bool {
        self.content.len() >= HMAC_SIZE
    }
}

/// Whether reading `json` under its own uid gives `journal` back, but for the newest entry,
/// which is not told.
pub open spec fn stands_for(json: JournalJsonView, journal: JournalView) -> bool {
    json.is_base64() && json.journal(json.uid) == (JournalView { last_uid: None, ..journal })
}

/// Whether making the manager of a journal may return `r`. The key of a shared journal is
/// decrypted with the key pair; that of any other is derived from the user's key and the
/// uid.
pub open spec fn get_crypto_manager_outcome<C: CryptoManager, K: AsymmetricKeyPair>(
    journal: JournalView,
    key: Seq<u8>,
    keypair: &K,
    r: Result<C, Error>,
) -> bool {
    match journal.key {
        Some(encrypted) => exists|derived: Result<Vec<u8>, Error>| #[trigger]
            crypto::pair_decrypt_returns(keypair, encrypted, derived) && match derived {
                Ok(d) => crypto::from_derived_key_returns(d@, journal.version, r),
                Err(e) => r == (Err::<C, Error>(e)),
            },
        None => crypto::new_returns(key, journal.uid, journal.version, r),
    }
}

/// Whether sealing a ciphertext into a journal may return `r` and leave `after`: the content
/// becomes the ciphertext with its tag before it, and where the manager fails nothing
/// changes.
pub open spec fn seal_outcome<C: CryptoManager>(
    before: JournalView,
    manager: &C,
    ciphertext: Seq<u8>,
    after: JournalView,
    r: Result<(), Error>,
) -> bool {
    exists|tag: Result<Vec<u8>, Error>| #[trigger]
        crypto::hmac_returns(manager, before.hmac_input(ciphertext), tag) && match tag {
            Ok(t) => r is Ok && after == (JournalView {
                content: crypto::sealed(t@, ciphertext),
                ..before
            }),
            Err(e) => r == (Err::<(), Error>(e)) && after == before,
        }
}

/// Whether setting the info of a journal may return `r` and leave `after`: the info is
/// encrypted and sealed in, and where the manager fails nothing changes.
pub open spec fn set_info_outcome<C: CryptoManager>(
    before: JournalView,
    manager: &C,
    info: Seq<u8>,
    after: JournalView,
    r: Result<(), Error>,
) -> bool {
    exists|ciphertext: Result<Vec<u8>, Error>| #[trigger]
        crypto::encrypt_returns(manager, info, ciphertext) && match ciphertext {
            Ok(c) => seal_outcome(before, manager, c@, after, r),
            Err(e) => r == (Err::<(), Error>(e)) && after == before,
        }
}

/// What comes of checking a journal once its tag is calculated.
pub open spec fn checked(journal: JournalView, tag: Result<Vec<u8>, Error>) -> Result<(), Error> {
    match tag {
        Ok(t) => if t@ == crypto::tag_of(journal.content) {
            Ok(())
        } else {
            Err(Error::HmacMismatch)
        },
        Err(e) => Err(e),
    }
}

/// Whether verifying a journal may return `r`.
pub open spec fn verify_outcome<C: CryptoManager>(
    journal: JournalView,
    manager: &C,
    r: Result<(), Error>,
) -> bool {
    exists|tag: Result<Vec<u8>, Error>| #[trigger]
        crypto::hmac_returns(
            manager,
            journal.hmac_input(crypto::ciphertext_of(journal.content)),
            tag,
        ) && r == checked(journal, tag)
}

/// Whether getting the info of a journal may return `r`: the ciphertext is decrypted only
/// where the journal is verified.
pub open spec fn get_info_outcome<C: CryptoManager>(
    journal: JournalView,
    manager: &C,
    r: Result<Vec<u8>, Error>,
) -> bool {
    exists|verified: Result<(), Error>| #[trigger]
        verify_outcome(journal, manager, verified) && match verified {
            Ok(()) => crypto::decrypt_returns(manager, crypto::ciphertext_of(journal.content), r),
            Err(e) => r == (Err::<Vec<u8>, Error>(e)),
        }
}

impl Journal {
    /// A new journal, writable and without content.
    pub fn new(uid: &str, version: u8, owner: &str) -> (r: Journal)
        ensures
            r@ == (JournalView {
                uid: uid@,
                version,
                owner: owner@,
                content: Seq::empty(),
                key: None,
                read_only: false,
                last_uid: None,
            }),
    {
        Journal {
            uid: uid.to_owned(),
            version,
            owner: owner.to_owned(),
            content: Vec::new(),
            key: None,
            status: JournalStatus { read_only: false, last_uid: None },
        }
    }

    /// The journal that `json` stands for, given its content and key once decoded.
    pub fn from_parts(
        uid: &str,
        json: &JournalJson,
        content: Vec<u8>,
        key: Option<Vec<u8>>,
    ) -> (r: Journal)
        ensures
            r@ == (JournalView {
                uid: uid@,
                version: json.version,
                owner: json.owner@,
                content: content@,
                key: bytes::optional(key),
                read_only: json.read_only == Some(true),
                last_uid: text::optional(json.last_uid),
            }),
    {
        Journal {
            uid: uid.to_owned(),
            version: json.version,
            owner: json.owner.clone(),
            content,
            key,
            status: JournalStatus {
                read_only: match json.read_only {
                    Some(val) => val,
                    None => false,
                },
                last_uid: text::copy_optional(&json.last_uid),
            },
        }
    }

    /// The journal that `json` stands for, under the given uid.
    pub fn from_json(uid: &str, json: &JournalJson) -> (r: Journal)
        requires
            json@.has_decodable_size(),
            json@.is_base64(),
        ensures
            r@ == json@.journal(uid@),
    {
        let content = codec::known_base64_decode(json.content.as_str());
        let key = codec::known_optional_base64_decode(&json.key);
        Journal::from_parts(uid, json, content, key)
    }

    /// The journal that `json` stands for, under the given uid, or `None` where its content
    /// or its key cannot be decoded.
    pub fn try_from_json(uid: &str, json: &JournalJson) -> (r: Option<Journal>)
        ensures
            r is Some <==> json@.has_decodable_size() && json@.is_base64(),
            r matches Some(journal) ==> journal@ == json@.journal(uid@),
    {
        if codec::is_base64(json.content.as_str()) && codec::is_optional_base64(&json.key) {
            Some(Journal::from_json(uid, json))
        } else {
            None
        }
    }

    /// The journals of a list, each under its own uid, in the order of the list.
    pub fn from_json_list(list: &Vec<JournalJson>) -> (r: Vec<Journal>)
        requires
            forall|i: int|
                0 <= i < list.len() ==> (#[trigger] list[i])@.has_decodable_size()
                    && list[i]@.is_base64(),
        ensures
            r.len() == list.len(),
            forall|i: int|
                0 <= i < list.len() ==> (#[trigger] r[i])@ == list[i]@.journal(list[i]@.uid),
    {
        let mut journals: Vec<Journal> = Vec::new();
        let mut i: usize = 0;
        while i < list.len()
            invariant
                i <= list.len(),
                journals.len() == i,
                forall|j: int|
                    0 <= j < list.len() ==> (#[trigger] list[j])@.has_decodable_size()
                        && list[j]@.is_base64(),
                forall|j: int|
                    0 <= j < i ==> (#[trigger] journals[j])@ == list[j]@.journal(list[j]@.uid),
            decreases list.len() - i,
        {
            let json = &list[i];
            journals.push(Journal::from_json(json.uid.as_str(), json));
            i = i + 1;
        }
        journals
    }

    /// The journals of a list, each under its own uid, in the order of the list, or `None`
    /// where one of them cannot be decoded.
    pub fn try_from_json_list(list: &Vec<JournalJson>) -> (r: Option<Vec<Journal>>)
        ensures
            r is Some <==> (forall|i: int|
                0 <= i < list.len() ==> (#[trigger] list[i])@.has_decodable_size()
                    && list[i]@.is_base64()),
            r matches Some(journals) ==> {
                &&& journals.len() == list.len()
                &&& forall|i: int|
                    0 <= i < list.len() ==> (#[trigger] journals[i])@ == list[i]@.journal(
                        list[i]@.uid,
                    )
            },
    {
        let mut i: usize = 0;
        while i < list.len()
            invariant
                i <= list.len(),
                forall|j: int|
                    0 <= j < i ==> (#[trigger] list[j])@.has_decodable_size()
                        && list[j]@.is_base64(),
            decreases list.len() - i,
        {
            let json = &list[i];
            if !(codec::is_base64(json.content.as_str()) && codec::is_optional_base64(&json.key)) {
                assert(!(list[i as int]@.has_decodable_size() && list[i as int]@.is_base64()));
                return None;
            }
            i = i + 1;
        }
        Some(Journal::from_json_list(list))
    }

    /// The journal as the service takes it, given its content and key once encoded.
    pub fn to_json_with(&self, content: String, key: Option<String>) -> (r: JournalJson)
        ensures
            r@ == (JournalJsonView {
                uid: self@.uid,
                version: self@.version,
                owner: self@.owner,
                content: content@,
                read_only: Some(self@.read_only),
                key: text::optional(key),
                last_uid: None,
            }),
    {
        JournalJson {
            uid: self.uid.clone(),
            version: self.version,
            owner: self.owner.clone(),
            read_only: Some(self.status.read_only),
            content,
            key,
            last_uid: None,
        }
    }

    /// The journal as the service takes it. Reading that back gives the journal, but for the
    /// newest entry, which is not told.
    pub fn to_json(&self) -> (r: JournalJson)
        ensures
            r@ == self@.json(),
            stands_for(r@, self@),
    {
        let content = codec::base64_encode(self.content.as_slice());
        let key = codec::optional_base64_encode(&self.key);
        proof {
            codec::lemma_base64_round_trip(self.content@);
        }
        self.to_json_with(content, key)
    }

    /// The identifier of the journal.
    pub fn uid(&self) -> (r: &str)
        ensures
            r@ == self@.uid,
    {
        self.uid.as_str()
    }

    /// Whether the user may only read.
    pub fn is_read_only(&self) -> (r: bool)
        ensures
            r == self@.read_only,
    {
        self.status.read_only
    }

    /// The uid of the newest entry, as the service last told it.
    pub fn get_last_uid(&self) -> (r: &Option<String>)
        ensures
            text::optional(*r) == self@.last_uid,
    {
        &self.status.last_uid
    }

    /// The manager of the journal's key.
    pub fn get_crypto_manager<C: CryptoManager, K: AsymmetricKeyPair>(
        &self,
        key: &[u8],
        keypair: &K,
    ) -> (r: Result<C, Error>)
        ensures
            get_crypto_manager_outcome(self@, key@, keypair, r),
    {
        if let Some(encrypted) = &self.key {
            let decrypted = keypair.decrypt(encrypted.as_slice());
            assert(self@.key == Some(encrypted@));
            assert(crypto::pair_decrypt_returns(keypair, self@.key->Some_0, decrypted));
            let derived = decrypted?;
            let r = C::from_derived_key(derived.as_slice(), self.version);
            assert(crypto::from_derived_key_returns(derived@, self.version, r));
            r
        } else {
            let r = C::new(key, self.uid.as_str(), self.version);
            assert(crypto::new_returns(key@, self.uid@, self.version, r));
            r
        }
    }

    /// Whether the content has room for a tag, as reading it needs.
    pub fn has_tag(&self) -> (r: bool)
        ensures
            r == self@.has_tag(),
    {
        self.content.len() >= HMAC_SIZE
    }

    /// Puts a ciphertext and its tag into the journal.
    pub fn seal(&mut self, tag: &[u8], ciphertext: &[u8])
        ensures
            final(self)@ == (JournalView {
                content: crypto::sealed(tag@, ciphertext@),
                ..old(self)@
            }),
    {
        self.content = bytes::joined(tag, ciphertext);
    }

    /// Encrypts a description of the collection into the journal. `info` is its JSON.
    pub fn set_info<C: CryptoManager>(&mut self, crypto_manager: &C, info: &[u8]) -> (r: Result<
        (),
        Error,
    >)
        ensures
            set_info_outcome(old(self)@, crypto_manager, info@, final(self)@, r),
    {
        let encrypted = crypto_manager.encrypt(info);
        assert(crypto::encrypt_returns(crypto_manager, info@, encrypted));
        let ciphertext = encrypted?;
        let tag = Journal::calculate_hmac(
            crypto_manager,
            ciphertext.as_slice(),
            self.uid.as_str().as_bytes(),
        );
        assert(crypto::hmac_returns(crypto_manager, self@.hmac_input(ciphertext@), tag));
        let hmac = tag?;
        self.seal(hmac.as_slice(), ciphertext.as_slice());
        Ok(())
    }

    /// Decrypts the description of the collection, once the journal is verified. The result
    /// is its JSON.
    pub fn get_info<C: CryptoManager>(&self, crypto_manager: &C) -> (r: Result<Vec<u8>, Error>)
        requires
            self@.has_tag(),
        ensures
            get_info_outcome(self@, crypto_manager, r),
    {
        let verified = self.verify(crypto_manager);
        assert(verify_outcome(self@, crypto_manager, verified));
        verified?;
        let (_, ciphertext) = crypto::unseal(self.content.as_slice());
        crypto_manager.decrypt(ciphertext)
    }

    /// The tag of a message of the journal with this uid.
    pub fn calculate_hmac<C: CryptoManager>(
        crypto_manager: &C,
        message: &[u8],
        uid: &[u8],
    ) -> (r: Result<Vec<u8>, Error>)
        ensures
            crypto::hmac_returns(crypto_manager, uid@ + message@, r),
    {
        let data = bytes::joined(uid, message);
        crypto_manager.hmac(data.as_slice())
    }

    /// Holds the tag in the journal against the calculated one.
    pub fn verify_tag(&self, calculated: &[u8]) -> (r: Result<(), Error>)
        requires
            self@.has_tag(),
        ensures
            r == (if crypto::tag_of(self@.content) == calculated@ {
                Ok::<(), Error>(())
            } else {
                Err(Error::HmacMismatch)
            }),
    {
        let (hmac, _) = crypto::unseal(self.content.as_slice());
        crypto::check_tag(hmac, calculated)
    }

    /// Whether the tag in the journal is that of its ciphertext and its uid.
    pub fn verify<C: CryptoManager>(&self, crypto_manager: &C) -> (r: Result<(), Error>)
        requires
            self@.has_tag(),
        ensures
            verify_outcome(self@, crypto_manager, r),
    {
        let (_, ciphertext) = crypto::unseal(self.content.as_slice());
        let tag = Journal::calculate_hmac(crypto_manager, ciphertext, self.uid.as_str().as_bytes());
        assert(crypto::hmac_returns(
            crypto_manager,
            self@.hmac_input(crypto::ciphertext_of(self@.content)),
            tag,
        ));
        let calculated = tag?;
        self.verify_tag(calculated.as_slice())
    }
}

/// A journal whose info was set carries a tag, with a manager whose tags are of full size.
pub proof fn law_set_info_leaves_a_tag<C: CryptoManager>(
    before: JournalView,
    manager: &C,
    info: Seq<u8>,
    after: JournalView,
    set: Result<(), Error>,
)
    requires
        crypto::has_full_tags(manager),
        set_info_outcome(before, manager, info, after, set),
        set is Ok,
    ensures
        after.has_tag(),
{
}

/// A journal whose info was set is verified, with a manager whose tags are stable and of full
/// size.
pub proof fn law_set_info_verifies<C: CryptoManager>(
    before: JournalView,
    manager: &C,
    info: Seq<u8>,
    after: JournalView,
    set: Result<(), Error>,
    verified: Result<(), Error>,
)
    requires
        crypto::has_stable_tags(manager),
        crypto::has_full_tags(manager),
        set_info_outcome(before, manager, info, after, set),
        set is Ok,
        verify_outcome(after, manager, verified),
    ensures
        verified is Ok,
{
    let c = choose|c: Vec<u8>| #[trigger]
        crypto::encrypt_returns(manager, info, Ok(c)) && seal_outcome(
            before,
            manager,
            c@,
            after,
            set,
        );
    let t = choose|t: Vec<u8>| #[trigger]
        crypto::hmac_returns(manager, before.hmac_input(c@), Ok(t)) && after == (JournalView {
            content: crypto::sealed(t@, c@),
            ..before
        });
    crypto::lemma_unseal_sealed(t@, c@);
}

/// What was put into a journal comes out of it: getting the info after setting it succeeds
/// and gives the info that was set, with a manager whose tags are stable and of full size
/// and which decrypts what it has encrypted.
pub proof fn law_info_round_trip<C: CryptoManager>(
    before: JournalView,
    manager: &C,
    info: Seq<u8>,
    after: JournalView,
    set: Result<(), Error>,
    got: Result<Vec<u8>, Error>,
)
    requires
        crypto::has_stable_tags(manager),
        crypto::has_full_tags(manager),
        crypto::undoes_encryption(manager),
        set_info_outcome(before, manager, info, after, set),
        set is Ok,
        get_info_outcome(after, manager, got),
    ensures
        got is Ok,
        got->Ok_0@ == info,
{
    let c = choose|c: Vec<u8>| #[trigger]
        crypto::encrypt_returns(manager, info, Ok(c)) && seal_outcome(
            before,
            manager,
            c@,
            after,
            set,
        );
    let t = choose|t: Vec<u8>| #[trigger]
        crypto::hmac_returns(manager, before.hmac_input(c@), Ok(t)) && after == (JournalView {
            content: crypto::sealed(t@, c@),
            ..before
        });
    assert(t@.len() == HMAC_SIZE);
    crypto::lemma_unseal_sealed(t@, c@);
    assert(crypto::decrypt_returns(manager, c@, got));
}

/// Setting the info touches the content alone, and where it fails nothing at all.
pub proof fn law_set_info_keeps_the_rest<C: CryptoManager>(
    before: JournalView,
    manager: &C,
    info: Seq<u8>,
    after: JournalView,
    set: Result<(), Error>,
)
    requires
        set_info_outcome(before, manager, info, after, set),
    ensures
        after == (JournalView { content: after.content, ..before }),
        set is Err ==> after == before,
{
}

/// A journal that carries another tag than that of its uid and its ciphertext is refused as a
/// mismatch, and gives out nothing.
pub proof fn law_altered_journal_is_refused<C: CryptoManager>(
    journal: JournalView,
    manager: &C,
    tag: Vec<u8>,
    got: Result<Vec<u8>, Error>,
)
    requires
        crypto::has_stable_tags(manager),
        crypto::hmac_returns(
            manager,
            journal.hmac_input(crypto::ciphertext_of(journal.content)),
            Ok(tag),
        ),
        crypto::tag_of(journal.content) != tag@,
        get_info_outcome(journal, manager, got),
    ensures
        got == (Err::<Vec<u8>, Error>(Error::HmacMismatch)),
{
}

} // verus!
