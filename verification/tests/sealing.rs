use etesync::bytes;
use etesync::codec;
use etesync::crypto;
use etesync::{
    AsymmetricKeyPair, CryptoManager, Entry, EntryJson, Error, Journal, JournalJson, UserInfo,
    UserInfoJson, HMAC_SIZE,
};

/// A manager that adds its key to every byte, and whose tag is a running sum.
struct Shift {
    key: u8,
    fails: &'static str,
}

fn shift(key: u8) -> Shift {
    Shift { key, fails: "" }
}

fn failing(operation: &'static str) -> Shift {
    Shift { key: 5, fails: operation }
}

impl Shift {
    fn outcome(&self, operation: &str, value: Vec<u8>) -> Result<Vec<u8>, Error> {
        if self.fails == operation {
            Err(Error::Crypto(operation.to_owned()))
        } else {
            Ok(value)
        }
    }
}

fn sums(key: u8, data: &[u8]) -> Vec<u8> {
    let mut tag = vec![key; HMAC_SIZE];
    let mut sum = key;
    for (i, b) in data.iter().enumerate() {
        sum = sum.wrapping_mul(31).wrapping_add(*b);
        tag[i % HMAC_SIZE] = tag[i % HMAC_SIZE].wrapping_add(sum);
    }
    tag
}

impl CryptoManager for Shift {
    fn new(key: &[u8], salt: &str, version: u8) -> Result<Shift, Error> {
        if version > 2 {
            return Err(Error::Crypto("version".to_owned()));
        }
        let mut sum = version;
        for b in key.iter().chain(salt.as_bytes()) {
            sum = sum.wrapping_add(*b);
        }
        Ok(shift(sum))
    }

    fn from_derived_key(derived: &[u8], version: u8) -> Result<Shift, Error> {
        Ok(shift(derived[0].wrapping_add(version)))
    }

    fn encrypt(&self, clear: &[u8]) -> Result<Vec<u8>, Error> {
        self.outcome("encrypt", clear.iter().map(|b| b.wrapping_add(self.key)).collect())
    }

    fn decrypt(&self, cipher: &[u8]) -> Result<Vec<u8>, Error> {
        self.outcome("decrypt", cipher.iter().map(|b| b.wrapping_sub(self.key)).collect())
    }

    fn hmac(&self, data: &[u8]) -> Result<Vec<u8>, Error> {
        self.outcome("hmac", sums(self.key, data))
    }
}

#[derive(Debug, PartialEq)]
struct Pair {
    skey: Vec<u8>,
    pkey: Vec<u8>,
    fails: &'static str,
}

fn pair() -> Pair {
    Pair { skey: vec![1, 2, 3], pkey: vec![9, 8], fails: "" }
}

impl AsymmetricKeyPair for Pair {
    fn from_der(skey: &[u8], pkey: &[u8]) -> Result<Pair, Error> {
        Ok(Pair { skey: skey.to_vec(), pkey: pkey.to_vec(), fails: "" })
    }

    fn get_skey(&self) -> Result<Vec<u8>, Error> {
        if self.fails == "skey" {
            return Err(Error::Crypto("skey".to_owned()));
        }
        Ok(self.skey.clone())
    }

    fn get_pkey(&self) -> Result<Vec<u8>, Error> {
        if self.fails == "pkey" {
            return Err(Error::Crypto("pkey".to_owned()));
        }
        Ok(self.pkey.clone())
    }

    fn decrypt(&self, cipher: &[u8]) -> Result<Vec<u8>, Error> {
        if self.fails == "decrypt" {
            return Err(Error::Crypto("pair".to_owned()));
        }
        Ok(cipher.iter().map(|b| b ^ 0xff).collect())
    }
}

fn crypto_error(reason: &str) -> Error {
    Error::Crypto(reason.to_owned())
}

#[test]
fn equal_compares_content_and_length() {
    assert!(bytes::equal(b"abc", b"abc"));
    assert!(!bytes::equal(b"abc", b"abd"));
    assert!(!bytes::equal(b"abc", b"ab"));
    assert!(bytes::equal(b"", b""));
    assert!(!bytes::equal(b"\x01\x02", b"\x02\x01"));
}

#[test]
fn unseal_splits_behind_the_tag() {
    let mut message = vec![7u8; HMAC_SIZE];
    message.extend_from_slice(b"rest");
    let (tag, ciphertext) = crypto::unseal(&message);
    assert_eq!(tag, &[7u8; 32][..]);
    assert_eq!(ciphertext, b"rest");
    assert_eq!(crypto::check_tag(tag, &[7u8; 32]), Ok(()));
    assert_eq!(crypto::check_tag(tag, &[8u8; 32]), Err(Error::HmacMismatch));
}

#[test]
fn new_journal_is_writable_and_empty() {
    let journal = Journal::new("uid", 2, "me@example.com");
    assert_eq!(journal.uid, "uid");
    assert_eq!(journal.uid(), "uid");
    assert_eq!(journal.version, 2);
    assert_eq!(journal.owner, "me@example.com");
    assert_eq!(journal.content, Vec::<u8>::new());
    assert_eq!(journal.key, None);
    assert!(!journal.is_read_only());
    assert_eq!(journal.get_last_uid(), &None);
}

#[test]
fn info_round_trip() {
    let manager = shift(3);
    let mut journal = Journal::new("uid", 2, "me");
    let info = b"{\"type\":\"CALENDAR\"}";
    assert_eq!(journal.set_info(&manager, info), Ok(()));
    assert_eq!(journal.content.len(), HMAC_SIZE + info.len());
    assert_eq!(journal.uid, "uid");
    assert_eq!(journal.owner, "me");
    assert_eq!(journal.verify(&manager), Ok(()));
    assert_eq!(journal.get_info(&manager), Ok(info.to_vec()));
}

#[test]
fn set_info_puts_the_tag_of_uid_and_ciphertext_first() {
    let manager = shift(1);
    let mut journal = Journal::new("ab", 2, "me");
    journal.set_info(&manager, b"x").unwrap();
    let mut expected = sums(1, b"aby");
    expected.push(b'y');
    assert_eq!(journal.content, expected);
}

#[test]
fn empty_info_round_trip() {
    let manager = shift(3);
    let mut journal = Journal::new("", 2, "me");
    assert_eq!(journal.set_info(&manager, b""), Ok(()));
    assert_eq!(journal.get_info(&manager), Ok(Vec::new()));
}

#[test]
fn altered_journal_is_refused() {
    let manager = shift(3);
    let mut journal = Journal::new("uid", 2, "me");
    journal.set_info(&manager, b"info").unwrap();

    let mut tag = journal.clone();
    tag.content[0] ^= 1;
    assert_eq!(tag.get_info(&manager), Err(Error::HmacMismatch));
    assert_eq!(tag.verify(&manager), Err(Error::HmacMismatch));

    let mut ciphertext = journal.clone();
    ciphertext.content[HMAC_SIZE] ^= 1;
    assert_eq!(ciphertext.get_info(&manager), Err(Error::HmacMismatch));

    let mut uid = journal.clone();
    uid.uid = "uie".to_owned();
    assert_eq!(uid.get_info(&manager), Err(Error::HmacMismatch));

    assert_eq!(journal.get_info(&shift(4)), Err(Error::HmacMismatch));
    assert_eq!(journal.get_info(&manager), Ok(b"info".to_vec()));
}

#[test]
fn failed_set_info_changes_nothing() {
    let mut journal = Journal::new("uid", 2, "me");
    journal.set_info(&shift(3), b"info").unwrap();
    let content = journal.content.clone();
    assert_eq!(journal.set_info(&failing("encrypt"), b"x"), Err(crypto_error("encrypt")));
    assert_eq!(journal.set_info(&failing("hmac"), b"x"), Err(crypto_error("hmac")));
    assert_eq!(journal.content, content);
}

#[test]
fn get_info_passes_errors_on() {
    let mut journal = Journal::new("uid", 2, "me");
    journal.set_info(&shift(5), b"info").unwrap();
    assert_eq!(journal.get_info(&failing("hmac")), Err(crypto_error("hmac")));
    assert_eq!(journal.get_info(&failing("decrypt")), Err(crypto_error("decrypt")));
}

#[test]
fn journal_verify_tag_takes_the_calculated_tag() {
    let mut journal = Journal::new("uid", 2, "me");
    journal.seal(&[1u8; 32], b"cipher");
    assert_eq!(journal.content.len(), 38);
    assert_eq!(journal.verify_tag(&[1u8; 32]), Ok(()));
    assert_eq!(journal.verify_tag(&[2u8; 32]), Err(Error::HmacMismatch));
    assert_eq!(journal.verify_tag(&[1u8; 31]), Err(Error::HmacMismatch));
}

#[test]
fn own_journal_derives_its_key_from_the_uid() {
    let journal = Journal::new("\x04", 2, "me");
    let manager: Shift = journal.get_crypto_manager(&[10], &pair()).unwrap();
    assert_eq!(manager.key, 16);
    let newer = Journal::new("uid", 3, "me");
    assert_eq!(
        newer.get_crypto_manager::<Shift, Pair>(&[10], &pair()).err(),
        Some(crypto_error("version"))
    );
}

#[test]
fn shared_journal_takes_its_key_from_the_pair() {
    let mut journal = Journal::new("uid", 1, "me");
    journal.key = Some(vec![0xf0]);
    let manager: Shift = journal.get_crypto_manager(&[10], &pair()).unwrap();
    assert_eq!(manager.key, 0x10);
    let broken = Pair { fails: "decrypt", ..pair() };
    assert_eq!(
        journal.get_crypto_manager::<Shift, Pair>(&[10], &broken).err(),
        Some(crypto_error("pair"))
    );
}

fn journal_json() -> JournalJson {
    JournalJson {
        uid: "inner".to_owned(),
        version: 2,
        owner: "me".to_owned(),
        content: "aGVsbG8=".to_owned(),
        read_only: None,
        key: Some("AAEC".to_owned()),
        last_uid: Some("last".to_owned()),
    }
}

#[test]
fn journal_from_json() {
    let journal = Journal::from_json("outer", &journal_json());
    assert_eq!(journal.uid, "outer");
    assert_eq!(journal.version, 2);
    assert_eq!(journal.owner, "me");
    assert_eq!(journal.content, b"hello".to_vec());
    assert_eq!(journal.key, Some(vec![0, 1, 2]));
    assert!(!journal.is_read_only());
    assert_eq!(journal.get_last_uid(), &Some("last".to_owned()));
}

#[test]
fn journal_is_read_only_where_the_service_says_so() {
    let json = JournalJson { read_only: Some(true), key: None, ..journal_json() };
    let journal = Journal::from_json("u", &json);
    assert!(journal.is_read_only());
    assert_eq!(journal.key, None);
    let json = JournalJson { read_only: Some(false), ..journal_json() };
    assert!(!Journal::from_json("u", &json).is_read_only());
}

#[test]
fn journal_to_json() {
    let json = JournalJson { read_only: Some(true), ..journal_json() };
    let journal = Journal::from_json("inner", &json);
    let expected = JournalJson { last_uid: None, ..json };
    assert_eq!(journal.to_json(), expected);
    assert_eq!(Journal::new("u", 1, "o").to_json().content, "");
    assert_eq!(Journal::new("u", 1, "o").to_json().read_only, Some(false));
}

#[test]
fn journal_json_round_trip() {
    let mut journal = Journal::new("uid", 2, "me");
    journal.set_info(&shift(9), b"info").unwrap();
    journal.key = Some((0..=255).collect());
    let back = Journal::try_from_json("uid", &journal.to_json()).unwrap();
    assert_eq!(back.content, journal.content);
    assert_eq!(back.key, journal.key);
    assert_eq!(back.owner, "me");
    assert_eq!(back.get_info(&shift(9)), Ok(b"info".to_vec()));
}

#[test]
fn undecodable_journal_is_not_read() {
    let content = JournalJson { content: "a".to_owned(), ..journal_json() };
    assert!(Journal::try_from_json("u", &content).is_none());
    let key = JournalJson { key: Some("!!!!".to_owned()), ..journal_json() };
    assert!(Journal::try_from_json("u", &key).is_none());
    assert!(Journal::try_from_json("u", &journal_json()).is_some());
    assert!(Journal::try_from_json_list(&vec![journal_json(), key]).is_none());
}

#[test]
fn journal_list_keeps_its_order_and_uids() {
    let second = JournalJson { uid: "second".to_owned(), ..journal_json() };
    let list = vec![journal_json(), second];
    let journals = Journal::try_from_json_list(&list).unwrap();
    assert_eq!(journals.len(), 2);
    assert_eq!(journals[0].uid, "inner");
    assert_eq!(journals[1].uid, "second");
    assert_eq!(journals[1].content, b"hello".to_vec());
    assert_eq!(Journal::from_json_list(&list).len(), 2);
    assert_eq!(Journal::try_from_json_list(&vec![]).unwrap().len(), 0);
}

#[test]
fn journal_clone_holds_the_same() {
    let journal = Journal::from_json("u", &JournalJson { read_only: Some(true), ..journal_json() });
    let copy = journal.clone();
    assert_eq!(copy.uid, journal.uid);
    assert_eq!(copy.content, journal.content);
    assert_eq!(copy.key, journal.key);
    assert!(copy.is_read_only());
    assert_eq!(copy.get_last_uid(), journal.get_last_uid());
}

#[test]
fn base64_is_told_from_other_text() {
    assert!(codec::is_base64(""));
    assert!(codec::is_base64("aGVsbG8="));
    assert!(!codec::is_base64("aGVsbG8!"));
    assert!(!codec::is_base64("a"));
    assert!(codec::is_optional_base64(&None));
    assert!(!codec::is_optional_base64(&Some("?".to_owned())));
    assert!(codec::has_decodable_size("aGVsbG8="));
}

#[test]
fn base64_padding_may_be_short_and_spare_bits_are_zero() {
    let content = |text: &str| {
        let json = EntryJson { uid: "u".to_owned(), content: text.to_owned() };
        Entry::try_from_json("u", &json).map(|entry| entry.content)
    };
    assert_eq!(content(""), Some(vec![]));
    assert_eq!(content("+/8="), Some(vec![0xfb, 0xff]));
    assert_eq!(content("AQ=="), Some(vec![1]));
    assert_eq!(content("AQ="), Some(vec![1]));
    assert_eq!(content("AQ"), Some(vec![1]));
    assert_eq!(content("AQI="), Some(vec![1, 2]));
    assert_eq!(content("AQI"), Some(vec![1, 2]));
    assert_eq!(content("AQIDBAUG"), Some(vec![1, 2, 3, 4, 5, 6]));
    assert_eq!(content("AQIDBAU"), Some(vec![1, 2, 3, 4, 5]));
    for bad in [
        "=", "==", "A", "A=", "A==", "A===", "AQ===", "AQI==", "AQID=", "AQID==", "AQIDB", "AR",
        "AR==", "AQJ=", "AQ=A", "AQ==AQID", "-_8=", "AQ ", "\u{e9}Q",
    ] {
        assert_eq!(content(bad), None, "{}", bad);
    }
}

#[test]
fn base64_text_of_each_length() {
    let text = |bytes: &[u8]| Entry { uid: "u".to_owned(), content: bytes.to_vec() }.to_json().content;
    assert_eq!(text(&[]), "");
    assert_eq!(text(&[0xfb]), "+w==");
    assert_eq!(text(&[0xfb, 0xff]), "+/8=");
    assert_eq!(text(&[0xfb, 0xff, 0x00]), "+/8A");
    assert_eq!(text(&[1, 2, 3, 4]), "AQIDBA==");
    for size in 0..64u8 {
        let bytes: Vec<u8> = (0..size).map(|i| i.wrapping_mul(83)).collect();
        let json = EntryJson { uid: "u".to_owned(), content: text(&bytes) };
        assert_eq!(Entry::from_json("u", &json).content, bytes);
    }
}

#[test]
fn user_info_without_owner_reads_back_for_any_user() {
    let info = UserInfo { owner: None, version: 3, pubkey: vec![7], content: Some(vec![8, 9]) };
    let back = UserInfo::from_json("anyone", &info.to_json());
    assert_eq!(back.owner, Some("anyone".to_owned()));
    assert_eq!(back.version, 3);
    assert_eq!(back.pubkey, vec![7]);
    assert_eq!(back.content, Some(vec![8, 9]));
}

#[test]
fn sync_entry_round_trip() {
    let manager = shift(3);
    let change = b"{\"action\":\"ADD\"}";
    let entry = Entry::from_sync_entry(&manager, change, None).unwrap();
    assert_eq!(entry.content.len(), change.len());
    assert_eq!(entry.uid.len(), 2 * HMAC_SIZE);
    assert_eq!(entry.verify(&manager, None), Ok(()));
    assert_eq!(entry.get_sync_entry(&manager, None), Ok(change.to_vec()));
}

#[test]
fn entry_uid_is_the_tag_in_hexadecimal() {
    let entry = Entry::seal(&[0x00, 0x0f, 0xa5, 0xff], b"c".to_vec());
    assert_eq!(entry.uid, "000fa5ff");
    assert_eq!(entry.content, b"c".to_vec());
    assert_eq!(entry.verify_tag(&[0x00, 0x0f, 0xa5, 0xff]), Ok(()));
    assert_eq!(entry.verify_tag(&[0x00, 0x0f, 0xa5, 0xfe]), Err(Error::HmacMismatch));
    let upper = Entry::from_parts("000FA5fF", vec![]);
    assert_eq!(upper.verify_tag(&[0x00, 0x0f, 0xa5, 0xff]), Ok(()));
}

#[test]
fn chain_round_trip() {
    let manager = shift(77);
    let changes: [&[u8]; 3] = [b"one", b"two", b""];
    let mut entries: Vec<Entry> = Vec::new();
    for change in changes.iter() {
        let prev = entries.last().map(|e| e.uid.clone());
        entries.push(Entry::from_sync_entry(&manager, change, prev.as_deref()).unwrap());
    }
    let mut prev: Option<String> = None;
    for (entry, change) in entries.iter().zip(changes.iter()) {
        assert_eq!(entry.get_sync_entry(&manager, prev.as_deref()), Ok(change.to_vec()));
        prev = Some(entry.uid.clone());
    }
}

#[test]
fn entry_is_refused_after_another_predecessor() {
    let manager = shift(3);
    let entry = Entry::from_sync_entry(&manager, b"change", Some("aa")).unwrap();
    assert_eq!(entry.get_sync_entry(&manager, Some("aa")), Ok(b"change".to_vec()));
    assert_eq!(entry.get_sync_entry(&manager, Some("ab")), Err(Error::HmacMismatch));
    assert_eq!(entry.get_sync_entry(&manager, None), Err(Error::HmacMismatch));
}

#[test]
fn altered_entry_is_refused() {
    let manager = shift(3);
    let mut entry = Entry::from_sync_entry(&manager, b"change", None).unwrap();
    entry.content[0] ^= 1;
    assert_eq!(entry.get_sync_entry(&manager, None), Err(Error::HmacMismatch));
}

#[test]
fn entry_uid_must_be_hexadecimal() {
    let manager = shift(3);
    let mut entry = Entry::from_sync_entry(&manager, b"change", None).unwrap();
    entry.uid.push('0');
    assert_eq!(entry.get_sync_entry(&manager, None), Err(Error::UndecodableUid));
    entry.uid = "xy".to_owned();
    assert_eq!(entry.verify(&manager, None), Err(Error::UndecodableUid));
    entry.uid = "\u{e9}".to_owned();
    assert_eq!(entry.verify(&manager, None), Err(Error::UndecodableUid));
    assert_eq!(entry.verify(&failing("hmac"), None), Err(crypto_error("hmac")));
    entry.uid = "".to_owned();
    assert_eq!(entry.verify(&manager, None), Err(Error::HmacMismatch));
}

#[test]
fn from_sync_entry_passes_errors_on() {
    assert_eq!(
        Entry::from_sync_entry(&failing("encrypt"), b"x", None).err(),
        Some(crypto_error("encrypt"))
    );
    assert_eq!(
        Entry::from_sync_entry(&failing("hmac"), b"x", None).err(),
        Some(crypto_error("hmac"))
    );
    let entry = Entry::from_sync_entry(&shift(5), b"x", None).unwrap();
    assert_eq!(entry.get_sync_entry(&failing("decrypt"), None), Err(crypto_error("decrypt")));
}

#[test]
fn entry_json_round_trip() {
    let entry = Entry { uid: "0a".to_owned(), content: b"hello".to_vec() };
    let json = entry.to_json();
    assert_eq!(json, EntryJson { uid: "0a".to_owned(), content: "aGVsbG8=".to_owned() });
    let back = Entry::from_json(&json.uid, &json);
    assert_eq!(back.uid, entry.uid);
    assert_eq!(back.content, entry.content);
    let copy = entry.clone();
    assert_eq!(copy.content, b"hello".to_vec());
    let list = Entry::to_json_list(&[&entry, &copy]);
    assert_eq!(list.len(), 2);
    assert_eq!(list[1].content, "aGVsbG8=");
}

#[test]
fn entry_list_keeps_its_order_and_uids() {
    let list = vec![
        EntryJson { uid: "01".to_owned(), content: "AA==".to_owned() },
        EntryJson { uid: "02".to_owned(), content: "".to_owned() },
    ];
    let entries = Entry::try_from_json_list(&list).unwrap();
    assert_eq!(entries[0].uid, "01");
    assert_eq!(entries[0].content, vec![0]);
    assert_eq!(entries[1].uid, "02");
    assert_eq!(entries[1].content, Vec::<u8>::new());
    let bad = vec![EntryJson { uid: "01".to_owned(), content: "=".to_owned() }];
    assert!(Entry::try_from_json_list(&bad).is_none());
    assert!(Entry::try_from_json("01", &bad[0]).is_none());
}

#[test]
fn keypair_round_trip() {
    let mut info = UserInfo::new("me", 2);
    assert_eq!(info.owner, Some("me".to_owned()));
    assert_eq!(info.pubkey, Vec::<u8>::new());
    assert_eq!(info.content, None);
    let manager: Shift = info.get_crypto_manager(&[1]).unwrap();
    assert_eq!(info.set_keypair(&manager, &pair()), Ok(()));
    assert_eq!(info.pubkey, vec![9, 8]);
    assert_eq!(info.owner, Some("me".to_owned()));
    assert_eq!(info.version, 2);
    assert_eq!(info.verify(&manager), Ok(()));
    assert_eq!(info.get_keypair::<Shift, Pair>(&manager), Ok(pair()));
}

#[test]
fn set_keypair_puts_the_tag_of_ciphertext_and_public_key_first() {
    let mut info = UserInfo::new("me", 2);
    info.set_keypair(&shift(1), &pair()).unwrap();
    let mut expected = sums(1, &[2, 3, 4, 9, 8]);
    expected.extend_from_slice(&[2, 3, 4]);
    assert_eq!(info.content, Some(expected));
}

#[test]
fn user_info_key_is_derived_with_a_fixed_salt() {
    let manager: Shift = UserInfo::new("me", 1).get_crypto_manager(&[]).unwrap();
    let sum = "userInfo".bytes().fold(1u8, |s, b| s.wrapping_add(b));
    assert_eq!(manager.key, sum);
    assert!(UserInfo::new("me", 3).get_crypto_manager::<Shift>(&[]).is_err());
}

#[test]
fn letter_case_of_an_entry_uid_is_ignored() {
    let manager = shift(3);
    let entry = Entry::from_sync_entry(&manager, b"change", Some("ab")).unwrap();
    let upper = Entry { uid: entry.uid.to_uppercase(), content: entry.content.clone() };
    assert_ne!(upper.uid, entry.uid);
    assert_eq!(upper.verify(&manager, Some("ab")), Ok(()));
    assert_eq!(entry.verify(&manager, Some("ab")), Ok(()));
    assert_eq!(upper.verify(&manager, Some("AB")), Err(Error::HmacMismatch));
    assert_eq!(entry.verify(&manager, Some("AB")), Err(Error::HmacMismatch));
    let none = Entry { uid: "zz".to_owned(), content: entry.content.clone() };
    assert_eq!(none.verify(&manager, None), Err(Error::UndecodableUid));
    let none = Entry { uid: "ZZ".to_owned(), content: entry.content };
    assert_eq!(none.verify(&manager, None), Err(Error::UndecodableUid));
}

#[test]
fn what_was_sealed_is_verified() {
    let manager = shift(3);
    let entry = Entry::from_sync_entry(&manager, b"change", None).unwrap();
    assert_eq!(entry.verify(&manager, None), Ok(()));

    let mut journal = Journal::new("uid", 2, "me");
    assert!(!journal.has_tag());
    journal.set_info(&manager, b"info").unwrap();
    assert!(journal.has_tag());
    assert_eq!(journal.verify(&manager), Ok(()));
    journal.content.truncate(HMAC_SIZE);
    assert!(journal.has_tag());
    journal.content.truncate(HMAC_SIZE - 1);
    assert!(!journal.has_tag());

    let mut info = UserInfo::new("me", 2);
    assert!(info.has_tag());
    info.set_keypair(&manager, &pair()).unwrap();
    assert!(info.has_tag());
    assert_eq!(info.verify(&manager), Ok(()));
    info.content = Some(vec![0; HMAC_SIZE - 1]);
    assert!(!info.has_tag());
}

#[test]
fn altered_user_info_is_refused() {
    let manager = shift(3);
    let mut info = UserInfo::new("me", 2);
    info.set_keypair(&manager, &pair()).unwrap();
    let mut pubkey = info.clone();
    pubkey.pubkey[0] ^= 1;
    assert_eq!(pubkey.get_keypair::<Shift, Pair>(&manager), Err(Error::HmacMismatch));
    let mut content = info.clone();
    content.content.as_mut().unwrap()[0] ^= 1;
    assert_eq!(content.verify(&manager), Err(Error::HmacMismatch));
    assert_eq!(content.get_keypair::<Shift, Pair>(&manager), Err(Error::HmacMismatch));
}

#[test]
fn user_info_of_another_has_no_keypair() {
    let info = UserInfo::new("other", 2);
    assert_eq!(info.get_keypair::<Shift, Pair>(&shift(3)), Err(Error::NoKeypair));
    assert_eq!(info.verify(&shift(3)), Err(Error::NoContent));
    assert_eq!(info.verify_tag(&[0; 32]), Err(Error::NoContent));
}

#[test]
fn failed_set_keypair_keeps_the_content() {
    let mut info = UserInfo::new("me", 2);
    let no_skey = Pair { fails: "skey", ..pair() };
    let no_pkey = Pair { fails: "pkey", ..pair() };
    assert_eq!(info.set_keypair(&shift(3), &no_skey), Err(crypto_error("skey")));
    assert_eq!(info.set_keypair(&failing("encrypt"), &pair()), Err(crypto_error("encrypt")));
    assert_eq!(info.set_keypair(&shift(3), &no_pkey), Err(crypto_error("pkey")));
    assert_eq!(info.pubkey, Vec::<u8>::new());
    assert_eq!(info.set_keypair(&failing("hmac"), &pair()), Err(crypto_error("hmac")));
    assert_eq!(info.pubkey, vec![9, 8]);
    assert_eq!(info.content, None);
}

#[test]
fn get_keypair_passes_errors_on() {
    let mut info = UserInfo::new("me", 2);
    info.set_keypair(&shift(5), &pair()).unwrap();
    assert_eq!(info.get_keypair::<Shift, Pair>(&failing("hmac")), Err(crypto_error("hmac")));
    assert_eq!(info.get_keypair::<Shift, Pair>(&failing("decrypt")), Err(crypto_error("decrypt")));
}

#[test]
fn user_info_json_round_trip() {
    let info = UserInfo {
        owner: Some("me".to_owned()),
        version: 2,
        pubkey: b"hello".to_vec(),
        content: Some(vec![0, 1, 2]),
    };
    let json = info.to_json();
    let expected = UserInfoJson {
        owner: Some("me".to_owned()),
        version: 2,
        pubkey: "aGVsbG8=".to_owned(),
        content: Some("AAEC".to_owned()),
    };
    assert_eq!(json, expected);
    let back = UserInfo::try_from_json("me", &json).unwrap();
    assert_eq!(back.owner, info.owner);
    assert_eq!(back.pubkey, info.pubkey);
    assert_eq!(back.content, info.content);
    let other = UserInfo::from_json("other", &UserInfoJson { owner: None, content: None, ..json });
    assert_eq!(other.owner, Some("other".to_owned()));
    assert_eq!(other.content, None);
    let bad = UserInfoJson { pubkey: "*".to_owned(), ..expected };
    assert!(UserInfo::try_from_json("me", &bad).is_none());
}
