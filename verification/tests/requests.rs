use etesync::request;
use etesync::service;
use etesync::text;
use etesync::web_address;
use etesync::{
    test_reset, user_agent, Authenticator, Entry, EntryManager, Error, Journal, JournalManager,
    Method, Request, UserInfo, UserInfoManager, APP_USER_AGENT, SERVICE_API_URL,
};

fn header<B>(request: &Request<B>, name: &str) -> String {
    request.headers.get(name).unwrap().to_str().unwrap().to_owned()
}

fn assert_base_headers<B>(request: &Request<B>) {
    assert_eq!(request.headers.len(), 3);
    assert_eq!(header(request, "content-type"), "application/json;charset=UTF-8");
    assert_eq!(header(request, "accept"), "application/json");
    assert_eq!(header(request, "authorization"), "Token secret");
}

#[test]
fn decimal_text_has_no_leading_zeros() {
    assert_eq!(text::decimal(0), "0");
    assert_eq!(text::decimal(9), "9");
    assert_eq!(text::decimal(10), "10");
    assert_eq!(text::decimal(1234567890), "1234567890");
    assert_eq!(text::decimal(usize::MAX), usize::MAX.to_string());
}

#[test]
fn user_agent_names_client_and_library() {
    assert_eq!(APP_USER_AGENT, "etesync/0.1.0");
    assert_eq!(user_agent("MyApp/1.0"), "MyApp/1.0 etesync/0.1.0");
}

#[test]
fn error_messages() {
    assert_eq!(Error::HmacMismatch.message(), "HMAC mismatch");
    assert_eq!(Error::UndecodableUid.message(), "Failed decoding uid");
    assert_eq!(
        Error::NoKeypair.message(),
        "Can't get keypair for someone else's user info"
    );
    assert_eq!(Error::NoContent.message(), "Can't verify someone else's user info");
    assert_eq!(Error::OwnerUnset.message(), "Owner is unset");
    assert_eq!(Error::InvalidUrl.message(), "Invalid URL");
    assert_eq!(Error::InvalidHeader.message(), "Invalid header");
    assert_eq!(Error::Crypto("why".to_owned()).message(), "why");
}

#[test]
fn header_text_has_no_control_characters() {
    assert!(request::can_stand_in_header(""));
    assert!(request::can_stand_in_header("abc def\t~"));
    assert!(request::can_stand_in_header("\u{e9}"));
    assert!(!request::can_stand_in_header("a\n"));
    assert!(!request::can_stand_in_header("\u{7f}"));
    assert!(!request::can_stand_in_header("\0"));
}

#[test]
fn base_headers() {
    let headers = request::get_base_headers("secret", 5);
    assert_eq!(headers.len(), 3);
    assert_eq!(headers.get("authorization").unwrap(), "Token secret");
    assert_eq!(request::get_base_headers("\u{e9}", 0).len(), 3);
}

#[test]
fn resolve_reads_relative_to_the_base() {
    assert_eq!(
        web_address::resolve("https://example.com/a/b", "c/"),
        Ok("https://example.com/a/c/".to_owned())
    );
    assert_eq!(web_address::resolve("nonsense", "c/"), Err(Error::InvalidUrl));
    assert_eq!(web_address::resolve("mailto:x@example.com", "c/"), Err(Error::InvalidUrl));
}

#[test]
fn reset_request() {
    let request = test_reset("secret", "http://localhost:8000").unwrap();
    assert_eq!(request.method, Method::Post);
    assert_eq!(request.url, "http://localhost:8000/reset/");
    assert_eq!(request.headers.len(), 1);
    assert_eq!(header(&request, "authorization"), "Token secret");
    assert_eq!(test_reset("secret", "localhost").err(), Some(Error::InvalidUrl));
    assert_eq!(test_reset("a\n", "localhost").err(), Some(Error::InvalidUrl));
    assert_eq!(test_reset("a\n", "http://localhost").err(), Some(Error::InvalidHeader));
}

#[test]
fn token_requests() {
    let authenticator = Authenticator::new(SERVICE_API_URL);
    let request = authenticator.get_token("me", "pass").unwrap();
    assert_eq!(request.method, Method::Post);
    assert_eq!(request.url, "https://api.etesync.com/api-token-auth/");
    assert_eq!(request.headers.len(), 2);
    assert_eq!(
        header(&request, "content-type"),
        "application/x-www-form-urlencoded;charset=UTF-8"
    );
    assert_eq!(header(&request, "accept"), "application/json");
    assert_eq!(
        request.body,
        vec![
            ("username".to_owned(), "me".to_owned()),
            ("password".to_owned(), "pass".to_owned())
        ]
    );

    let request = authenticator.invalidate_token("secret").unwrap();
    assert_eq!(request.method, Method::Post);
    assert_eq!(request.url, "https://api.etesync.com/api/logout/");
    assert_eq!(header(&request, "authorization"), "Token secret");
    assert_eq!(authenticator.invalidate_token("\n").err(), Some(Error::InvalidHeader));
}

#[test]
fn authenticator_needs_a_url() {
    assert!(Authenticator::try_new("nonsense").is_none());
    let opaque = Authenticator::try_new("mailto:x@example.com").unwrap();
    assert_eq!(opaque.get_token("me", "pass").err(), Some(Error::InvalidUrl));
    assert_eq!(opaque.invalidate_token("secret").err(), Some(Error::InvalidUrl));
    assert_eq!(opaque.invalidate_token("\n").err(), Some(Error::InvalidUrl));
}

#[test]
fn journal_requests() {
    let manager = JournalManager::new("secret", SERVICE_API_URL);
    assert!(manager.has_usable_token());
    let journals = "https://api.etesync.com/api/v1/journals/";
    let one = "https://api.etesync.com/api/v1/journals/uid/";

    let request = manager.fetch("uid").unwrap();
    assert_eq!(request.method, Method::Get);
    assert_eq!(request.url, one);
    assert_base_headers(&request);

    let request = manager.list();
    assert_eq!(request.method, Method::Get);
    assert_eq!(request.url, journals);
    assert_base_headers(&request);

    let mut journal = Journal::new("uid", 2, "me");
    journal.content = b"hello".to_vec();
    let request = manager.create(&journal);
    assert_eq!(request.method, Method::Post);
    assert_eq!(request.url, journals);
    assert_base_headers(&request);
    assert_eq!(request.body, journal.to_json());
    assert_eq!(request.body.content, "aGVsbG8=");

    let request = manager.update(&journal).unwrap();
    assert_eq!(request.method, Method::Put);
    assert_eq!(request.url, one);
    assert_base_headers(&request);
    assert_eq!(request.body, journal.to_json());

    let request = manager.delete(&journal).unwrap();
    assert_eq!(request.method, Method::Delete);
    assert_eq!(request.url, one);
    assert_base_headers(&request);
}

#[test]
fn journal_manager_needs_a_url() {
    assert!(JournalManager::try_new("secret", "nonsense").is_none());
    assert!(JournalManager::try_new("secret", "mailto:x@example.com").is_none());
    let manager = JournalManager::try_new("\n", "http://localhost/sub/").unwrap();
    assert!(!manager.has_usable_token());
    let manager = JournalManager::try_new("secret", "http://localhost/sub/").unwrap();
    assert_eq!(manager.list().url, "http://localhost/sub/api/v1/journals/");
    assert_eq!(manager.fetch("http://[").err(), Some(Error::InvalidUrl));
    let journal = Journal::new("http://[", 1, "me");
    assert_eq!(manager.update(&journal).err(), Some(Error::InvalidUrl));
    assert_eq!(manager.delete(&journal).err(), Some(Error::InvalidUrl));
}

#[test]
fn url_error_comes_before_an_unusable_token() {
    let manager = JournalManager::new("\n", "http://localhost");
    assert_eq!(manager.fetch("http://[").err(), Some(Error::InvalidUrl));
    assert_eq!(manager.try_fetch("http://[").err(), Some(Error::InvalidUrl));
    assert!(manager.try_fetch("uid").unwrap().is_none());
    let journal = Journal::new("http://[", 1, "me");
    assert_eq!(manager.update(&journal).err(), Some(Error::InvalidUrl));
    assert_eq!(manager.try_update(&journal).err(), Some(Error::InvalidUrl));
    assert_eq!(manager.delete(&journal).err(), Some(Error::InvalidUrl));
    assert_eq!(manager.try_delete(&journal).err(), Some(Error::InvalidUrl));
    let journal = Journal::new("uid", 1, "me");
    assert!(manager.try_update(&journal).unwrap().is_none());
    assert!(manager.try_delete(&journal).unwrap().is_none());

    let manager = UserInfoManager::new("\n", "http://localhost");
    assert_eq!(manager.fetch("http://[").err(), Some(Error::InvalidUrl));
    assert_eq!(manager.try_fetch("http://[").err(), Some(Error::InvalidUrl));
    assert!(manager.try_fetch("me").unwrap().is_none());
    let info = UserInfo::new("http://[", 1);
    assert_eq!(manager.update(&info).err(), Some(Error::InvalidUrl));
    assert_eq!(manager.try_update(&info).err(), Some(Error::InvalidUrl));
    assert_eq!(manager.delete(&info).err(), Some(Error::InvalidUrl));
    assert_eq!(manager.try_delete(&info).err(), Some(Error::InvalidUrl));
    let info = UserInfo::new("me", 1);
    assert!(manager.try_update(&info).unwrap().is_none());
    assert!(manager.try_delete(&info).unwrap().is_none());
    let info = UserInfo { owner: None, version: 1, pubkey: vec![], content: None };
    assert_eq!(manager.try_update(&info).err(), Some(Error::OwnerUnset));
    assert_eq!(manager.try_delete(&info).err(), Some(Error::OwnerUnset));
}

#[test]
fn usable_tokens_give_item_requests() {
    let manager = JournalManager::new("secret", "http://localhost");
    let journal = Journal::new("uid", 1, "me");
    let one = "http://localhost/api/v1/journals/uid/";
    let request = manager.try_fetch("uid").unwrap().unwrap();
    assert_eq!((request.method, request.url.as_str()), (Method::Get, one));
    let request = manager.try_update(&journal).unwrap().unwrap();
    assert_eq!((request.method, request.url.as_str()), (Method::Put, one));
    assert_eq!(request.body, journal.to_json());
    let request = manager.try_delete(&journal).unwrap().unwrap();
    assert_eq!((request.method, request.url.as_str()), (Method::Delete, one));

    let manager = UserInfoManager::new("secret", "http://localhost");
    let info = UserInfo::new("me", 1);
    let one = "http://localhost/api/v1/user/me/";
    let request = manager.try_fetch("me").unwrap().unwrap();
    assert_eq!((request.method, request.url.as_str()), (Method::Get, one));
    let request = manager.try_update(&info).unwrap().unwrap();
    assert_eq!((request.method, request.url.as_str()), (Method::Put, one));
    assert_eq!(request.body, info.to_json());
    let request = manager.try_delete(&info).unwrap().unwrap();
    assert_eq!((request.method, request.url.as_str()), (Method::Delete, one));
}

#[test]
fn entry_query() {
    assert_eq!(service::list_query(None, None), vec![]);
    assert_eq!(
        service::list_query(Some("a"), Some(50)),
        vec![
            ("last".to_owned(), "a".to_owned()),
            ("limit".to_owned(), "50".to_owned())
        ]
    );
    assert_eq!(
        service::list_query(None, Some(0)),
        vec![("limit".to_owned(), "0".to_owned())]
    );
}

#[test]
fn entry_requests() {
    let manager = EntryManager::new("secret", "uid", SERVICE_API_URL);
    assert!(manager.has_usable_token());
    let entries = "https://api.etesync.com/api/v1/journals/uid/entries/";

    let request = manager.list(None, None);
    assert_eq!(request.method, Method::Get);
    assert_eq!(request.url, entries);
    assert_base_headers(&request);

    let request = manager.list(Some("last one"), None);
    assert_eq!(request.url, format!("{}?last=last+one", entries));
    let request = manager.list(None, Some(50));
    assert_eq!(request.url, format!("{}?limit=50", entries));
    let request = manager.list(Some("a&b"), Some(50));
    assert_eq!(request.url, format!("{}?last=a%26b&limit=50", entries));

    let first = Entry { uid: "01".to_owned(), content: b"hello".to_vec() };
    let second = Entry { uid: "02".to_owned(), content: vec![] };
    let request = manager.create(&[&first, &second], Some("00"));
    assert_eq!(request.method, Method::Post);
    assert_eq!(request.url, format!("{}?last=00", entries));
    assert_base_headers(&request);
    assert_eq!(request.body, vec![first.to_json(), second.to_json()]);

    let request = manager.create(&[], None);
    assert_eq!(request.url, entries);
    assert!(request.body.is_empty());
}

#[test]
fn entry_query_fits_behind_the_url() {
    let manager = EntryManager::new("secret", "uid", SERVICE_API_URL);
    assert!(manager.leaves_room_for(None, None));
    assert!(manager.leaves_room_for(Some("a"), Some(usize::MAX)));
    let pair = |size: usize| vec![("n".to_owned(), "v".repeat(size))];
    assert!(web_address::leaves_room("http://localhost/", &vec![]));
    assert!(web_address::leaves_room("http://localhost/", &pair(1000)));
}

#[test]
fn entry_query_joins_what_the_uid_brings() {
    let manager = EntryManager::new("secret", "uid?a=b#c", "http://localhost");
    let request = manager.list(Some("x"), Some(1));
    assert_eq!(
        request.url,
        "http://localhost/api/v1/journals/uid?a=b&last=x&limit=1#c/entries/"
    );
}

#[test]
fn entry_query_is_encoded_as_a_form() {
    let url = |uid: &str, last: &str| {
        EntryManager::new("secret", uid, "http://h").list(Some(last), None).url
    };
    let entries = "http://h/api/v1/journals/u/entries/";
    assert_eq!(url("u", ""), format!("{}?last=", entries));
    assert_eq!(url("u", "Az09*-._"), format!("{}?last=Az09*-._", entries));
    assert_eq!(url("u", "a b+c~%"), format!("{}?last=a+b%2Bc%7E%25", entries));
    assert_eq!(url("u", "\u{e9}/"), format!("{}?last=%C3%A9%2F", entries));
    assert_eq!(url("u?", "x"), "http://h/api/v1/journals/u?/entries/&last=x");
    assert_eq!(url("u#?", "x"), "http://h/api/v1/journals/u?last=x#?/entries/");
    assert_eq!(url("u?#", "x"), "http://h/api/v1/journals/u?last=x#/entries/");
    assert_eq!(url("u??#", "x"), "http://h/api/v1/journals/u??&last=x#/entries/");
}

#[test]
fn entry_manager_needs_a_url() {
    assert!(EntryManager::try_new("secret", "uid", "nonsense").is_none());
    assert!(EntryManager::try_new("secret", "uid", "http://localhost").is_some());
    assert!(!EntryManager::try_new("\n", "uid", "http://localhost").unwrap().has_usable_token());
}

#[test]
fn user_info_requests() {
    let manager = UserInfoManager::new("secret", SERVICE_API_URL);
    assert!(manager.has_usable_token());
    let users = "https://api.etesync.com/api/v1/user/";
    let me = "https://api.etesync.com/api/v1/user/me@example.com/";
    let info = UserInfo::new("me@example.com", 2);

    let request = manager.fetch("me@example.com").unwrap();
    assert_eq!(request.method, Method::Get);
    assert_eq!(request.url, me);
    assert_base_headers(&request);

    let request = manager.create(&info);
    assert_eq!(request.method, Method::Post);
    assert_eq!(request.url, users);
    assert_base_headers(&request);
    assert_eq!(request.body, info.to_json());

    let request = manager.update(&info).unwrap();
    assert_eq!(request.method, Method::Put);
    assert_eq!(request.url, me);
    assert_base_headers(&request);
    assert_eq!(request.body, info.to_json());

    let request = manager.delete(&info).unwrap();
    assert_eq!(request.method, Method::Delete);
    assert_eq!(request.url, me);
    assert_base_headers(&request);
}

#[test]
fn user_info_without_owner_has_no_address() {
    let manager = UserInfoManager::try_new("\n", "http://localhost").unwrap();
    assert!(!manager.has_usable_token());
    let info = UserInfo { owner: None, version: 1, pubkey: vec![], content: None };
    assert_eq!(manager.update(&info).err(), Some(Error::OwnerUnset));
    assert_eq!(manager.delete(&info).err(), Some(Error::OwnerUnset));
    assert!(UserInfoManager::try_new("secret", "nonsense").is_none());
    let manager = UserInfoManager::new("secret", "http://localhost");
    let info = UserInfo::new("http://[", 1);
    assert_eq!(manager.fetch("http://[").err(), Some(Error::InvalidUrl));
    assert_eq!(manager.update(&info).err(), Some(Error::InvalidUrl));
    assert_eq!(manager.delete(&info).err(), Some(Error::InvalidUrl));
}
