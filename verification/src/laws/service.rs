//! Laws of the managers: which request each operation of the service takes.

use vstd::prelude::*;
use vstd::utf8::encode_utf8;
use crate::codec;
use crate::entry;
use crate::entry::{Entry, EntryJson};
use crate::error::Error;
use crate::journal::{Journal, JournalJson};
use crate::laws;
use crate::laws::encoding;
use crate::laws::request;
use crate::request::{Method, Request};
use crate::service;
use crate::service::{EntryManager, JournalManager, UserInfoManager};
use crate::text;
use crate::user_info::{UserInfo, UserInfoJson};
use crate::web_address;

verus! {

/// Whether a request does this, there, taking and giving JSON, and proves its identity with the
/// whole token.
pub open spec fn sends<B>(r: Request<B>, method: Method, url: Seq<char>, token: Seq<char>) -> bool {
    &&& r.method == method
    &&& r.url@ == url
    &&& request::carries_json_headers(r.headers, token)
}

/// Whether `r` is the request at the URL, if there is one, and the error that there is none
/// otherwise.
pub open spec fn sends_if_any<B>(
    r: Result<Request<B>, Error>,
    method: Method,
    url: Option<Seq<char>>,
    token: Seq<char>,
) -> bool {
    match url {
        Some(url) => r is Ok && sends(r->Ok_0, method, url, token),
        None => r == (Err::<Request<B>, Error>(Error::InvalidUrl)),
    }
}

/// Whether `r` is the request at the URL, if there is one: the lack of a URL is an error, and
/// only where there is one, a token that cannot stand in a header leaves no request.
pub open spec fn tries_to_send<B>(
    r: Result<Option<Request<B>>, Error>,
    method: Method,
    url: Option<Seq<char>>,
    token: Seq<char>,
) -> bool {
    match url {
        Some(url) => if request::is_usable(token) {
            r is Ok && r->Ok_0 is Some && sends(r->Ok_0->Some_0, method, url, token)
        } else {
            r == (Ok::<Option<Request<B>>, Error>(None))
        },
        None => r == (Err::<Option<Request<B>>, Error>(Error::InvalidUrl)),
    }
}

proof fn lemma_item<B>(
    r: Result<Request<B>, Error>,
    tried: Result<Option<Request<B>>, Error>,
    method: Method,
    base: Seq<char>,
    name: Seq<char>,
    path: Seq<char>,
    token: Seq<char>,
)
    requires
        laws::made_of(path, name, seq!['/']),
    ensures
        service::item_outcome(r, method, base, name, token) ==> sends_if_any(
            r,
            method,
            web_address::joined_url(base, path),
            token,
        ),
        service::try_outcome(tried, method, base, name, token) ==> tries_to_send(
            tried,
            method,
            web_address::joined_url(base, path),
            token,
        ),
{
    reveal_strlit("/");
    assert("/"@ =~= seq!['/']);
    laws::lemma_made_of(path, name, seq!['/']);
    request::lemma_usable(token);
    if service::item_outcome(r, method, base, name, token) && r is Ok {
        request::lemma_json_headers(r->Ok_0.headers, token);
    }
    if service::try_outcome(tried, method, base, name, token) && tried is Ok && tried->Ok_0
        is Some {
        request::lemma_json_headers(tried->Ok_0->Some_0.headers, token);
    }
}

/// The journals are at one address below the service, and the manager keeps the whole token.
/// There is a manager wherever there is such an address.
pub proof fn law_journal_manager(
    token: &str,
    api_base: &str,
    r: JournalManager,
    tried: Option<JournalManager>,
    usable: bool,
)
    requires
        call_ensures(JournalManager::new, (token, api_base), r),
        call_ensures(JournalManager::try_new, (token, api_base), tried),
        call_ensures(JournalManager::has_usable_token, (&r,), usable),
    ensures
        web_address::joined_url(api_base@, "api/v1/journals/"@) == Some(r.base()),
        r.token() == token@,
        tried is Some <==> web_address::joined_url(api_base@, "api/v1/journals/"@) is Some,
        tried matches Some(m) ==> m.base() == r.base() && m.token() == token@,
        usable <==> request::is_usable(token@),
{
    request::lemma_usable(token@);
}

/// One journal is fetched by getting the address that is its whole uid and a slash, below that
/// of the journals.
pub proof fn law_fetch_journal(
    manager: &JournalManager,
    uid: &str,
    path: Seq<char>,
    r: Result<Request<()>, Error>,
    tried: Result<Option<Request<()>>, Error>,
)
    requires
        laws::made_of(path, uid@, seq!['/']),
        call_ensures(JournalManager::fetch, (manager, uid), r),
        call_ensures(JournalManager::try_fetch, (manager, uid), tried),
    ensures
        sends_if_any(
            r,
            Method::Get,
            web_address::joined_url(manager.base(), path),
            manager.token(),
        ),
        tries_to_send(
            tried,
            Method::Get,
            web_address::joined_url(manager.base(), path),
            manager.token(),
        ),
{
    lemma_item(r, tried, Method::Get, manager.base(), uid@, path, manager.token());
}

/// All journals are listed by getting the address of the journals.
pub proof fn law_list_journals(manager: &JournalManager, r: Request<()>)
    requires
        call_ensures(JournalManager::list, (manager,), r),
    ensures
        sends(r, Method::Get, manager.base(), manager.token()),
{
    request::lemma_json_headers(r.headers, manager.token());
}

/// Whether this is a journal as it is sent: all that the journal holds, but the newest entry.
pub open spec fn is_written_journal(json: JournalJson, subject: &Journal) -> bool {
    &&& json.uid@ == subject.uid@
    &&& json.version == subject.version
    &&& json.owner@ == subject.owner@
    &&& codec::base64_bytes(json.content@) == Some(subject.content@)
    &&& json.read_only == Some(subject.status.read_only())
    &&& json.key is Some <==> subject.key is Some
    &&& json.key matches Some(k) ==> codec::base64_bytes(k@) == Some(subject.key->Some_0@)
    &&& json.last_uid is None
}

proof fn lemma_written_journal(json: JournalJson, subject: &Journal)
    requires
        json@ == subject@.json(),
    ensures
        is_written_journal(json, subject),
{
    codec::lemma_base64_round_trip(subject.content@);
    assert(json@.key == text::optional(json.key));
    assert(json@.last_uid == text::optional(json.last_uid));
    assert(subject@.key == crate::bytes::optional(subject.key));
    if let Some(k) = subject.key {
        codec::lemma_base64_round_trip(k@);
    }
}

/// A journal is added by posting it, whole, to the address of the journals.
pub proof fn law_create_journal(
    manager: &JournalManager,
    subject: &Journal,
    r: Request<JournalJson>,
)
    requires
        call_ensures(JournalManager::create, (manager, subject), r),
    ensures
        sends(r, Method::Post, manager.base(), manager.token()),
        is_written_journal(r.body, subject),
{
    request::lemma_json_headers(r.headers, manager.token());
    lemma_written_journal(r.body, subject);
}

/// A journal is replaced by putting it, whole, to its address, and removed by deleting that
/// address: its whole uid and a slash, below that of the journals.
pub proof fn law_update_and_delete_journal(
    manager: &JournalManager,
    subject: &Journal,
    path: Seq<char>,
    put: Result<Request<JournalJson>, Error>,
    tried_put: Result<Option<Request<JournalJson>>, Error>,
    deleted: Result<Request<()>, Error>,
    tried_deleted: Result<Option<Request<()>>, Error>,
)
    requires
        laws::made_of(path, subject.uid@, seq!['/']),
        call_ensures(JournalManager::update, (manager, subject), put),
        call_ensures(JournalManager::try_update, (manager, subject), tried_put),
        call_ensures(JournalManager::delete, (manager, subject), deleted),
        call_ensures(JournalManager::try_delete, (manager, subject), tried_deleted),
    ensures
        sends_if_any(
            put,
            Method::Put,
            web_address::joined_url(manager.base(), path),
            manager.token(),
        ),
        tries_to_send(
            tried_put,
            Method::Put,
            web_address::joined_url(manager.base(), path),
            manager.token(),
        ),
        put matches Ok(q) ==> is_written_journal(q.body, subject),
        tried_put matches Ok(Some(q)) ==> is_written_journal(q.body, subject),
        sends_if_any(
            deleted,
            Method::Delete,
            web_address::joined_url(manager.base(), path),
            manager.token(),
        ),
        tries_to_send(
            tried_deleted,
            Method::Delete,
            web_address::joined_url(manager.base(), path),
            manager.token(),
        ),
{
    let base = manager.base();
    let token = manager.token();
    assert(subject@.uid == subject.uid@);
    lemma_item(put, tried_put, Method::Put, base, subject.uid@, path, token);
    lemma_item(deleted, tried_deleted, Method::Delete, base, subject.uid@, path, token);
    if let Ok(q) = put {
        lemma_written_journal(q.body, subject);
    }
    if let Ok(Some(q)) = tried_put {
        lemma_written_journal(q.body, subject);
    }
}

/// The entries of a journal are at the address that is a fixed start, the whole uid and a fixed
/// end, below the service; the manager keeps the whole token. There is a manager wherever there
/// is such an address.
pub proof fn law_entry_manager(
    token: &str,
    uid: &str,
    api_base: &str,
    start: Seq<char>,
    path: Seq<char>,
    r: EntryManager,
    tried: Option<EntryManager>,
    usable: bool,
)
    requires
        laws::made_of(start, "api/v1/journals/"@, uid@),
        laws::made_of(path, start, "/entries/"@),
        call_ensures(EntryManager::new, (token, uid, api_base), r),
        call_ensures(EntryManager::try_new, (token, uid, api_base), tried),
        call_ensures(EntryManager::has_usable_token, (&r,), usable),
    ensures
        web_address::joined_url(api_base@, path) == Some(r.base()),
        r.token() == token@,
        tried is Some <==> web_address::joined_url(api_base@, path) is Some,
        tried matches Some(m) ==> m.base() == r.base() && m.token() == token@,
        usable <==> request::is_usable(token@),
{
    laws::lemma_made_of(start, "api/v1/journals/"@, uid@);
    laws::lemma_made_of(path, start, "/entries/"@);
    request::lemma_usable(token@);
}

/// Whether these are the pairs that ask for the entries after `last`, where it is given, and at
/// most `limit`, where that is: one pair for each that is given, in this order, the uid whole and
/// the limit as a decimal number, and no other pair.
pub open spec fn asks_for(
    pairs: Seq<(Seq<char>, Seq<char>)>,
    last: Option<Seq<char>>,
    limit: Option<usize>,
) -> bool {
    &&& pairs.len() == (if last is Some {
        1int
    } else {
        0int
    }) + (if limit is Some {
        1int
    } else {
        0int
    })
    &&& last matches Some(uid) ==> pairs[0].0 == "last"@ && pairs[0].1 == uid
    &&& limit matches Some(n) ==> pairs.last().0 == "limit"@ && encoding::is_number(
        pairs.last().1,
        n as int,
    )
}

/// The query of a request for entries holds one pair for the entry that they come after and one
/// for the limit, where these are given, and no other.
pub proof fn law_query(last: Option<Seq<char>>, limit: Option<usize>)
    ensures
        asks_for(service::entries_query(last, limit), last, limit),
{
    if let Some(n) = limit {
        encoding::lemma_decimal_text(n as nat);
    }
}

/// Two numbers that differ are written differently, so requests that differ in the limit or in
/// the entry to start after differ in the query.
pub proof fn law_queries_are_told_apart(
    last: Option<Seq<char>>,
    limit: Option<usize>,
    other_last: Option<Seq<char>>,
    other_limit: Option<usize>,
)
    requires
        service::entries_query(last, limit) == service::entries_query(other_last, other_limit),
    ensures
        last == other_last,
        limit == other_limit,
{
    reveal_strlit("last");
    reveal_strlit("limit");
    assert("last"@.len() == 4);
    assert("limit"@.len() == 5);
    law_query(last, limit);
    law_query(other_last, other_limit);
}

/// The list of pairs that a request for entries has as its query.
pub proof fn law_list_query(last: Option<&str>, limit: Option<usize>, r: Vec<(String, String)>)
    requires
        call_ensures(service::list_query, (last, limit), r),
    ensures
        asks_for(web_address::pair_texts(r@), text::optional_ref(last), limit),
        r@.len() == (if last is Some {
            1int
        } else {
            0int
        }) + (if limit is Some {
            1int
        } else {
            0int
        }),
        last matches Some(uid) ==> r@[0].0@ == "last"@ && r@[0].1@ == uid@,
        limit matches Some(n) ==> r@.last().0@ == "limit"@ && encoding::is_number(
            r@.last().1@,
            n as int,
        ),
{
    law_query(text::optional_ref(last), limit);
    let texts = web_address::pair_texts(r@);
    assert(texts.len() == r@.len());
    if last is Some {
        assert(texts[0] == (r@[0].0@, r@[0].1@));
    }
    if limit is Some {
        assert(texts.last() == (r@.last().0@, r@.last().1@));
    }
}

/// Entries are listed by getting their address, with the query added that says after which entry
/// and how many; with no such query where neither is said.
pub proof fn law_list_entries(
    manager: &EntryManager,
    last: Option<&str>,
    limit: Option<usize>,
    r: Request<()>,
)
    requires
        call_ensures(EntryManager::list, (manager, last, limit), r),
    ensures
        last is None && limit is None ==> sends(
            r,
            Method::Get,
            manager.base(),
            manager.token(),
        ),
        last is Some || limit is Some ==> exists|pairs: Seq<(Seq<char>, Seq<char>)>|
            asks_for(pairs, text::optional_ref(last), limit) && sends(
                r,
                Method::Get,
                #[trigger] web_address::url_with_pairs(manager.base(), pairs),
                manager.token(),
            ),
{
    let pairs = service::entries_query(text::optional_ref(last), limit);
    law_query(text::optional_ref(last), limit);
    request::lemma_json_headers(r.headers, manager.token());
    if last is Some || limit is Some {
        assert(pairs.len() > 0);
        assert(r.url@ == web_address::url_with_pairs(manager.base(), pairs));
    }
}

/// Entries are added by posting them all, in their order and each whole, to their address, with
/// the query added that says after which entry.
pub proof fn law_create_entries(
    manager: &EntryManager,
    entries: &[&Entry],
    last: Option<&str>,
    r: Request<Vec<EntryJson>>,
)
    requires
        call_ensures(EntryManager::create, (manager, entries, last), r),
    ensures
        last is None ==> sends(r, Method::Post, manager.base(), manager.token()),
        last matches Some(uid) ==> sends(
            r,
            Method::Post,
            web_address::url_with_pairs(manager.base(), seq![("last"@, uid@)]),
            manager.token(),
        ),
        r.body@.len() == entries@.len(),
        forall|i: int|
            0 <= i < entries@.len() ==> (#[trigger] r.body@[i]).uid@ == entries@[i].uid@
                && codec::base64_bytes(r.body@[i].content@) == Some(entries@[i].content@),
{
    let query = service::entries_query(text::optional_ref(last), None);
    law_query(text::optional_ref(last), None);
    request::lemma_json_headers(r.headers, manager.token());
    if let Some(uid) = last {
        assert(query =~= seq![("last"@, uid@)]);
        assert(r.url@ == web_address::url_with_pairs(manager.base(), query));
    }
    assert forall|i: int| 0 <= i < entries@.len() implies (#[trigger] r.body@[i]).uid@
        == entries@[i].uid@ && codec::base64_bytes(r.body@[i].content@) == Some(
        entries@[i].content@,
    ) by {
        assert(entry::stands_for(r.body@[i]@, entries@[i]@));
    }
}

/// There is room for a query where the address of the entries and three times the uid in the
/// query stay two hundred bytes below what 32 bits can count, and always where there is no query.
pub proof fn law_room(manager: &EntryManager, last: Option<&str>, limit: Option<usize>, r: bool)
    requires
        call_ensures(EntryManager::leaves_room_for, (manager, last, limit), r),
    ensures
        last is None && limit is None ==> r,
        encode_utf8(manager.base()).len() + 3 * laws::bytes_of(last).len() + 200 <= u32::MAX ==> r,
        r && (last is Some || limit is Some) ==> encode_utf8(manager.base()).len() + 3
            * laws::bytes_of(last).len() < u32::MAX,
{
    reveal_strlit("last");
    reveal_strlit("limit");
    vstd::utf8::is_ascii_chars_encode_utf8("last"@);
    vstd::utf8::is_ascii_chars_encode_utf8("limit"@);
    reveal_with_fuel(web_address::pairs_room, 3);
    let texts = text::optional_ref(last);
    let query = service::entries_query(texts, limit);
    if let Some(n) = limit {
        encoding::lemma_decimal_size(n);
        assert(query.drop_last() =~= service::entries_query(texts, None));
    }
    if last is Some {
        assert(service::entries_query(texts, None).drop_last() =~= Seq::<
            (Seq<char>, Seq<char>),
        >::empty());
    }
}

/// A URL leaves room for no pairs where its own size can be counted in 32 bits, and each pair
/// more takes three bytes for each of its own and two for its signs.
pub proof fn law_room_for_pairs(
    url: &str,
    pairs: &Vec<(String, String)>,
    r: bool,
    more: &Vec<(String, String)>,
    s: bool,
    name: String,
    value: String,
)
    requires
        call_ensures(web_address::leaves_room, (url, pairs), r),
        call_ensures(web_address::leaves_room, (url, more), s),
        more@ == pairs@.push((name, value)),
    ensures
        pairs@.len() == 0 ==> (r <==> encode_utf8(url@).len() < u32::MAX),
        pairs@.len() == 0 ==> (s <==> encode_utf8(url@).len() + 3 * (encode_utf8(name@).len()
            + encode_utf8(value@).len()) + 2 < u32::MAX),
        s ==> r,
{
    reveal_with_fuel(web_address::pairs_room, 2);
    let texts = web_address::pair_texts(more@);
    assert(texts.drop_last() =~= web_address::pair_texts(pairs@));
    assert(texts.last() == (name@, value@));
}

/// The user infos are at one address below the service, and the manager keeps the whole token.
/// There is a manager wherever there is such an address.
pub proof fn law_user_info_manager(
    token: &str,
    api_base: &str,
    r: UserInfoManager,
    tried: Option<UserInfoManager>,
    usable: bool,
)
    requires
        call_ensures(UserInfoManager::new, (token, api_base), r),
        call_ensures(UserInfoManager::try_new, (token, api_base), tried),
        call_ensures(UserInfoManager::has_usable_token, (&r,), usable),
    ensures
        web_address::joined_url(api_base@, "api/v1/user/"@) == Some(r.base()),
        r.token() == token@,
        tried is Some <==> web_address::joined_url(api_base@, "api/v1/user/"@) is Some,
        tried matches Some(m) ==> m.base() == r.base() && m.token() == token@,
        usable <==> request::is_usable(token@),
{
    request::lemma_usable(token@);
}

/// The user info of a user is fetched by getting the address that is the whole name of the user
/// and a slash, below that of the user infos.
pub proof fn law_fetch_user_info(
    manager: &UserInfoManager,
    owner: &str,
    path: Seq<char>,
    r: Result<Request<()>, Error>,
    tried: Result<Option<Request<()>>, Error>,
)
    requires
        laws::made_of(path, owner@, seq!['/']),
        call_ensures(UserInfoManager::fetch, (manager, owner), r),
        call_ensures(UserInfoManager::try_fetch, (manager, owner), tried),
    ensures
        sends_if_any(
            r,
            Method::Get,
            web_address::joined_url(manager.base(), path),
            manager.token(),
        ),
        tries_to_send(
            tried,
            Method::Get,
            web_address::joined_url(manager.base(), path),
            manager.token(),
        ),
{
    lemma_item(r, tried, Method::Get, manager.base(), owner@, path, manager.token());
}

/// Whether this is a user info as it is sent: all that the user info holds.
pub open spec fn is_written_user_info(json: UserInfoJson, subject: &UserInfo) -> bool {
    &&& text::optional(json.owner) == text::optional(subject.owner)
    &&& json.version == subject.version
    &&& codec::base64_bytes(json.pubkey@) == Some(subject.pubkey@)
    &&& json.content is Some <==> subject.content is Some
    &&& json.content matches Some(k) ==> codec::base64_bytes(k@) == Some(subject.content->Some_0@)
}

proof fn lemma_written_user_info(json: UserInfoJson, subject: &UserInfo)
    requires
        json@ == subject@.json(),
    ensures
        is_written_user_info(json, subject),
{
    codec::lemma_base64_round_trip(subject.pubkey@);
    assert(json@.owner == text::optional(json.owner));
    assert(subject@.owner == text::optional(subject.owner));
    assert(json@.content == text::optional(json.content));
    assert(subject@.content == crate::bytes::optional(subject.content));
    if let Some(k) = subject.content {
        codec::lemma_base64_round_trip(k@);
    }
}

/// A user info is added by posting it, whole, to the address of the user infos.
pub proof fn law_create_user_info(
    manager: &UserInfoManager,
    subject: &UserInfo,
    r: Request<UserInfoJson>,
)
    requires
        call_ensures(UserInfoManager::create, (manager, subject), r),
    ensures
        sends(r, Method::Post, manager.base(), manager.token()),
        is_written_user_info(r.body, subject),
{
    request::lemma_json_headers(r.headers, manager.token());
    lemma_written_user_info(r.body, subject);
}

/// A user info is replaced by putting it, whole, to the address of its owner, and removed by
/// deleting that address: the whole name of the owner and a slash, below that of the user infos.
/// One without an owner has no such address, and is refused whatever the token is.
pub proof fn law_update_and_delete_user_info(
    manager: &UserInfoManager,
    subject: &UserInfo,
    path: Seq<char>,
    put: Result<Request<UserInfoJson>, Error>,
    tried_put: Result<Option<Request<UserInfoJson>>, Error>,
    deleted: Result<Request<()>, Error>,
    tried_deleted: Result<Option<Request<()>>, Error>,
)
    requires
        subject.owner matches Some(owner) ==> laws::made_of(path, owner@, seq!['/']),
        call_ensures(UserInfoManager::update, (manager, subject), put),
        call_ensures(UserInfoManager::try_update, (manager, subject), tried_put),
        call_ensures(UserInfoManager::delete, (manager, subject), deleted),
        call_ensures(UserInfoManager::try_delete, (manager, subject), tried_deleted),
    ensures
        subject.owner is Some ==> {
            &&& sends_if_any(
                put,
                Method::Put,
                web_address::joined_url(manager.base(), path),
                manager.token(),
            )
            &&& tries_to_send(
                tried_put,
                Method::Put,
                web_address::joined_url(manager.base(), path),
                manager.token(),
            )
            &&& sends_if_any(
                deleted,
                Method::Delete,
                web_address::joined_url(manager.base(), path),
                manager.token(),
            )
            &&& tries_to_send(
                tried_deleted,
                Method::Delete,
                web_address::joined_url(manager.base(), path),
                manager.token(),
            )
        },
        subject.owner is None ==> {
            &&& put == (Err::<Request<UserInfoJson>, Error>(Error::OwnerUnset))
            &&& tried_put == (Err::<Option<Request<UserInfoJson>>, Error>(Error::OwnerUnset))
            &&& deleted == (Err::<Request<()>, Error>(Error::OwnerUnset))
            &&& tried_deleted == (Err::<Option<Request<()>>, Error>(Error::OwnerUnset))
        },
        put matches Ok(q) ==> is_written_user_info(q.body, subject),
        tried_put matches Ok(Some(q)) ==> is_written_user_info(q.body, subject),
{
    let base = manager.base();
    let token = manager.token();
    assert(subject@.owner == text::optional(subject.owner));
    if let Some(owner) = subject.owner {
        lemma_item(put, tried_put, Method::Put, base, owner@, path, token);
        lemma_item(deleted, tried_deleted, Method::Delete, base, owner@, path, token);
    }
    if let Ok(q) = put {
        lemma_written_user_info(q.body, subject);
    }
    if let Ok(Some(q)) = tried_put {
        lemma_written_user_info(q.body, subject);
    }
}

} // verus!
