//! The requests that journals, entries and user infos are read and written with.

use vstd::prelude::*;
use crate::entry;
use crate::entry::{Entry, EntryJson};
use crate::error::Error;
use crate::journal;
use crate::journal::{Journal, JournalJson};
use crate::request;
use crate::request::{Method, Request};
use crate::text;
use crate::user_info;
use crate::user_info::{UserInfo, UserInfoJson};
use crate::web_address;

verus! {

/// The relative URL of what is called `name`.
pub open spec fn item_path(name: Seq<char>) -> Seq<char> {
    name + "/"@
}

/// Whether `r` is the request on what is called `name`, or the error where that has no URL.
pub open spec fn item_outcome<B>(
    r: Result<Request<B>, Error>,
    method: Method,
    base: Seq<char>,
    name: Seq<char>,
    token: Seq<char>,
) -> bool {
    match web_address::joined_url(base, item_path(name)) {
        Some(url) => r is Ok && request::asks(r->Ok_0, method, url, request::base_fields(token)),
        None => r == (Err::<Request<B>, Error>(Error::InvalidUrl)),
    }
}

/// Whether nothing but the lack of a URL keeps a request on what is called `name` from being
/// built: the token can stand in a header, or is not needed.
pub open spec fn is_buildable(base: Seq<char>, name: Seq<char>, token: Seq<char>) -> bool {
    web_address::joined_url(base, item_path(name)) is Some ==> request::is_header_text(token)
}

/// Whether `r` is the request on what is called `name`, the error where that has no URL, or
/// `None` where it has one and the token cannot stand in a header.
pub open spec fn try_outcome<B>(
    r: Result<Option<Request<B>>, Error>,
    method: Method,
    base: Seq<char>,
    name: Seq<char>,
    token: Seq<char>,
) -> bool {
    match r {
        Ok(Some(request)) => {
            &&& is_buildable(base, name, token)
            &&& item_outcome(Ok::<Request<B>, Error>(request), method, base, name, token)
        },
        Ok(None) => !is_buildable(base, name, token),
        Err(e) => item_outcome(Err::<Request<B>, Error>(e), method, base, name, token),
    }
}

fn item_url(base: &str, name: &str) -> (r: Result<String, Error>)
    ensures
        match web_address::joined_url(base@, item_path(name@)) {
            Some(url) => r is Ok && r->Ok_0@ == url,
            None => r == (Err::<String, Error>(Error::InvalidUrl)),
        },
{
    web_address::resolve(base, text::joined(name, "/").as_str())
}

fn can_build(base: &str, name: &str, token: &str) -> (r: bool)
    ensures
        r == is_buildable(base@, name@, token@),
{
    item_url(base, name).is_err() || request::can_stand_in_header(token)
}

/// The part of the service that holds journals.
pub struct JournalManager {
    api_base: String,
    auth_token: String,
}

impl JournalManager {
    /// The URL of the journals.
    pub closed spec fn base(&self) -> Seq<char> {
        self.api_base@
    }

    /// The token that requests prove their identity with.
    pub closed spec fn token(&self) -> Seq<char> {
        self.auth_token@
    }

    /// The manager of the service at a URL.
    pub fn new(auth_token: &str, api_base: &str) -> (r: JournalManager)
        requires
            web_address::joined_url(api_base@, "api/v1/journals/"@) is Some,
        ensures
            web_address::joined_url(api_base@, "api/v1/journals/"@) == Some(r.base()),
            r.token() == auth_token@,
    {
        JournalManager {
            api_base: web_address::join_url(api_base, "api/v1/journals/").unwrap(),
            auth_token: auth_token.to_owned(),
        }
    }

    /// The manager of the service at an address, or `None` where that is no URL that
    /// journals can be below.
    pub fn try_new(auth_token: &str, api_base: &str) -> (r: Option<JournalManager>)
        ensures
            r is Some <==> web_address::joined_url(api_base@, "api/v1/journals/"@) is Some,
            r matches Some(m) ==> web_address::joined_url(api_base@, "api/v1/journals/"@) == Some(
                m.base(),
            ) && m.token() == auth_token@,
    {
        match web_address::join_url(api_base, "api/v1/journals/") {
            Ok(_) => Some(JournalManager::new(auth_token, api_base)),
            Err(_) => None,
        }
    }

    /// Whether the token can stand in a header, as every request that is built needs it to.
    pub fn has_usable_token(&self) -> (r: bool)
        ensures
            r == request::is_header_text(self.token()),
    {
        request::can_stand_in_header(self.auth_token.as_str())
    }

    /// The request for one journal. The answer is a [`JournalJson`].
    pub fn fetch(&self, journal_uid: &str) -> (r: Result<Request<()>, Error>)
        requires
            is_buildable(self.base(), journal_uid@, self.token()),
        ensures
            item_outcome(r, Method::Get, self.base(), journal_uid@, self.token()),
    {
        let url = item_url(self.api_base.as_str(), journal_uid)?;
        Ok(request::json_request(Method::Get, url, self.auth_token.as_str(), ()))
    }

    /// The request for one journal, or `None` where the journal has a URL and the token cannot
    /// stand in a header.
    pub fn try_fetch(&self, journal_uid: &str) -> (r: Result<Option<Request<()>>, Error>)
        ensures
            try_outcome(r, Method::Get, self.base(), journal_uid@, self.token()),
    {
        if can_build(self.api_base.as_str(), journal_uid, self.auth_token.as_str()) {
            Ok(Some(self.fetch(journal_uid)?))
        } else {
            Ok(None)
        }
    }

    /// The request for all journals. The answer is a list of [`JournalJson`].
    pub fn list(&self) -> (r: Request<()>)
        requires
            request::is_header_text(self.token()),
        ensures
            request::asks(r, Method::Get, self.base(), request::base_fields(self.token())),
    {
        request::json_request(Method::Get, self.api_base.clone(), self.auth_token.as_str(), ())
    }

    /// The request that adds a journal.
    pub fn create(&self, journal: &Journal) -> (r: Request<JournalJson>)
        requires
            request::is_header_text(self.token()),
        ensures
            request::asks(r, Method::Post, self.base(), request::base_fields(self.token())),
            r.body@ == journal@.json(),
            journal::stands_for(r.body@, journal@),
    {
        request::json_request(
            Method::Post,
            self.api_base.clone(),
            self.auth_token.as_str(),
            journal.to_json(),
        )
    }

    /// The request that replaces a journal.
    pub fn update(&self, journal: &Journal) -> (r: Result<Request<JournalJson>, Error>)
        requires
            is_buildable(self.base(), journal@.uid, self.token()),
        ensures
            item_outcome(r, Method::Put, self.base(), journal@.uid, self.token()),
            r matches Ok(request) ==> request.body@ == journal@.json() && journal::stands_for(
                request.body@,
                journal@,
            ),
    {
        let url = item_url(self.api_base.as_str(), journal.uid())?;
        Ok(request::json_request(Method::Put, url, self.auth_token.as_str(), journal.to_json()))
    }

    /// The request that replaces a journal, or `None` where the journal has a URL and the token
    /// cannot stand in a header.
    pub fn try_update(&self, journal: &Journal) -> (r: Result<Option<Request<JournalJson>>, Error>)
        ensures
            try_outcome(r, Method::Put, self.base(), journal@.uid, self.token()),
            r matches Ok(Some(request)) ==> request.body@ == journal@.json()
                && journal::stands_for(request.body@, journal@),
    {
        if can_build(self.api_base.as_str(), journal.uid(), self.auth_token.as_str()) {
            Ok(Some(self.update(journal)?))
        } else {
            Ok(None)
        }
    }

    /// The request that removes a journal.
    pub fn delete(&self, journal: &Journal) -> (r: Result<Request<()>, Error>)
        requires
            is_buildable(self.base(), journal@.uid, self.token()),
        ensures
            item_outcome(r, Method::Delete, self.base(), journal@.uid, self.token()),
    {
        let url = item_url(self.api_base.as_str(), journal.uid())?;
        Ok(request::json_request(Method::Delete, url, self.auth_token.as_str(), ()))
    }

    /// The request that removes a journal, or `None` where the journal has a URL and the token
    /// cannot stand in a header.
    pub fn try_delete(&self, journal: &Journal) -> (r: Result<Option<Request<()>>, Error>)
        ensures
            try_outcome(r, Method::Delete, self.base(), journal@.uid, self.token()),
    {
        if can_build(self.api_base.as_str(), journal.uid(), self.auth_token.as_str()) {
            Ok(Some(self.delete(journal)?))
        } else {
            Ok(None)
        }
    }
}

/// The relative URL of the entries of a journal.
pub open spec fn entries_path(journal_uid: Seq<char>) -> Seq<char> {
    "api/v1/journals/"@ + journal_uid + "/entries/"@
}

/// The query of a request for entries: those after `last`, and at most `limit`.
pub open spec fn entries_query(last: Option<Seq<char>>, limit: Option<usize>) -> Seq<
    (Seq<char>, Seq<char>),
> {
    let after = match last {
        Some(uid) => seq![("last"@, uid)],
        None => Seq::<(Seq<char>, Seq<char>)>::empty(),
    };
    match limit {
        Some(n) => after.push(("limit"@, text::decimal_text(n as nat))),
        None => after,
    }
}

/// A URL with a query added, or the URL itself where the query is empty.
pub open spec fn url_with_query(url: Seq<char>, query: Seq<(Seq<char>, Seq<char>)>) -> Seq<char> {
    if query.len() == 0 {
        url
    } else {
        web_address::url_with_pairs(url, query)
    }
}

/// The query of a request for entries: those after `last_uid`, and at most `limit`.
pub fn list_query(last_uid: Option<&str>, limit: Option<usize>) -> (r: Vec<(String, String)>)
    ensures
        web_address::pair_texts(r@) == entries_query(text::optional_ref(last_uid), limit),
{
    let mut query: Vec<(String, String)> = Vec::new();
    if let Some(last_uid) = last_uid {
        query.push(("last".to_owned(), last_uid.to_owned()));
    }
    if let Some(limit) = limit {
        query.push(("limit".to_owned(), text::decimal(limit)));
    }
    proof {
        assert(web_address::pair_texts(query@) =~= entries_query(
            text::optional_ref(last_uid),
            limit,
        ));
    }
    query
}

/// The part of the service that holds the entries of one journal.
pub struct EntryManager {
    /// The address of the service.
    service: String,
    /// The URL of the entries, relative to that address.
    path: String,
    /// The URL of the entries.
    api_base: String,
    auth_token: String,
}

impl EntryManager {
    #[verifier::type_invariant]
    spec fn has_url(self) -> bool {
        web_address::joined_url(self.service@, self.path@) == Some(self.api_base@)
    }

    /// The URL of the entries.
    pub closed spec fn base(&self) -> Seq<char> {
        self.api_base@
    }

    /// The token that requests prove their identity with.
    pub closed spec fn token(&self) -> Seq<char> {
        self.auth_token@
    }

    /// Whether a request for the entries after `last`, and at most `limit`, has a query that
    /// fits behind the URL of the entries.
    pub open spec fn has_room_for(&self, last: Option<Seq<char>>, limit: Option<usize>) -> bool {
        entries_query(last, limit).len() > 0 ==> web_address::has_room(
            self.base(),
            entries_query(last, limit),
        )
    }

    /// The manager of the entries of a journal, of the service at a URL.
    pub fn new(auth_token: &str, journal_uid: &str, api_base: &str) -> (r: EntryManager)
        requires
            web_address::joined_url(api_base@, entries_path(journal_uid@)) is Some,
        ensures
            web_address::joined_url(api_base@, entries_path(journal_uid@)) == Some(r.base()),
            r.token() == auth_token@,
    {
        let start = text::joined("api/v1/journals/", journal_uid);
        let path = text::joined(start.as_str(), "/entries/");
        EntryManager {
            service: api_base.to_owned(),
            api_base: web_address::join_url(api_base, path.as_str()).unwrap(),
            path,
            auth_token: auth_token.to_owned(),
        }
    }

    /// The manager of the entries of a journal, of the service at an address, or `None`
    /// where that is no URL that entries can be below.
    pub fn try_new(auth_token: &str, journal_uid: &str, api_base: &str) -> (r: Option<
        EntryManager,
    >)
        ensures
            r is Some <==> web_address::joined_url(
                api_base@,
                entries_path(journal_uid@),
            ) is Some,
            r matches Some(m) ==> web_address::joined_url(api_base@, entries_path(journal_uid@))
                == Some(m.base()) && m.token() == auth_token@,
    {
        let start = text::joined("api/v1/journals/", journal_uid);
        let path = text::joined(start.as_str(), "/entries/");
        match web_address::join_url(api_base, path.as_str()) {
            Ok(_) => Some(EntryManager::new(auth_token, journal_uid, api_base)),
            Err(_) => None,
        }
    }

    /// Whether the token can stand in a header, as every request that is built needs it to.
    pub fn has_usable_token(&self) -> (r: bool)
        ensures
            r == request::is_header_text(self.token()),
    {
        request::can_stand_in_header(self.auth_token.as_str())
    }

    /// Whether a request for the entries after `last_uid`, and at most `limit`, has a query
    /// that fits behind the URL of the entries.
    pub fn leaves_room_for(&self, last_uid: Option<&str>, limit: Option<usize>) -> (r: bool)
        ensures
            r == self.has_room_for(text::optional_ref(last_uid), limit),
    {
        let query = list_query(last_uid, limit);
        query.len() == 0 || web_address::leaves_room(self.api_base.as_str(), &query)
    }

    fn url(&self, last_uid: Option<&str>, limit: Option<usize>) -> (r: String)
        requires
            self.has_room_for(text::optional_ref(last_uid), limit),
        ensures
            r@ == url_with_query(
                self.base(),
                entries_query(text::optional_ref(last_uid), limit),
            ),
    {
        proof {
            use_type_invariant(self);
        }
        let query = list_query(last_uid, limit);
        if query.len() == 0 {
            self.api_base.clone()
        } else {
            let base = self.service.as_str();
            web_address::join_url_with_pairs(base, self.path.as_str(), &query).unwrap()
        }
    }

    /// The request for entries: those after `last_uid`, where it is given, and at most
    /// `limit`, where that is. The answer is a list of [`EntryJson`].
    pub fn list(&self, last_uid: Option<&str>, limit: Option<usize>) -> (r: Request<()>)
        requires
            request::is_header_text(self.token()),
            self.has_room_for(text::optional_ref(last_uid), limit),
        ensures
            request::asks(
                r,
                Method::Get,
                url_with_query(
                    self.base(),
                    entries_query(text::optional_ref(last_uid), limit),
                ),
                request::base_fields(self.token()),
            ),
    {
        let url = self.url(last_uid, limit);
        request::json_request(Method::Get, url, self.auth_token.as_str(), ())
    }

    /// The request that adds entries, in their order, after the one with the uid `last_uid`,
    /// or as the first.
    pub fn create(&self, entries: &[&Entry], last_uid: Option<&str>) -> (r: Request<
        Vec<EntryJson>,
    >)
        requires
            request::is_header_text(self.token()),
            self.has_room_for(text::optional_ref(last_uid), None),
        ensures
            request::asks(
                r,
                Method::Post,
                url_with_query(
                    self.base(),
                    entries_query(text::optional_ref(last_uid), None),
                ),
                request::base_fields(self.token()),
            ),
            r.body@.len() == entries@.len(),
            forall|i: int|
                0 <= i < entries@.len() ==> (#[trigger] r.body@[i])@ == entries@[i]@.json()
                    && entry::stands_for(r.body@[i]@, entries@[i]@),
    {
        let url = self.url(last_uid, None);
        let body = Entry::to_json_list(entries);
        request::json_request(Method::Post, url, self.auth_token.as_str(), body)
    }
}

/// The part of the service that holds user infos.
pub struct UserInfoManager {
    api_base: String,
    auth_token: String,
}

impl UserInfoManager {
    /// The URL of the user infos.
    pub closed spec fn base(&self) -> Seq<char> {
        self.api_base@
    }

    /// The token that requests prove their identity with.
    pub closed spec fn token(&self) -> Seq<char> {
        self.auth_token@
    }

    /// The manager of the service at a URL.
    pub fn new(auth_token: &str, api_base: &str) -> (r: UserInfoManager)
        requires
            web_address::joined_url(api_base@, "api/v1/user/"@) is Some,
        ensures
            web_address::joined_url(api_base@, "api/v1/user/"@) == Some(r.base()),
            r.token() == auth_token@,
    {
        UserInfoManager {
            api_base: web_address::join_url(api_base, "api/v1/user/").unwrap(),
            auth_token: auth_token.to_owned(),
        }
    }

    /// The manager of the service at an address, or `None` where that is no URL that user
    /// infos can be below.
    pub fn try_new(auth_token: &str, api_base: &str) -> (r: Option<UserInfoManager>)
        ensures
            r is Some <==> web_address::joined_url(api_base@, "api/v1/user/"@) is Some,
            r matches Some(m) ==> web_address::joined_url(api_base@, "api/v1/user/"@) == Some(
                m.base(),
            ) && m.token() == auth_token@,
    {
        match web_address::join_url(api_base, "api/v1/user/") {
            Ok(_) => Some(UserInfoManager::new(auth_token, api_base)),
            Err(_) => None,
        }
    }

    /// Whether the token can stand in a header, as every request that is built needs it to.
    pub fn has_usable_token(&self) -> (r: bool)
        ensures
            r == request::is_header_text(self.token()),
    {
        request::can_stand_in_header(self.auth_token.as_str())
    }

    /// The request for the user info of a user. The answer is a [`UserInfoJson`].
    pub fn fetch(&self, owner: &str) -> (r: Result<Request<()>, Error>)
        requires
            is_buildable(self.base(), owner@, self.token()),
        ensures
            item_outcome(r, Method::Get, self.base(), owner@, self.token()),
    {
        let url = item_url(self.api_base.as_str(), owner)?;
        Ok(request::json_request(Method::Get, url, self.auth_token.as_str(), ()))
    }

    /// The request for the user info of a user, or `None` where that has a URL and the token
    /// cannot stand in a header.
    pub fn try_fetch(&self, owner: &str) -> (r: Result<Option<Request<()>>, Error>)
        ensures
            try_outcome(r, Method::Get, self.base(), owner@, self.token()),
    {
        if can_build(self.api_base.as_str(), owner, self.auth_token.as_str()) {
            Ok(Some(self.fetch(owner)?))
        } else {
            Ok(None)
        }
    }

    /// The request that adds a user info.
    pub fn create(&self, user_info: &UserInfo) -> (r: Request<UserInfoJson>)
        requires
            request::is_header_text(self.token()),
        ensures
            request::asks(r, Method::Post, self.base(), request::base_fields(self.token())),
            r.body@ == user_info@.json(),
            user_info::stands_for(r.body@, user_info@),
    {
        request::json_request(
            Method::Post,
            self.api_base.clone(),
            self.auth_token.as_str(),
            user_info.to_json(),
        )
    }

    /// The request that replaces a user info.
    pub fn update(&self, user_info: &UserInfo) -> (r: Result<Request<UserInfoJson>, Error>)
        requires
            user_info@.owner matches Some(owner) ==> is_buildable(self.base(), owner, self.token()),
        ensures
            match user_info@.owner {
                Some(owner) => item_outcome(r, Method::Put, self.base(), owner, self.token()),
                None => r == (Err::<Request<UserInfoJson>, Error>(Error::OwnerUnset)),
            },
            r matches Ok(request) ==> request.body@ == user_info@.json() && user_info::stands_for(
                request.body@,
                user_info@,
            ),
    {
        let owner = match &user_info.owner {
            Some(owner) => owner,
            None => return Err(Error::OwnerUnset),
        };
        let url = item_url(self.api_base.as_str(), owner.as_str())?;
        let body = user_info.to_json();
        Ok(request::json_request(Method::Put, url, self.auth_token.as_str(), body))
    }

    /// The request that replaces a user info, or `None` where that has an owner and a URL and
    /// the token cannot stand in a header.
    pub fn try_update(&self, user_info: &UserInfo) -> (r: Result<
        Option<Request<UserInfoJson>>,
        Error,
    >)
        ensures
            match user_info@.owner {
                Some(owner) => try_outcome(r, Method::Put, self.base(), owner, self.token()),
                None => r == (Err::<Option<Request<UserInfoJson>>, Error>(Error::OwnerUnset)),
            },
            r matches Ok(Some(request)) ==> request.body@ == user_info@.json()
                && user_info::stands_for(request.body@, user_info@),
    {
        if self.can_build_for(user_info) {
            Ok(Some(self.update(user_info)?))
        } else {
            Ok(None)
        }
    }

    /// The request that removes a user info.
    pub fn delete(&self, user_info: &UserInfo) -> (r: Result<Request<()>, Error>)
        requires
            user_info@.owner matches Some(owner) ==> is_buildable(self.base(), owner, self.token()),
        ensures
            match user_info@.owner {
                Some(owner) => item_outcome(r, Method::Delete, self.base(), owner, self.token()),
                None => r == (Err::<Request<()>, Error>(Error::OwnerUnset)),
            },
    {
        let owner = match &user_info.owner {
            Some(owner) => owner,
            None => return Err(Error::OwnerUnset),
        };
        let url = item_url(self.api_base.as_str(), owner.as_str())?;
        Ok(request::json_request(Method::Delete, url, self.auth_token.as_str(), ()))
    }

    /// The request that removes a user info, or `None` where that has an owner and a URL and
    /// the token cannot stand in a header.
    pub fn try_delete(&self, user_info: &UserInfo) -> (r: Result<Option<Request<()>>, Error>)
        ensures
            match user_info@.owner {
                Some(owner) => try_outcome(r, Method::Delete, self.base(), owner, self.token()),
                None => r == (Err::<Option<Request<()>>, Error>(Error::OwnerUnset)),
            },
    {
        if self.can_build_for(user_info) {
            Ok(Some(self.delete(user_info)?))
        } else {
            Ok(None)
        }
    }

    fn can_build_for(&self, user_info: &UserInfo) -> (r: bool)
        ensures
            r == (user_info@.owner matches Some(owner) ==> is_buildable(
                self.base(),
                owner,
                self.token(),
            )),
    {
        match &user_info.owner {
            Some(owner) => can_build(
                self.api_base.as_str(),
                owner.as_str(),
                self.auth_token.as_str(),
            ),
            None => true,
        }
    }
}

} // verus!
