//! Laws of requests: what a client says of itself, what it proves its identity with, and how it
//! gets and gives up a token.

use vstd::prelude::*;
use crate::auth;
use crate::auth::Authenticator;
use crate::error::Error;
use crate::laws;
use crate::request;
use crate::request::{Method, Request};
use crate::web_address;

verus! {

/// Whether these are the headers of a request that takes and gives JSON and proves its identity
/// with the token: three, of which one holds the whole token behind a fixed word.
pub open spec fn carries_json_headers(
    headers: reqwest::header::HeaderMap<reqwest::header::HeaderValue>,
    token: Seq<char>,
) -> bool {
    let fields = request::header_fields(headers);
    &&& fields.dom() == set!["accept"@, "authorization"@, "content-type"@]
    &&& fields["accept"@] == "application/json"@
    &&& fields["content-type"@] == "application/json;charset=UTF-8"@
    &&& laws::made_of(fields["authorization"@], "Token "@, token)
}

/// Whether these are the headers of a request that only proves its identity with the token.
pub open spec fn carries_token_header(
    headers: reqwest::header::HeaderMap<reqwest::header::HeaderValue>,
    token: Seq<char>,
) -> bool {
    let fields = request::header_fields(headers);
    &&& fields.dom() == set!["authorization"@]
    &&& laws::made_of(fields["authorization"@], "Token "@, token)
}

/// Whether these are the headers of a request that takes a form and gives JSON.
pub open spec fn carries_form_headers(
    headers: reqwest::header::HeaderMap<reqwest::header::HeaderValue>,
) -> bool {
    let fields = request::header_fields(headers);
    &&& fields.dom() == set!["accept"@, "content-type"@]
    &&& fields["accept"@] == "application/json"@
    &&& fields["content-type"@] == "application/x-www-form-urlencoded;charset=UTF-8"@
}

/// Whether a character is a control character that cannot stand in a header: those before the
/// space, but for the tab, and the one behind the last of ASCII.
pub open spec fn is_refused_char(c: char) -> bool {
    c as int <= 8 || 10 <= c as int <= 31 || c as int == 127
}

/// Whether a text has no character that cannot stand in a header.
pub open spec fn is_usable(text: Seq<char>) -> bool {
    forall|i: int| 0 <= i < text.len() ==> !is_refused_char(#[trigger] text[i])
}

pub proof fn lemma_usable(text: Seq<char>)
    ensures
        is_usable(text) <==> request::is_header_text(text),
{
    assert forall|c: char| #[trigger] is_refused_char(c) <==> !request::is_header_char(c) by {}
    if is_usable(text) {
        assert forall|i: int| 0 <= i < text.len() implies request::is_header_char(
            #[trigger] text[i],
        ) by {
            assert(!is_refused_char(text[i]));
        }
    }
    if request::is_header_text(text) {
        assert forall|i: int| 0 <= i < text.len() implies !is_refused_char(#[trigger] text[i]) by {
            assert(request::is_header_char(text[i]));
        }
    }
}

proof fn lemma_names()
    ensures
        "accept"@ != "authorization"@,
        "accept"@ != "content-type"@,
        "authorization"@ != "content-type"@,
{
    reveal_strlit("accept");
    reveal_strlit("authorization");
    reveal_strlit("content-type");
    assert("accept"@.len() == 6);
    assert("authorization"@.len() == 13);
    assert("content-type"@.len() == 12);
}

pub proof fn lemma_json_headers(
    headers: reqwest::header::HeaderMap<reqwest::header::HeaderValue>,
    token: Seq<char>,
)
    requires
        request::header_fields(headers) == request::base_fields(token),
    ensures
        carries_json_headers(headers, token),
{
    lemma_names();
    let fields = request::header_fields(headers);
    assert(fields.dom() =~= set!["accept"@, "authorization"@, "content-type"@]);
    laws::lemma_made_of(fields["authorization"@], "Token "@, token);
}

pub proof fn lemma_token_header(
    headers: reqwest::header::HeaderMap<reqwest::header::HeaderValue>,
    token: Seq<char>,
)
    requires
        request::header_fields(headers) == request::authorization_fields(token),
    ensures
        carries_token_header(headers, token),
{
    let fields = request::header_fields(headers);
    assert(fields.dom() =~= set!["authorization"@]);
    laws::lemma_made_of(fields["authorization"@], "Token "@, token);
}

pub proof fn lemma_form_headers(
    headers: reqwest::header::HeaderMap<reqwest::header::HeaderValue>,
)
    requires
        request::header_fields(headers) == request::form_fields(),
    ensures
        carries_form_headers(headers),
{
    lemma_names();
    let fields = request::header_fields(headers);
    assert(fields.dom() =~= set!["accept"@, "content-type"@]);
}

/// A text can stand in a header exactly where it has no control character but tabs.
pub proof fn law_header_text(text: &str, r: bool)
    requires
        call_ensures(request::can_stand_in_header, (text,), r),
    ensures
        r <==> is_usable(text@),
{
    lemma_usable(text@);
}

/// The headers of requests hold the media types and the whole token, and nothing else; where the
/// token cannot stand in a header, there are none.
pub proof fn law_headers(
    token: &str,
    capacity: usize,
    base: reqwest::header::HeaderMap<reqwest::header::HeaderValue>,
    identity: Result<reqwest::header::HeaderMap<reqwest::header::HeaderValue>, Error>,
    form: reqwest::header::HeaderMap<reqwest::header::HeaderValue>,
)
    requires
        call_ensures(request::get_base_headers, (token, capacity), base),
        call_ensures(request::authorization_headers, (token,), identity),
        call_ensures(request::form_headers, (), form),
    ensures
        carries_json_headers(base, token@),
        identity is Ok <==> is_usable(token@),
        identity is Ok ==> carries_token_header(identity->Ok_0, token@),
        identity matches Err(e) ==> e == Error::InvalidHeader,
        carries_form_headers(form),
{
    lemma_usable(token@);
    lemma_json_headers(base, token@);
    lemma_form_headers(form);
    if identity is Ok {
        lemma_token_header(identity->Ok_0, token@);
    }
}

/// A request does what it is made for, at the URL that it is made for, with the body that it is
/// given.
pub proof fn law_requests<B>(
    method: Method,
    url: String,
    token: &str,
    body: B,
    r: Request<B>,
    posted: Result<Request<()>, Error>,
    username: &str,
    password: &str,
    login: Request<Vec<(String, String)>>,
)
    requires
        call_ensures(request::json_request::<B>, (method, url, token, body), r),
        call_ensures(request::token_request, (url, token), posted),
        call_ensures(request::login_request, (url, username, password), login),
    ensures
        r.method == method,
        r.url@ == url@,
        r.body == body,
        carries_json_headers(r.headers, token@),
        posted is Ok <==> is_usable(token@),
        posted matches Ok(q) ==> q.method == Method::Post && q.url@ == url@ && carries_token_header(
            q.headers,
            token@,
        ),
        posted matches Err(e) ==> e == Error::InvalidHeader,
        login.method == Method::Post,
        login.url@ == url@,
        carries_form_headers(login.headers),
        holds_login(login.body@, username@, password@),
{
    lemma_usable(token@);
    lemma_json_headers(r.headers, token@);
    lemma_form_headers(login.headers);
    if let Ok(q) = posted {
        lemma_token_header(q.headers, token@);
    }
    lemma_login(login.body@, username@, password@);
}

/// Whether a form holds a name and a password, each under its name, in this order, and nothing
/// else.
pub open spec fn holds_login(
    form: Seq<(String, String)>,
    username: Seq<char>,
    password: Seq<char>,
) -> bool {
    &&& form.len() == 2
    &&& form[0].0@ == "username"@
    &&& form[0].1@ == username
    &&& form[1].0@ == "password"@
    &&& form[1].1@ == password
}

proof fn lemma_login(form: Seq<(String, String)>, username: Seq<char>, password: Seq<char>)
    requires
        web_address::pair_texts(form) == request::login_form(username, password),
    ensures
        holds_login(form, username, password),
{
    let texts = web_address::pair_texts(form);
    assert(texts.len() == 2);
    assert(texts[0] == ("username"@, username));
    assert(texts[1] == ("password"@, password));
    assert(texts[0] == (form[0].0@, form[0].1@));
    assert(texts[1] == (form[1].0@, form[1].1@));
}

/// A client calls itself by its whole name, a space, and the name and version of this library.
pub proof fn law_user_agent(client_name: &str, r: String)
    requires
        call_ensures(auth::user_agent, (client_name,), r),
    ensures
        laws::made_of(r@, client_name@, r@.skip(client_name@.len() as int)),
        laws::made_of(r@.skip(client_name@.len() as int), seq![' '], "etesync/0.1.0"@),
{
    reveal_strlit(" ");
    let agent = "etesync/0.1.0"@;
    assert(" "@ =~= seq![' ']);
    assert(r@ =~= client_name@ + (seq![' '] + agent));
    laws::lemma_made_of(r@, client_name@, seq![' '] + agent);
    assert(r@.skip(client_name@.len() as int) == seq![' '] + agent);
    laws::lemma_made_of(seq![' '] + agent, seq![' '], agent);
    laws::lemma_made_of(r@, client_name@, r@.skip(client_name@.len() as int));
}

/// The account of a test user is emptied by posting the token to one address below the service.
/// Where that is no URL the error says so; only otherwise a token that cannot stand in a header
/// is refused.
pub proof fn law_test_reset(token: &str, api_base: &str, r: Result<Request<()>, Error>)
    requires
        call_ensures(auth::test_reset, (token, api_base), r),
    ensures
        match web_address::joined_url(api_base@, "reset/"@) {
            Some(url) => if is_usable(token@) {
                r is Ok && r->Ok_0.method == Method::Post && r->Ok_0.url@ == url
                    && carries_token_header(r->Ok_0.headers, token@)
            } else {
                r == (Err::<Request<()>, Error>(Error::InvalidHeader))
            },
            None => r == (Err::<Request<()>, Error>(Error::InvalidUrl)),
        },
{
    lemma_usable(token@);
    if let Ok(q) = r {
        lemma_token_header(q.headers, token@);
    }
}

/// An authenticator is at the URL that it is made for, and there is one for each URL.
pub proof fn law_authenticator(
    api_base: &str,
    r: Authenticator,
    tried: Option<Authenticator>,
)
    requires
        call_ensures(Authenticator::try_new, (api_base,), tried),
        call_ensures(Authenticator::new, (api_base,), r),
    ensures
        web_address::parsed_url(api_base@) == Some(r.base()),
        tried is Some <==> web_address::parsed_url(api_base@) is Some,
        tried is Some ==> tried->Some_0.base() == r.base(),
{
}

/// A token is asked for by posting the whole name and the whole password as a form, and given up
/// by posting it, each to one address below the service.
pub proof fn law_tokens(
    subject: &Authenticator,
    username: &str,
    password: &str,
    asked: Result<Request<Vec<(String, String)>>, Error>,
    token: &str,
    given_up: Result<Request<()>, Error>,
)
    requires
        call_ensures(Authenticator::get_token, (subject, username, password), asked),
        call_ensures(Authenticator::invalidate_token, (subject, token), given_up),
    ensures
        match web_address::joined_url(subject.base(), "api-token-auth/"@) {
            Some(url) => asked is Ok && asked->Ok_0.method == Method::Post && asked->Ok_0.url@
                == url && carries_form_headers(asked->Ok_0.headers) && holds_login(
                asked->Ok_0.body@,
                username@,
                password@,
            ),
            None => asked == (Err::<Request<Vec<(String, String)>>, Error>(Error::InvalidUrl)),
        },
        match web_address::joined_url(subject.base(), "api/logout/"@) {
            Some(url) => if is_usable(token@) {
                given_up is Ok && given_up->Ok_0.method == Method::Post && given_up->Ok_0.url@
                    == url && carries_token_header(given_up->Ok_0.headers, token@)
            } else {
                given_up == (Err::<Request<()>, Error>(Error::InvalidHeader))
            },
            None => given_up == (Err::<Request<()>, Error>(Error::InvalidUrl)),
        },
{
    lemma_usable(token@);
    if let Ok(q) = asked {
        lemma_form_headers(q.headers);
        lemma_login(q.body@, username@, password@);
    }
    if let Ok(q) = given_up {
        lemma_token_header(q.headers, token@);
    }
}

/// Reading relative to a base gives the URL that there is, or the error that there is none.
pub proof fn law_resolve(base: &str, input: &str, r: Result<String, Error>)
    requires
        call_ensures(web_address::resolve, (base, input), r),
    ensures
        r is Ok <==> web_address::joined_url(base@, input@) is Some,
        r matches Ok(url) ==> web_address::joined_url(base@, input@) == Some(url@),
        r matches Err(e) ==> e == Error::InvalidUrl,
{
}

/// What an error says of itself: the reason that a cipher gave, whole, or one fixed sentence for
/// each kind.
pub proof fn law_messages(error: &Error, r: String)
    requires
        call_ensures(Error::message, (error,), r),
    ensures
        error matches Error::Crypto(reason) ==> r@ == reason@,
        error is HmacMismatch ==> r@ == "HMAC mismatch"@,
        error is UndecodableUid ==> r@ == "Failed decoding uid"@,
        error is NoKeypair ==> r@ == "Can't get keypair for someone else's user info"@,
        error is NoContent ==> r@ == "Can't verify someone else's user info"@,
        error is OwnerUnset ==> r@ == "Owner is unset"@,
        error is InvalidUrl ==> r@ == "Invalid URL"@,
        error is InvalidHeader ==> r@ == "Invalid header"@,
{
}

} // verus!
