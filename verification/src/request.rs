//! HTTP requests, as values.

use vstd::prelude::*;
use reqwest::header;
use crate::error::Error;
use crate::text;
use crate::web_address;

verus! {

#[verifier::external_type_specification]
#[verifier::external_body]
#[verifier::reject_recursive_types(T)]
pub struct ExHeaderMap<T>(reqwest::header::HeaderMap<T>);

#[verifier::external_type_specification]
#[verifier::external_body]
pub struct ExHeaderValue(reqwest::header::HeaderValue);

#[verifier::external_type_specification]
#[verifier::external_body]
pub struct ExInvalidHeaderValue(reqwest::header::InvalidHeaderValue);

/// What is done to the resource at the address of a request.
#[derive(Clone, Copy, Debug, PartialEq, Eq, Structural)]
pub enum Method {
    /// Read it.
    Get,
    /// Add to it.
    Post,
    /// Replace it.
    Put,
    /// Remove it.
    Delete,
}

/// The headers that this library sets.
#[derive(Clone, Copy, Debug, PartialEq, Eq, Structural)]
pub enum Field {
    /// The media type that the client accepts.
    Accept,
    /// What the client proves its identity with.
    Authorization,
    /// The media type of the body.
    ContentType,
}

impl Field {
    /// The name of the header, in lower case.
    pub open spec fn name(self) -> Seq<char> {
        match self {
            Field::Accept => "accept"@,
            Field::Authorization => "authorization"@,
            Field::ContentType => "content-type"@,
        }
    }
}

/// A request that is ready to be sent.
pub struct Request<B> {
    /// What is to be done.
    pub method: Method,
    /// Where.
    pub url: String,
    /// The headers, besides those that the body brings with it.
    pub headers: reqwest::header::HeaderMap<reqwest::header::HeaderValue>,
    /// What is sent along.
    pub body: B,
}

/// The headers in a map, each name in lower case with its value, for a map that has one
/// value for each name.
pub uninterp spec fn header_fields(
    headers: reqwest::header::HeaderMap<reqwest::header::HeaderValue>,
) -> Map<Seq<char>, Seq<char>>;

/// Whether a text can stand in a header: it has no control characters but tabs.
pub open spec fn is_header_text(text: Seq<char>) -> bool {
    forall|i: int| 0 <= i < text.len() ==> is_header_char(#[trigger] text[i])
}

/// Whether a character can stand in a header.
pub open spec fn is_header_char(c: char) -> bool {
    c == '\t' || (c >= ' ' && c != '\x7f')
}

/// Calls `HeaderMap::with_capacity`, which gives an empty map and panics beyond 32768 slots,
/// of which a map keeps a quarter free.
#[verifier::external_body]
fn header_map(capacity: usize) -> (r: reqwest::header::HeaderMap<reqwest::header::HeaderValue>)
    requires
        capacity + capacity / 3 <= 32768,
    ensures
        header_fields(r) == (Map::<Seq<char>, Seq<char>>::empty()),
{
    header::HeaderMap::with_capacity(capacity)
}

/// Calls `HeaderMap::insert` with the value that `text` is parsed into: it replaces what
/// the map held under that name. A text is refused exactly where it holds a character that
/// cannot stand in a header, and the map is then left as it was. The call panics on a map
/// that has grown to its limit, which takes more than a hundred headers.
#[verifier::external_body]
fn insert_header(
    headers: &mut reqwest::header::HeaderMap<reqwest::header::HeaderValue>,
    field: Field,
    text: &str,
) -> (r: Result<(), reqwest::header::InvalidHeaderValue>)
    requires
        header_fields(*old(headers)).len() < 100,
    ensures
        r is Ok <==> is_header_text(text@),
        r is Ok ==> header_fields(*final(headers)) == header_fields(*old(headers)).insert(
            field.name(),
            text@,
        ),
        r is Err ==> header_fields(*final(headers)) == header_fields(*old(headers)),
{
    let name = match field {
        Field::Accept => header::ACCEPT,
        Field::Authorization => header::AUTHORIZATION,
        Field::ContentType => header::CONTENT_TYPE,
    };
    headers.insert(name, text.parse()?);
    Ok(())
}

/// Whether a text can stand in a header.
pub fn can_stand_in_header(text: &str) -> (r: bool)
    ensures
        r == is_header_text(text@),
{
    let mut r: bool = true;
    for c in it: text.chars()
        invariant
            it.seq() == text@,
            r == (forall|i: int| 0 <= i < it.index() ==> is_header_char(#[trigger] text@[i])),
    {
        if !(c == '\t' || (c >= ' ' && c != '\x7f')) {
            assert(!is_header_char(text@[it.index()]));
            r = false;
        }
    }
    r
}

/// The value of the authorization header for a token.
pub open spec fn authorization(auth_token: Seq<char>) -> Seq<char> {
    "Token "@ + auth_token
}

proof fn lemma_authorization(auth_token: Seq<char>)
    ensures
        is_header_text(authorization(auth_token)) == is_header_text(auth_token),
{
    reveal_strlit("Token ");
    let whole = authorization(auth_token);
    if is_header_text(whole) {
        assert forall|i: int| 0 <= i < auth_token.len() implies is_header_char(
            #[trigger] auth_token[i],
        ) by {
            assert(whole[i + 6] == auth_token[i]);
        }
    }
}

/// The headers of a request that takes and gives JSON.
pub open spec fn base_fields(auth_token: Seq<char>) -> Map<Seq<char>, Seq<char>> {
    Map::<Seq<char>, Seq<char>>::empty().insert(
        Field::ContentType.name(),
        "application/json;charset=UTF-8"@,
    ).insert(Field::Accept.name(), "application/json"@).insert(
        Field::Authorization.name(),
        authorization(auth_token),
    )
}

/// The headers of a request that only proves its identity.
pub open spec fn authorization_fields(auth_token: Seq<char>) -> Map<Seq<char>, Seq<char>> {
    Map::<Seq<char>, Seq<char>>::empty().insert(
        Field::Authorization.name(),
        authorization(auth_token),
    )
}

/// The headers of a request that takes a form and gives JSON.
pub open spec fn form_fields() -> Map<Seq<char>, Seq<char>> {
    Map::<Seq<char>, Seq<char>>::empty().insert(
        Field::ContentType.name(),
        "application/x-www-form-urlencoded;charset=UTF-8"@,
    ).insert(Field::Accept.name(), "application/json"@)
}

/// The headers of a request that takes and gives JSON, in a map with room for `capacity`
/// more.
pub fn get_base_headers(auth_token: &str, capacity: usize) -> (r: reqwest::header::HeaderMap<
    reqwest::header::HeaderValue,
>)
    requires
        is_header_text(auth_token@),
        capacity + 3 + (capacity + 3) / 3 <= 32768,
    ensures
        header_fields(r) == base_fields(auth_token@),
{
    let capacity = capacity + 3;
    let mut headers = header_map(capacity);
    proof {
        reveal_strlit("application/json;charset=UTF-8");
        reveal_strlit("application/json");
        lemma_authorization(auth_token@);
    }
    insert_header(&mut headers, Field::ContentType, "application/json;charset=UTF-8").unwrap();
    insert_header(&mut headers, Field::Accept, "application/json").unwrap();
    let token = text::joined("Token ", auth_token);
    insert_header(&mut headers, Field::Authorization, token.as_str()).unwrap();
    headers
}

/// The headers of a request that only proves its identity, or an error where the token
/// cannot stand in a header.
pub fn authorization_headers(auth_token: &str) -> (r: Result<
    reqwest::header::HeaderMap<reqwest::header::HeaderValue>,
    Error,
>)
    ensures
        is_header_text(auth_token@) ==> r is Ok,
        r matches Ok(headers) ==> header_fields(headers) == authorization_fields(auth_token@),
        !is_header_text(auth_token@) ==> r == (Err::<
            reqwest::header::HeaderMap<reqwest::header::HeaderValue>,
            Error,
        >(Error::InvalidHeader)),
{
    let mut headers = header_map(1);
    proof {
        lemma_authorization(auth_token@);
    }
    let token = text::joined("Token ", auth_token);
    match insert_header(&mut headers, Field::Authorization, token.as_str()) {
        Ok(()) => Ok(headers),
        Err(_) => Err(Error::InvalidHeader),
    }
}

/// The headers of a request that takes a form and gives JSON.
pub fn form_headers() -> (r: reqwest::header::HeaderMap<reqwest::header::HeaderValue>)
    ensures
        header_fields(r) == form_fields(),
{
    let mut headers = header_map(2);
    proof {
        reveal_strlit("application/x-www-form-urlencoded;charset=UTF-8");
        reveal_strlit("application/json");
    }
    insert_header(
        &mut headers,
        Field::ContentType,
        "application/x-www-form-urlencoded;charset=UTF-8",
    ).unwrap();
    insert_header(&mut headers, Field::Accept, "application/json").unwrap();
    headers
}

/// Whether a request does this, there, with these headers.
pub open spec fn asks<B>(
    request: Request<B>,
    method: Method,
    url: Seq<char>,
    fields: Map<Seq<char>, Seq<char>>,
) -> bool {
    &&& request.method == method
    &&& request.url@ == url
    &&& header_fields(request.headers) == fields
}

/// The request that does this, there, with this body, taking and giving JSON.
pub fn json_request<B>(method: Method, url: String, auth_token: &str, body: B) -> (r: Request<B>)
    requires
        is_header_text(auth_token@),
    ensures
        asks(r, method, url@, base_fields(auth_token@)),
        r.body == body,
{
    Request { method, url, headers: get_base_headers(auth_token, 0), body }
}

/// The request that posts nothing but the token.
pub fn token_request(url: String, auth_token: &str) -> (r: Result<Request<()>, Error>)
    ensures
        r is Ok <==> is_header_text(auth_token@),
        r matches Ok(q) ==> asks(q, Method::Post, url@, authorization_fields(auth_token@)),
        r matches Err(e) ==> e == Error::InvalidHeader,
{
    let headers = authorization_headers(auth_token)?;
    Ok(Request { method: Method::Post, url, headers, body: () })
}

/// The form that a token is asked for with.
pub open spec fn login_form(username: Seq<char>, password: Seq<char>) -> Seq<
    (Seq<char>, Seq<char>),
> {
    seq![("username"@, username), ("password"@, password)]
}

/// The request that posts the form with a name and a password.
pub fn login_request(url: String, username: &str, password: &str) -> (r: Request<
    Vec<(String, String)>,
>)
    ensures
        asks(r, Method::Post, url@, form_fields()),
        web_address::pair_texts(r.body@) == login_form(username@, password@),
{
    let mut body: Vec<(String, String)> = Vec::new();
    body.push(("username".to_owned(), username.to_owned()));
    body.push(("password".to_owned(), password.to_owned()));
    proof {
        assert(web_address::pair_texts(body@) =~= login_form(username@, password@));
    }
    Request { method: Method::Post, url, headers: form_headers(), body }
}

} // verus!
