//! Getting and giving up a token, and what every client says of itself.

use vstd::prelude::*;
use crate::error::Error;
use crate::request;
use crate::request::{Method, Request};
use crate::text;
use crate::web_address;

verus! {

/// The name and version of this library, as it gives them to a server.
pub const APP_USER_AGENT: &'static str = "etesync/0.1.0";

/// Where the public EteSync service is.
pub const SERVICE_API_URL: &'static str = "https://api.etesync.com";

/// What a client of the given name calls itself: its own name, and that of this library.
pub fn user_agent(client_name: &str) -> (r: String)
    ensures
        r@ == client_name@ + " "@ + APP_USER_AGENT@,
{
    let name = text::joined(client_name, " ");
    text::joined(name.as_str(), APP_USER_AGENT)
}

/// The request that empties the account of a test user.
pub fn test_reset(auth_token: &str, api_base: &str) -> (r: Result<Request<()>, Error>)
    ensures
        r is Ok <==> web_address::joined_url(api_base@, "reset/"@) is Some
            && request::is_header_text(auth_token@),
        r matches Ok(q) ==> request::asks(
            q,
            Method::Post,
            web_address::joined_url(api_base@, "reset/"@)->Some_0,
            request::authorization_fields(auth_token@),
        ),
        r matches Err(e) ==> e == (if web_address::joined_url(api_base@, "reset/"@) is None {
            Error::InvalidUrl
        } else {
            Error::InvalidHeader
        }),
{
    let url = web_address::resolve(api_base, "reset/")?;
    request::token_request(url, auth_token)
}

/// The part of the service that gives out tokens and takes them back.
pub struct Authenticator {
    api_base: String,
}

impl Authenticator {
    /// The URL of the service.
    pub closed spec fn base(&self) -> Seq<char> {
        self.api_base@
    }

    /// The authenticator of the service at a URL.
    pub fn new(api_base: &str) -> (r: Authenticator)
        requires
            web_address::parsed_url(api_base@) is Some,
        ensures
            web_address::parsed_url(api_base@) == Some(r.base()),
    {
        Authenticator { api_base: web_address::parse_url(api_base).unwrap() }
    }

    /// The authenticator of the service at an address, or `None` where that is no URL.
    pub fn try_new(api_base: &str) -> (r: Option<Authenticator>)
        ensures
            r is Some <==> web_address::parsed_url(api_base@) is Some,
            r matches Some(a) ==> web_address::parsed_url(api_base@) == Some(a.base()),
    {
        match web_address::parse_url(api_base) {
            Ok(_) => Some(Authenticator::new(api_base)),
            Err(_) => None,
        }
    }

    /// The request for a token. The body is the form to send.
    pub fn get_token(&self, username: &str, password: &str) -> (r: Result<
        Request<Vec<(String, String)>>,
        Error,
    >)
        ensures
            r is Ok <==> web_address::joined_url(self.base(), "api-token-auth/"@) is Some,
            r matches Ok(q) ==> {
                &&& request::asks(
                    q,
                    Method::Post,
                    web_address::joined_url(self.base(), "api-token-auth/"@)->Some_0,
                    request::form_fields(),
                )
                &&& web_address::pair_texts(q.body@) == request::login_form(username@, password@)
            },
            r matches Err(e) ==> e == Error::InvalidUrl,
    {
        let url = web_address::resolve(self.api_base.as_str(), "api-token-auth/")?;
        Ok(request::login_request(url, username, password))
    }

    /// The request that makes a token void.
    pub fn invalidate_token(&self, auth_token: &str) -> (r: Result<Request<()>, Error>)
        ensures
            r is Ok <==> web_address::joined_url(self.base(), "api/logout/"@) is Some
                && request::is_header_text(auth_token@),
            r matches Ok(q) ==> request::asks(
                q,
                Method::Post,
                web_address::joined_url(self.base(), "api/logout/"@)->Some_0,
                request::authorization_fields(auth_token@),
            ),
            r matches Err(e) ==> e == (if web_address::joined_url(
                self.base(),
                "api/logout/"@,
            ) is None {
                Error::InvalidUrl
            } else {
                Error::InvalidHeader
            }),
    {
        let url = web_address::resolve(self.api_base.as_str(), "api/logout/")?;
        request::token_request(url, auth_token)
    }
}

} // verus!
