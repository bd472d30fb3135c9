//! Authentication: bearer session tokens, registration through GitHub's
//! OAuth2 flow, and the text of a user id.
use vstd::prelude::*;

use crate::error::ServerError;
use crate::store::{resolve_read, MemoryDb};
use crate::types::{uuid_parse, SessionToken, UserId};

verus! {

/// The decimal digit `d`, for `0 <= d < 10`.
pub open spec fn digit_char(d: int) -> char {
    seq!['0', '1', '2', '3', '4', '5', '6', '7', '8', '9'][d]
}

/// The decimal digits of `n`, without leading zeros.
pub open spec fn digits(n: nat) -> Seq<char>
    decreases n,
{
    if n < 10 {
        seq![digit_char(n as int)]
    } else {
        digits(n / 10).push(digit_char((n % 10) as int))
    }
}

/// The decimal text of an integer, with a leading `-` where it is negative.
pub open spec fn decimal_text(n: int) -> Seq<char> {
    if n < 0 {
        seq!['-'] + digits((-n) as nat)
    } else {
        digits(n as nat)
    }
}

/// Relies on the `Display` of i64: its decimal text.
#[verifier::external_body]
pub(crate) fn i64_text(n: i64) -> (r: String)
    ensures
        r@ == decimal_text(n as int),
{
    n.to_string()
}

impl UserId {
    /// The user id as decimal text, as the relay reports it to its owner.
    pub fn to_text(&self) -> (r: String)
        ensures
            r@ == decimal_text(self.0 as int),
    {
        i64_text(self.0)
    }
}

/// The session token of a request from the token text of its `Bearer`
/// header: without one a token is required, and text that is no UUID is an
/// invalid token.
pub fn session_token_of(bearer: Option<&str>) -> (r: Result<SessionToken, ServerError>)
    ensures
        r == match bearer {
            None => Err(ServerError::RequiredSessionToken),
            Some(t) => match uuid_parse(t@) {
                Some(v) => Ok(SessionToken(v)),
                None => Err(ServerError::InvalidSessionToken),
            },
        },
{
    match bearer {
        None => Err(ServerError::RequiredSessionToken),
        Some(t) => match SessionToken::parse(t) {
            Some(token) => Ok(token),
            None => Err(ServerError::InvalidSessionToken),
        },
    }
}

/// The user that a request authenticates as, given the token text of its
/// `Bearer` header and the store of users.
pub fn authenticate(db: &MemoryDb, bearer: Option<&str>) -> (r: Result<UserId, ServerError>)
    ensures
        r == match bearer {
            None => Err(ServerError::RequiredSessionToken),
            Some(t) => match uuid_parse(t@) {
                Some(v) => resolve_read(db.tokens_view(), SessionToken(v)),
                None => Err(ServerError::InvalidSessionToken),
            },
        },
{
    match session_token_of(bearer) {
        Ok(token) => db.select_from_users(&token),
        Err(e) => Err(e),
    }
}

/// The client credentials that the relay holds for GitHub's OAuth2 flow.
#[derive(Debug, Clone)]
pub struct GithubCredentials {
    pub client_id: String,
    pub client_secret: String,
}

/// GitHub's answer to the exchange of an authorization code.
#[derive(Debug, Clone, PartialEq, Eq)]
pub struct AccessTokenResponse {
    pub access_token: String,
    pub scope: String,
    pub token_type: String,
}

/// Everything an OAuth2 client for GitHub is built from.
#[derive(Debug, Clone)]
pub struct OauthClient {
    pub client_id: String,
    pub client_secret: String,
    pub auth_url: String,
    pub token_url: String,
}

pub open spec fn github_auth_url() -> Seq<char> {
    "https://github.com/login/oauth/authorize"@
}

pub open spec fn github_token_url() -> Seq<char> {
    "https://github.com/login/oauth/access_token"@
}

/// The OAuth2 client of the relay: its credentials and GitHub's consent and
/// token endpoints.
pub fn oauth_client(credential: GithubCredentials) -> (r: OauthClient)
    ensures
        r.client_id == credential.client_id,
        r.client_secret == credential.client_secret,
        r.auth_url@ == github_auth_url(),
        r.token_url@ == github_token_url(),
{
    OauthClient {
        client_id: credential.client_id,
        client_secret: credential.client_secret,
        auth_url: "https://github.com/login/oauth/authorize".to_string(),
        token_url: "https://github.com/login/oauth/access_token".to_string(),
    }
}

/// The authorization code of a registration, which must be present.
pub fn auth_code(code: Option<String>) -> (r: Result<String, ServerError>)
    ensures
        r == match code {
            Some(c) => Ok(c),
            None => Err(ServerError::MissingAuthCode),
        },
{
    match code {
        Some(c) => Ok(c),
        None => Err(ServerError::MissingAuthCode),
    }
}

/// The user of a registration from the numeric `id` of GitHub's user
/// record, which must be present.
pub fn github_user(id: Option<i64>) -> (r: Result<UserId, ServerError>)
    ensures
        r == match id {
            Some(i) => Ok(UserId(i)),
            None => Err(ServerError::FailedConnectGithubApi),
        },
{
    match id {
        Some(i) => Ok(UserId(i)),
        None => Err(ServerError::FailedConnectGithubApi),
    }
}

} // verus!
