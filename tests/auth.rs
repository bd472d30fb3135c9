use gph::auth::{auth_code, authenticate, github_user, oauth_client, session_token_of, GithubCredentials};
use gph::error::{DbError, ServerError};
use gph::store::MemoryDb;
use gph::types::{RequestId, SessionToken, UserId};

#[test]
fn missing_bearer_requires_token() {
    assert_eq!(session_token_of(None), Err(ServerError::RequiredSessionToken));
    assert_eq!(session_token_of(None).unwrap_err().as_status(), 401);
}

#[test]
fn bearer_that_is_no_uuid_is_invalid() {
    assert_eq!(session_token_of(Some("not-a-uuid")), Err(ServerError::InvalidSessionToken));
}

#[test]
fn bearer_uuid_is_parsed() {
    let token = session_token_of(Some("a1a2a3a4-b1b2-c1c2-d1d2-d3d4d5d6d7d8")).unwrap();
    assert_eq!(token, SessionToken(0xa1a2a3a4b1b2c1c2d1d2d3d4d5d6d7d8));
    let simple = session_token_of(Some("a1a2a3a4b1b2c1c2d1d2d3d4d5d6d7d8")).unwrap();
    assert_eq!(simple, token);
}

#[test]
fn unknown_bearer_is_invalid() {
    let db = MemoryDb::new();
    let result = authenticate(&db, Some("00000000-0000-0000-0000-000000000000"));
    assert_eq!(result, Err(ServerError::InvalidSessionToken));
    assert_eq!(authenticate(&db, None), Err(ServerError::RequiredSessionToken));
}

#[test]
fn registered_bearer_authenticates() {
    let mut db = MemoryDb::new();
    let token = db.insert_into_users(&UserId(42)).unwrap();
    let text = token.to_text();
    assert_eq!(authenticate(&db, Some(text.as_str())), Ok(UserId(42)));
}

#[test]
fn token_text_is_hyphenated_lower_case() {
    let token = SessionToken(0xa1a2a3a4b1b2c1c2d1d2d3d4d5d6d7d8);
    assert_eq!(token.to_text(), "a1a2a3a4-b1b2-c1c2-d1d2-d3d4d5d6d7d8");
    assert_eq!(RequestId(0).to_text(), "00000000-0000-0000-0000-000000000000");
    assert_eq!(SessionToken::max().to_text(), "ffffffff-ffff-ffff-ffff-ffffffffffff");
    assert_eq!(SessionToken::parse(&token.to_text()), Some(token));
}

#[test]
fn user_id_text_is_decimal() {
    assert_eq!(UserId(1).to_text(), "1");
    assert_eq!(UserId(-42).to_text(), "-42");
    assert_eq!(UserId(1234567890).to_text(), "1234567890");
}

#[test]
fn err_if_code_is_not_set() {
    let result = auth_code(None);
    assert_eq!(result, Err(ServerError::MissingAuthCode));
    assert_eq!(result.unwrap_err().as_status(), 400);
    assert_eq!(auth_code(Some("abc".to_string())), Ok("abc".to_string()));
}

#[test]
fn github_user_needs_an_id() {
    assert_eq!(github_user(Some(7)), Ok(UserId(7)));
    assert_eq!(github_user(None), Err(ServerError::FailedConnectGithubApi));
}

#[test]
fn oauth_client_uses_github_endpoints() {
    let client = oauth_client(GithubCredentials { client_id: "id".to_string(), client_secret: "secret".to_string() });
    assert_eq!(client.client_id, "id");
    assert_eq!(client.client_secret, "secret");
    assert_eq!(client.auth_url, "https://github.com/login/oauth/authorize");
    assert_eq!(client.token_url, "https://github.com/login/oauth/access_token");
}

#[test]
fn error_statuses_and_messages() {
    let cases = [
        (ServerError::MissingAuthCode, 400, "Missing auth code in query"),
        (ServerError::FailedConnectGithubApi, 500, "Failed to connect github api"),
        (ServerError::UserRoomIsNotOpen, 404, "User room is not open"),
        (ServerError::InvalidSessionToken, 401, "Invalid session token"),
        (ServerError::RequiredSessionToken, 401, "Required session token"),
        (ServerError::FailedParseRequestBody, 400, "Failed parse request body"),
        (ServerError::FailedRecvGitResponse, 400, "Failed recv git response"),
        (ServerError::FailedParseGitResponse, 500, "Failed parse git response"),
        (ServerError::Sqlx(DbError::RowNotFound), 500, "internal server error"),
    ];
    for (error, status, message) in cases {
        assert_eq!(error.as_status(), status);
        assert_eq!(error.message(), message);
        assert_eq!(error.is_internal(), status == 500);
    }
}
