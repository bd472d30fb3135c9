use vstd::prelude::*;

verus! {

/// What a query against the backing store reported when it did not succeed.
#[derive(Debug, Clone, PartialEq, Eq)]
pub enum DbError {
    /// The statement matched no row.
    RowNotFound,
    /// A column read as a value was NULL.
    UnexpectedNull,
    /// A uniqueness constraint refused the write.
    UniqueViolation,
    /// Any other failure of the backend, with its message.
    Other(String),
}

/// Errors surfaced by the broker; each maps to one HTTP status.
#[derive(Debug, Clone, PartialEq, Eq)]
pub enum ServerError {
    MissingAuthCode,
    FailedConnectGithubApi,
    UserRoomIsNotOpen,
    InvalidSessionToken,
    RequiredSessionToken,
    FailedParseRequestBody,
    FailedRecvGitResponse,
    FailedParseGitResponse,
    Sqlx(DbError),
}

pub open spec fn status_of(e: ServerError) -> u16 {
    match e {
        ServerError::MissingAuthCode => 400,
        ServerError::FailedRecvGitResponse => 400,
        ServerError::FailedParseRequestBody => 400,
        ServerError::InvalidSessionToken => 401,
        ServerError::RequiredSessionToken => 401,
        ServerError::UserRoomIsNotOpen => 404,
        ServerError::FailedParseGitResponse => 500,
        ServerError::FailedConnectGithubApi => 500,
        ServerError::Sqlx(_) => 500,
    }
}

pub open spec fn message_of(e: ServerError) -> Seq<char> {
    match e {
        ServerError::MissingAuthCode => "Missing auth code in query"@,
        ServerError::FailedConnectGithubApi => "Failed to connect github api"@,
        ServerError::UserRoomIsNotOpen => "User room is not open"@,
        ServerError::InvalidSessionToken => "Invalid session token"@,
        ServerError::RequiredSessionToken => "Required session token"@,
        ServerError::FailedParseRequestBody => "Failed parse request body"@,
        ServerError::FailedRecvGitResponse => "Failed recv git response"@,
        ServerError::FailedParseGitResponse => "Failed parse git response"@,
        ServerError::Sqlx(_) => "internal server error"@,
    }
}

impl ServerError {
    /// The HTTP status code that this error is answered with.
    pub fn as_status(&self) -> (r: u16)
        ensures
            r == status_of(*self),
    {
        match self {
            ServerError::MissingAuthCode
            | ServerError::FailedRecvGitResponse
            | ServerError::FailedParseRequestBody => 400,
            ServerError::InvalidSessionToken | ServerError::RequiredSessionToken => 401,
            ServerError::UserRoomIsNotOpen => 404,
            ServerError::FailedParseGitResponse
            | ServerError::FailedConnectGithubApi
            | ServerError::Sqlx(_) => 500,
        }
    }

    /// Whether the error is a server-side fault that must be logged.
    pub fn is_internal(&self) -> (r: bool)
        ensures
            r == (status_of(*self) == 500),
    {
        self.as_status() == 500
    }

    /// The text of the response body that carries this error.
    pub fn message(&self) -> (r: String)
        ensures
            r@ == message_of(*self),
    {
        let s: &str = match self {
            ServerError::MissingAuthCode => "Missing auth code in query",
            ServerError::FailedConnectGithubApi => "Failed to connect github api",
            ServerError::UserRoomIsNotOpen => "User room is not open",
            ServerError::InvalidSessionToken => "Invalid session token",
            ServerError::RequiredSessionToken => "Required session token",
            ServerError::FailedParseRequestBody => "Failed parse request body",
            ServerError::FailedRecvGitResponse => "Failed recv git response",
            ServerError::FailedParseGitResponse => "Failed parse git response",
            ServerError::Sqlx(_) => "internal server error",
        };
        s.to_string()
    }
}

} // verus!
