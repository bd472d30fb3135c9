//! Identities, ids and the messages that travel between guests, the broker
//! and the owner's command line.
use vstd::prelude::*;

verus! {

/// Stable numeric identity of a user.
#[derive(Debug, Clone, Copy, PartialEq, Eq, Structural, Hash, Default)]
pub struct UserId(pub i64);

/// Opaque bearer credential of a user: a UUID held as its 128-bit value.
#[derive(Debug, Clone, Copy, PartialEq, Eq, Structural, Hash, Default)]
pub struct SessionToken(pub u128);

/// Id of one in-flight request: a UUID held as its 128-bit value.
#[derive(Debug, Clone, Copy, PartialEq, Eq, Structural, Hash, Default)]
pub struct RequestId(pub u128);

/// The lower-case hexadecimal digit of `n`, for `0 <= n < 16`.
pub open spec fn hex_char(n: int) -> char {
    seq!['0', '1', '2', '3', '4', '5', '6', '7', '8', '9', 'a', 'b', 'c', 'd', 'e', 'f'][n]
}

/// The `i`-th hexadecimal digit of `v`, counted from the most significant.
pub open spec fn nibble(v: u128, i: int) -> int {
    (v as int / vstd::arithmetic::power2::pow2((4 * (31 - i)) as nat) as int) % 16
}

/// Digits `from` up to `to` of `v`.
pub open spec fn hex_run(v: u128, from: int, to: int) -> Seq<char> {
    Seq::new((to - from) as nat, |k: int| hex_char(nibble(v, from + k)))
}

/// The hyphenated lower-case text of a UUID: 8-4-4-4-12 digits.
pub open spec fn uuid_text(v: u128) -> Seq<char> {
    hex_run(v, 0, 8) + seq!['-'] + hex_run(v, 8, 12) + seq!['-'] + hex_run(v, 12, 16) + seq!['-']
        + hex_run(v, 16, 20) + seq!['-'] + hex_run(v, 20, 32)
}

/// The UUID that a text spells, in any of the forms that `uuid` accepts.
pub uninterp spec fn uuid_parse(s: Seq<char>) -> Option<u128>;

/// Relies on uuid::Uuid::new_v4: a random version-4 UUID. Nothing is
/// promised of its value.
#[verifier::external_body]
pub(crate) fn random_uuid() -> (r: u128) {
    uuid::Uuid::new_v4().as_u128()
}

/// Relies on uuid::Uuid::parse_str: the UUID that the text spells, if any.
#[verifier::external_body]
pub(crate) fn parse_uuid(s: &str) -> (r: Option<u128>)
    ensures
        r == uuid_parse(s@),
{
    match uuid::Uuid::parse_str(s) {
        Ok(u) => Some(u.as_u128()),
        Err(_) => None,
    }
}

/// Relies on the `Display` of uuid::Uuid: the hyphenated lower-case form.
#[verifier::external_body]
pub(crate) fn uuid_to_text(v: u128) -> (r: String)
    ensures
        r@ == uuid_text(v),
{
    uuid::Uuid::from_u128(v).to_string()
}

impl SessionToken {
    /// The largest token value: all bits set.
    pub fn max() -> (r: SessionToken)
        ensures
            r.0 == u128::MAX,
    {
        SessionToken(u128::MAX)
    }

    /// The token as hyphenated text, as a client presents it.
    pub fn to_text(&self) -> (r: String)
        ensures
            r@ == uuid_text(self.0),
    {
        uuid_to_text(self.0)
    }

    /// The token that a text spells, if it spells one.
    pub fn parse(s: &str) -> (r: Option<SessionToken>)
        ensures
            r == match uuid_parse(s@) {
                Some(v) => Some(SessionToken(v)),
                None => None,
            },
    {
        match parse_uuid(s) {
            Some(v) => Some(SessionToken(v)),
            None => None,
        }
    }
}

impl RequestId {
    /// The id as hyphenated text: the payload of the guest channel.
    pub fn to_text(&self) -> (r: String)
        ensures
            r@ == uuid_text(self.0),
    {
        uuid_to_text(self.0)
    }
}

/// Announcement of a guest request on the owner channel; carries everything
/// the owner needs except the body.
#[derive(Debug, Clone, Default, PartialEq, Eq)]
pub struct RequestNotify {
    pub to: UserId,
    pub id: RequestId,
    pub path_info: String,
    pub request_method: String,
    pub query_string: Option<String>,
    pub content_length: Option<String>,
    pub content_type: Option<String>,
}

fn copy_text(o: &Option<String>) -> (r: Option<String>)
    ensures
        r == *o,
{
    match o {
        Some(s) => Some(s.clone()),
        None => None,
    }
}

impl RequestNotify {
    /// An equal copy of the announcement.
    pub fn duplicate(&self) -> (r: RequestNotify)
        ensures
            r == *self,
    {
        RequestNotify {
            to: self.to,
            id: self.id,
            path_info: self.path_info.clone(),
            request_method: self.request_method.clone(),
            query_string: copy_text(&self.query_string),
            content_length: copy_text(&self.content_length),
            content_type: copy_text(&self.content_type),
        }
    }
}

/// A request as the owner's command line receives it over the websocket.
#[derive(Debug, Clone, PartialEq, Eq)]
pub struct GitRequest {
    pub id: RequestId,
    pub path_info: String,
    pub required_method: String,
    pub query_string: Option<String>,
    pub content_length: Option<String>,
    pub content_type: Option<String>,
    pub body: Vec<u8>,
}

/// The raw CGI output that the owner sends back for a request.
#[derive(Debug, Clone)]
pub struct GitResponse {
    pub id: RequestId,
    pub output: Vec<u8>,
}

/// The request that the owner receives for an announcement and its body.
pub fn convert_to_git_request(notify: RequestNotify, request_body: Vec<u8>) -> (r: GitRequest)
    ensures
        r.id == notify.id,
        r.path_info == notify.path_info,
        r.required_method == notify.request_method,
        r.query_string == notify.query_string,
        r.content_length == notify.content_length,
        r.content_type == notify.content_type,
        r.body == request_body,
{
    GitRequest {
        id: notify.id,
        path_info: notify.path_info,
        required_method: notify.request_method,
        query_string: notify.query_string,
        content_length: notify.content_length,
        content_type: notify.content_type,
        body: request_body,
    }
}

} // verus!
