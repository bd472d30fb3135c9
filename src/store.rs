//! The broker's three tables (users, rooms, requests): what each query
//! outcome means for the broker, and an in-memory store that keeps them.
use vstd::prelude::*;

use std::collections::HashMap;

use crate::error::{DbError, ServerError};
use crate::types::{random_uuid, RequestId, SessionToken, UserId};

verus! {

broadcast use vstd::std_specs::hash::group_hash_axioms;

/// A request row as the tables hold it: body, and response once there is one.
pub type RowView = (Seq<u8>, Option<Seq<u8>>);

/// What reading a room's flag yields, given the rows of `rooms`.
pub open spec fn room_read(rooms: Map<i64, bool>, user_id: UserId) -> Result<bool, ServerError> {
    if rooms.contains_key(user_id.0) {
        Ok(rooms[user_id.0])
    } else {
        Err(ServerError::UserRoomIsNotOpen)
    }
}

/// What resolving a session token yields, given the token index of `users`.
pub open spec fn resolve_read(tokens: Map<u128, i64>, token: SessionToken) -> Result<UserId, ServerError> {
    if tokens.contains_key(token.0) {
        Ok(UserId(tokens[token.0]))
    } else {
        Err(ServerError::InvalidSessionToken)
    }
}

/// Each user's token indexes back to that user, and each indexed token
/// belongs to the user it names.
pub open spec fn tokens_inverse(users: Map<i64, u128>, tokens: Map<u128, i64>) -> bool {
    &&& forall|u: i64| #[trigger]
        users.contains_key(u) ==> tokens.contains_key(users[u]) && tokens[users[u]] == u
    &&& forall|t: u128| #[trigger]
        tokens.contains_key(t) ==> users.contains_key(tokens[t]) && users[tokens[t]] == t
}

/// Registering `user_id` with the freshly drawn `token`: refused where the
/// token is taken, else the user's previous token is dropped and `token`
/// becomes its only one.
pub open spec fn register_post(
    users0: Map<i64, u128>,
    tokens0: Map<u128, i64>,
    users1: Map<i64, u128>,
    tokens1: Map<u128, i64>,
    user_id: UserId,
    token: SessionToken,
    r: Result<SessionToken, ServerError>,
) -> bool {
    if tokens0.contains_key(token.0) {
        &&& r == Err::<SessionToken, ServerError>(ServerError::Sqlx(DbError::UniqueViolation))
        &&& users1 == users0
        &&& tokens1 == tokens0
    } else {
        let kept = if users0.contains_key(user_id.0) {
            tokens0.remove(users0[user_id.0])
        } else {
            tokens0
        };
        &&& r == Ok::<SessionToken, ServerError>(token)
        &&& users1 == users0.insert(user_id.0, token.0)
        &&& tokens1 == kept.insert(token.0, user_id.0)
    }
}

/// Inserting a new request row under the freshly drawn `id`: refused where
/// the id is taken, else a row with `body` and no response.
pub open spec fn insert_request_post(
    rows0: Map<u128, RowView>,
    rows1: Map<u128, RowView>,
    id: RequestId,
    body: Seq<u8>,
    r: Result<RequestId, ServerError>,
) -> bool {
    if rows0.contains_key(id.0) {
        r == Err::<RequestId, ServerError>(ServerError::Sqlx(DbError::UniqueViolation)) && rows1 == rows0
    } else {
        r == Ok::<RequestId, ServerError>(id) && rows1 == rows0.insert(id.0, (body, None))
    }
}

/// Storing a response: the row keeps its body and gains `response`; nothing
/// happens where the row is gone.
pub open spec fn set_response_post(
    rows0: Map<u128, RowView>,
    rows1: Map<u128, RowView>,
    id: RequestId,
    response: Seq<u8>,
) -> bool {
    if rows0.contains_key(id.0) {
        rows1 == rows0.insert(id.0, (rows0[id.0].0, Some(response)))
    } else {
        rows1 == rows0
    }
}

/// Taking a response: the row is deleted in any case; the result is its
/// response, or says that the row or its response was missing.
pub open spec fn take_post(
    rows0: Map<u128, RowView>,
    rows1: Map<u128, RowView>,
    id: RequestId,
    r: Result<Seq<u8>, ServerError>,
) -> bool {
    &&& rows1 == rows0.remove(id.0)
    &&& if !rows0.contains_key(id.0) {
        r == Err::<Seq<u8>, ServerError>(ServerError::Sqlx(DbError::RowNotFound))
    } else {
        match rows0[id.0].1 {
            Some(b) => r == Ok::<Seq<u8>, ServerError>(b),
            None => r == Err::<Seq<u8>, ServerError>(ServerError::Sqlx(DbError::UnexpectedNull)),
        }
    }
}

pub open spec fn bytes_result(r: Result<Vec<u8>, ServerError>) -> Result<Seq<u8>, ServerError> {
    match r {
        Ok(v) => Ok(v@),
        Err(e) => Err(e),
    }
}

/// The flag of a room from the outcome of reading its row: a missing row
/// means the room is not open.
pub fn room_status(found: Result<bool, DbError>) -> (r: Result<bool, ServerError>)
    ensures
        r == match found {
            Ok(b) => Ok(b),
            Err(DbError::RowNotFound) => Err(ServerError::UserRoomIsNotOpen),
            Err(e) => Err(ServerError::Sqlx(e)),
        },
{
    match found {
        Ok(b) => Ok(b),
        Err(DbError::RowNotFound) => Err(ServerError::UserRoomIsNotOpen),
        Err(e) => Err(ServerError::Sqlx(e)),
    }
}

/// The user of a session token from the outcome of looking it up: a missing
/// row means the token is invalid.
pub fn token_owner(found: Result<i64, DbError>) -> (r: Result<UserId, ServerError>)
    ensures
        r == match found {
            Ok(u) => Ok(UserId(u)),
            Err(DbError::RowNotFound) => Err(ServerError::InvalidSessionToken),
            Err(e) => Err(ServerError::Sqlx(e)),
        },
{
    match found {
        Ok(u) => Ok(UserId(u)),
        Err(DbError::RowNotFound) => Err(ServerError::InvalidSessionToken),
        Err(e) => Err(ServerError::Sqlx(e)),
    }
}

/// The response of a deleted request row from the outcome of the delete: a
/// missing row or a NULL response is an error of the store.
pub fn taken_response(found: Result<Option<Vec<u8>>, DbError>) -> (r: Result<Vec<u8>, ServerError>)
    ensures
        r == match found {
            Ok(Some(b)) => Ok(b),
            Ok(None) => Err(ServerError::Sqlx(DbError::UnexpectedNull)),
            Err(e) => Err(ServerError::Sqlx(e)),
        },
{
    match found {
        Ok(Some(b)) => Ok(b),
        Ok(None) => Err(ServerError::Sqlx(DbError::UnexpectedNull)),
        Err(e) => Err(ServerError::Sqlx(e)),
    }
}

/// A request row.
#[derive(Debug, Clone)]
pub struct RequestRow {
    pub body: Vec<u8>,
    pub response: Option<Vec<u8>>,
}

pub open spec fn opt_bytes(o: Option<Vec<u8>>) -> Option<Seq<u8>> {
    match o {
        Some(v) => Some(v@),
        None => None,
    }
}

pub open spec fn row_view(r: RequestRow) -> RowView {
    (r.body@, opt_bytes(r.response))
}

/// The three tables, kept in memory.
pub struct MemoryDb {
    rooms: HashMap<i64, bool>,
    users: HashMap<i64, u128>,
    tokens: HashMap<u128, i64>,
    requests: HashMap<u128, RequestRow>,
}

impl MemoryDb {
    /// Room flags by user id.
    pub closed spec fn rooms_view(&self) -> Map<i64, bool> {
        self.rooms@
    }

    /// Session token by user id.
    pub closed spec fn users_view(&self) -> Map<i64, u128> {
        self.users@
    }

    /// User id by session token.
    pub closed spec fn tokens_view(&self) -> Map<u128, i64> {
        self.tokens@
    }

    /// Request rows by request id.
    pub closed spec fn requests_view(&self) -> Map<u128, RowView> {
        self.requests@.map_values(|r: RequestRow| row_view(r))
    }

    pub open spec fn wf(&self) -> bool {
        tokens_inverse(self.users_view(), self.tokens_view())
    }

    /// Empty tables.
    pub fn new() -> (r: MemoryDb)
        ensures
            r.wf(),
            r.rooms_view() == Map::<i64, bool>::empty(),
            r.users_view() == Map::<i64, u128>::empty(),
            r.tokens_view() == Map::<u128, i64>::empty(),
            r.requests_view() == Map::<u128, RowView>::empty(),
    {
        let r = MemoryDb {
            rooms: HashMap::new(),
            users: HashMap::new(),
            tokens: HashMap::new(),
            requests: HashMap::new(),
        };
        assert(r.requests_view() =~= Map::<u128, RowView>::empty());
        r
    }

    /// Upserts the open flag of `user_id`'s room.
    pub fn update_room_status(&mut self, user_id: UserId, is_open: bool)
        ensures
            final(self).rooms_view() == old(self).rooms_view().insert(user_id.0, is_open),
            final(self).users_view() == old(self).users_view(),
            final(self).tokens_view() == old(self).tokens_view(),
            final(self).requests_view() == old(self).requests_view(),
    {
        self.rooms.insert(user_id.0, is_open);
    }

    /// The open flag of `user_id`'s room; a room without a row is not open.
    pub fn is_open_room(&self, user_id: UserId) -> (r: Result<bool, ServerError>)
        ensures
            r == room_read(self.rooms_view(), user_id),
    {
        let found = match self.rooms.get(&user_id.0) {
            Some(b) => Ok(*b),
            None => Err(DbError::RowNotFound),
        };
        room_status(found)
    }

    /// Registers `user_id` with `token`, which replaces the user's previous
    /// token; refused where another registration holds `token`.
    pub fn register_token(&mut self, user_id: &UserId, token: SessionToken) -> (r: Result<
        SessionToken,
        ServerError,
    >)
        requires
            old(self).wf(),
        ensures
            final(self).wf(),
            register_post(
                old(self).users_view(),
                old(self).tokens_view(),
                final(self).users_view(),
                final(self).tokens_view(),
                *user_id,
                token,
                r,
            ),
            final(self).rooms_view() == old(self).rooms_view(),
            final(self).requests_view() == old(self).requests_view(),
    {
        if self.tokens.contains_key(&token.0) {
            return Err(ServerError::Sqlx(DbError::UniqueViolation));
        }
        let ghost users0 = self.users@;
        let ghost tokens0 = self.tokens@;
        match self.users.get(&user_id.0) {
            Some(previous) => {
                let previous = *previous;
                self.tokens.remove(&previous);
            },
            None => {},
        }
        let ghost kept = self.tokens@;
        self.users.insert(user_id.0, token.0);
        self.tokens.insert(token.0, user_id.0);
        proof {
            let users1 = self.users@;
            let tokens1 = self.tokens@;
            assert forall|u: i64| #[trigger] users1.contains_key(u) implies tokens1.contains_key(
                users1[u],
            ) && tokens1[users1[u]] == u by {
                if u != user_id.0 {
                    assert(users0.contains_key(u));
                    assert(users0[u] != token.0);
                    if users0.contains_key(user_id.0) {
                        assert(users0[u] != users0[user_id.0]);
                    }
                }
            }
            assert forall|t: u128| #[trigger] tokens1.contains_key(t) implies users1.contains_key(
                tokens1[t],
            ) && users1[tokens1[t]] == t by {
                if t != token.0 {
                    assert(kept.contains_key(t));
                    assert(tokens0.contains_key(t));
                    if users0.contains_key(user_id.0) {
                        assert(t != users0[user_id.0]);
                    }
                    assert(tokens0[t] != user_id.0);
                }
            }
        }
        Ok(token)
    }

    /// Registers `user_id` under a freshly drawn random token and returns
    /// it; the user's previous token stops resolving.
    pub fn insert_into_users(&mut self, user_id: &UserId) -> (r: Result<SessionToken, ServerError>)
        requires
            old(self).wf(),
        ensures
            final(self).wf(),
            match r {
                Ok(t) => register_post(
                    old(self).users_view(),
                    old(self).tokens_view(),
                    final(self).users_view(),
                    final(self).tokens_view(),
                    *user_id,
                    t,
                    r,
                ),
                Err(e) => e == ServerError::Sqlx(DbError::UniqueViolation) && final(self).users_view()
                    == old(self).users_view() && final(self).tokens_view() == old(self).tokens_view(),
            },
            old(self).tokens_view() == Map::<u128, i64>::empty() ==> r is Ok,
            final(self).rooms_view() == old(self).rooms_view(),
            final(self).requests_view() == old(self).requests_view(),
    {
        let token = SessionToken(random_uuid());
        self.register_token(user_id, token)
    }

    /// The user that `session_token` belongs to.
    pub fn select_from_users(&self, session_token: &SessionToken) -> (r: Result<UserId, ServerError>)
        ensures
            r == resolve_read(self.tokens_view(), *session_token),
    {
        let found = match self.tokens.get(&session_token.0) {
            Some(u) => Ok(*u),
            None => Err(DbError::RowNotFound),
        };
        token_owner(found)
    }

    /// Inserts a request row with `request_body` under `id`, which must not
    /// be taken.
    pub fn insert_request(&mut self, id: RequestId, request_body: &[u8]) -> (r: Result<RequestId, ServerError>)
        ensures
            insert_request_post(old(self).requests_view(), final(self).requests_view(), id, request_body@, r),
            final(self).rooms_view() == old(self).rooms_view(),
            final(self).users_view() == old(self).users_view(),
            final(self).tokens_view() == old(self).tokens_view(),
    {
        if self.requests.contains_key(&id.0) {
            return Err(ServerError::Sqlx(DbError::UniqueViolation));
        }
        let ghost before = self.requests@;
        let row = RequestRow { body: vstd::slice::slice_to_vec(request_body), response: None };
        self.requests.insert(id.0, row);
        proof {
            assert(self.requests_view() =~= before.map_values(|r: RequestRow| row_view(r)).insert(
                id.0,
                (request_body@, None),
            ));
        }
        Ok(id)
    }

    /// Inserts a request row with `request_body` under a freshly drawn
    /// random id and returns that id, which no live row had.
    pub fn new_request(&mut self, request_body: &[u8]) -> (r: Result<RequestId, ServerError>)
        ensures
            match r {
                Ok(id) => insert_request_post(
                    old(self).requests_view(),
                    final(self).requests_view(),
                    id,
                    request_body@,
                    r,
                ),
                Err(e) => e == ServerError::Sqlx(DbError::UniqueViolation) && final(self).requests_view()
                    == old(self).requests_view(),
            },
            final(self).rooms_view() == old(self).rooms_view(),
            final(self).users_view() == old(self).users_view(),
            final(self).tokens_view() == old(self).tokens_view(),
            old(self).requests_view() == Map::<u128, RowView>::empty() ==> r is Ok,
    {
        let id = RequestId(random_uuid());
        self.insert_request(id, request_body)
    }

    /// Stores `response` as the response of request `request_id`, where its
    /// row still exists.
    pub fn response(&mut self, request_id: &RequestId, response: &[u8])
        ensures
            set_response_post(old(self).requests_view(), final(self).requests_view(), *request_id, response@),
            final(self).rooms_view() == old(self).rooms_view(),
            final(self).users_view() == old(self).users_view(),
            final(self).tokens_view() == old(self).tokens_view(),
    {
        let ghost before = self.requests@;
        let body = match self.requests.get(&request_id.0) {
            Some(row) => row.body.clone(),
            None => return,
        };
        let row = RequestRow { body, response: Some(vstd::slice::slice_to_vec(response)) };
        self.requests.insert(request_id.0, row);
        proof {
            assert(self.requests_view() =~= before.map_values(|r: RequestRow| row_view(r)).insert(
                request_id.0,
                (before[request_id.0].body@, Some(response@)),
            ));
        }
    }

    /// Deletes the row of `request_id` and returns its response.
    pub fn pop_response(&mut self, request_id: &RequestId) -> (r: Result<Vec<u8>, ServerError>)
        ensures
            take_post(old(self).requests_view(), final(self).requests_view(), *request_id, bytes_result(r)),
            final(self).rooms_view() == old(self).rooms_view(),
            final(self).users_view() == old(self).users_view(),
            final(self).tokens_view() == old(self).tokens_view(),
    {
        let ghost before = self.requests@;
        let removed = self.requests.remove(&request_id.0);
        proof {
            assert(self.requests_view() =~= before.map_values(|r: RequestRow| row_view(r)).remove(
                request_id.0,
            ));
        }
        let found = match removed {
            Some(row) => Ok(row.response),
            None => Err(DbError::RowNotFound),
        };
        taken_response(found)
    }

    /// The body of request `request_id`.
    pub fn select_request_body(&self, request_id: &RequestId) -> (r: Result<Vec<u8>, ServerError>)
        ensures
            bytes_result(r) == if self.requests_view().contains_key(request_id.0) {
                Ok::<Seq<u8>, ServerError>(self.requests_view()[request_id.0].0)
            } else {
                Err::<Seq<u8>, ServerError>(ServerError::Sqlx(DbError::RowNotFound))
            },
    {
        match self.requests.get(&request_id.0) {
            Some(row) => Ok(row.body.clone()),
            None => Err(ServerError::Sqlx(DbError::RowNotFound)),
        }
    }

    /// Number of request rows.
    pub fn requests_count(&self) -> (r: usize)
        ensures
            r == self.requests_view().len(),
    {
        assert(self.requests_view().dom() =~= self.requests@.dom());
        self.requests.len()
    }
}

/// The rows of `rooms` after each write `(user, flag)` of `writes` is
/// applied, in order.
pub open spec fn apply_room_writes(rooms: Map<i64, bool>, writes: Seq<(UserId, bool)>) -> Map<i64, bool>
    decreases writes.len(),
{
    if writes.len() == 0 {
        rooms
    } else {
        apply_room_writes(rooms, writes.drop_last()).insert(writes.last().0.0, writes.last().1)
    }
}

/// The flag of the last write to `user_id`'s room among `writes`, if any.
pub open spec fn last_write_for(writes: Seq<(UserId, bool)>, user_id: UserId) -> Option<bool>
    decreases writes.len(),
{
    if writes.len() == 0 {
        None
    } else if writes.last().0 == user_id {
        Some(writes.last().1)
    } else {
        last_write_for(writes.drop_last(), user_id)
    }
}

/// After any run of writes of room flags, for any users and interleaved with
/// reads (which change nothing), reading a room's flag yields the last value
/// written to that room; a room never written reads as before.
pub proof fn lemma_room_reads_last_write(rooms: Map<i64, bool>, writes: Seq<(UserId, bool)>, user_id: UserId)
    ensures
        room_read(apply_room_writes(rooms, writes), user_id) == match last_write_for(writes, user_id) {
            Some(b) => Ok::<bool, ServerError>(b),
            None => room_read(rooms, user_id),
        },
    decreases writes.len(),
{
    if writes.len() > 0 {
        lemma_room_reads_last_write(rooms, writes.drop_last(), user_id);
    }
}

/// Two request rows inserted one after the other get different ids, and
/// both stay live.
pub proof fn lemma_new_request_ids_differ(
    rows0: Map<u128, RowView>,
    rows1: Map<u128, RowView>,
    rows2: Map<u128, RowView>,
    id1: RequestId,
    id2: RequestId,
    body1: Seq<u8>,
    body2: Seq<u8>,
)
    requires
        insert_request_post(rows0, rows1, id1, body1, Ok(id1)),
        insert_request_post(rows1, rows2, id2, body2, Ok(id2)),
    ensures
        id1 != id2,
        rows2.contains_key(id1.0),
        rows2.contains_key(id2.0),
{
    assert(rows1.contains_key(id1.0));
}

/// One operation on the request rows that inserts no row under `r`: an
/// insert under another id, storing a response, taking a response, or an
/// operation on the other tables.
pub open spec fn request_step_without(rows0: Map<u128, RowView>, rows1: Map<u128, RowView>, r: RequestId) -> bool {
    ||| rows1 == rows0
    ||| exists|id: RequestId, body: Seq<u8>, res: Result<RequestId, ServerError>|
        id.0 != r.0 && #[trigger] insert_request_post(rows0, rows1, id, body, res)
    ||| exists|id: RequestId, response: Seq<u8>| #[trigger] set_response_post(rows0, rows1, id, response)
    ||| exists|id: RequestId, res: Result<Seq<u8>, ServerError>| #[trigger] take_post(rows0, rows1, id, res)
}

proof fn lemma_row_stays_gone(states: Seq<Map<u128, RowView>>, r: RequestId, i: int)
    requires
        states.len() >= 2,
        !states[1].contains_key(r.0),
        forall|k: int| 1 <= k < states.len() - 1 ==> request_step_without(#[trigger] states[k], states[k + 1], r),
        1 <= i < states.len(),
    ensures
        !states[i].contains_key(r.0),
    decreases i,
{
    if i > 1 {
        lemma_row_stays_gone(states, r, i - 1);
        assert(request_step_without(states[i - 1], states[i], r));
    }
}

/// Once a response has been taken, every later take of it reports a missing
/// row, whatever operations came between that inserted no row under its
/// id; the row exists at no point after the first take. `states` are the
/// request rows before the first take, after it, and after each operation
/// in between.
pub proof fn lemma_take_response_once(
    states: Seq<Map<u128, RowView>>,
    after: Map<u128, RowView>,
    r: RequestId,
    first: Result<Seq<u8>, ServerError>,
    second: Result<Seq<u8>, ServerError>,
)
    requires
        states.len() >= 2,
        take_post(states[0], states[1], r, first),
        first is Ok,
        forall|k: int| 1 <= k < states.len() - 1 ==> request_step_without(#[trigger] states[k], states[k + 1], r),
        take_post(states.last(), after, r, second),
    ensures
        second == Err::<Seq<u8>, ServerError>(ServerError::Sqlx(DbError::RowNotFound)),
        forall|k: int| 1 <= k < states.len() ==> !(#[trigger] states[k]).contains_key(r.0),
        !after.contains_key(r.0),
{
    assert forall|k: int| 1 <= k < states.len() implies !(#[trigger] states[k]).contains_key(r.0) by {
        lemma_row_stays_gone(states, r, k);
    }
    assert(!states[states.len() - 1].contains_key(r.0));
}

/// Registering the same user twice yields two different tokens; afterwards
/// the first no longer resolves and the second resolves to the user.
pub proof fn lemma_register_rotates_token(
    users0: Map<i64, u128>,
    tokens0: Map<u128, i64>,
    users1: Map<i64, u128>,
    tokens1: Map<u128, i64>,
    users2: Map<i64, u128>,
    tokens2: Map<u128, i64>,
    user_id: UserId,
    first: SessionToken,
    second: SessionToken,
)
    requires
        tokens_inverse(users0, tokens0),
        register_post(users0, tokens0, users1, tokens1, user_id, first, Ok(first)),
        register_post(users1, tokens1, users2, tokens2, user_id, second, Ok(second)),
    ensures
        first != second,
        resolve_read(tokens2, first) == Err::<UserId, ServerError>(ServerError::InvalidSessionToken),
        resolve_read(tokens2, second) == Ok::<UserId, ServerError>(user_id),
{
    assert(tokens1.contains_key(first.0));
    assert(users1[user_id.0] == first.0);
    assert(!tokens2.contains_key(first.0));
}

} // verus!
