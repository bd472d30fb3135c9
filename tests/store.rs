use gph::error::{DbError, ServerError};
use gph::store::{room_status, taken_response, token_owner, MemoryDb};
use gph::types::{RequestId, SessionToken, UserId};

const USER1: UserId = UserId(1);

#[test]
fn err_if_user_not_exists() {
    let db = MemoryDb::new();
    let result = db.is_open_room(USER1);
    assert!(matches!(result, Err(ServerError::UserRoomIsNotOpen)));
}

#[test]
fn rooms_ok_open() {
    let mut db = MemoryDb::new();
    db.update_room_status(USER1, true);
    assert!(db.is_open_room(USER1).unwrap());
}

#[test]
fn ok_close_room() {
    let mut db = MemoryDb::new();
    db.update_room_status(USER1, false);
    assert!(!db.is_open_room(USER1).unwrap());
}

#[test]
fn room_read_sees_last_write() {
    let mut db = MemoryDb::new();
    for (i, open) in [true, false, true, true, false].iter().enumerate() {
        db.update_room_status(USER1, *open);
        assert_eq!(db.is_open_room(USER1).unwrap(), *open, "after write {i}");
        assert_eq!(db.is_open_room(USER1).unwrap(), *open, "read again after write {i}");
    }
    assert!(matches!(db.is_open_room(UserId(2)), Err(ServerError::UserRoomIsNotOpen)));
}

#[test]
fn ok_insert_user() {
    let mut db = MemoryDb::new();
    db.insert_into_users(&USER1).unwrap();
}

#[test]
fn ok_select_user() {
    let mut db = MemoryDb::new();
    let session_token = db.insert_into_users(&USER1).unwrap();
    let user = db.select_from_users(&session_token).unwrap();
    assert_eq!(user, USER1);
}

#[test]
fn err_select_user_if_not_exists() {
    let db = MemoryDb::new();
    let result = db.select_from_users(&SessionToken::max()).unwrap_err();
    assert!(matches!(result, ServerError::InvalidSessionToken))
}

#[test]
fn session_token_update_if_insert_again() {
    let mut db = MemoryDb::new();
    let session_token1 = db.insert_into_users(&USER1).unwrap();
    let session_token2 = db.insert_into_users(&USER1).unwrap();
    assert_ne!(session_token1, session_token2);
}

#[test]
fn first_token_stops_resolving_after_rotation() {
    let mut db = MemoryDb::new();
    let first = db.insert_into_users(&USER1).unwrap();
    let second = db.insert_into_users(&USER1).unwrap();
    assert!(matches!(db.select_from_users(&first), Err(ServerError::InvalidSessionToken)));
    assert_eq!(db.select_from_users(&second).unwrap(), USER1);
}

#[test]
fn register_token_refuses_a_taken_token() {
    let mut db = MemoryDb::new();
    let token = SessionToken(7);
    assert_eq!(db.register_token(&USER1, token).unwrap(), token);
    let result = db.register_token(&UserId(2), token);
    assert!(matches!(result, Err(ServerError::Sqlx(DbError::UniqueViolation))));
    assert_eq!(db.select_from_users(&token).unwrap(), USER1);
    assert_eq!(db.register_token(&USER1, SessionToken(8)).unwrap(), SessionToken(8));
    assert!(matches!(db.select_from_users(&token), Err(ServerError::InvalidSessionToken)));
}

#[test]
fn ok_new_request() {
    let mut db = MemoryDb::new();
    let id = db.new_request(&[]).unwrap();
    assert_eq!(db.requests_count(), 1);
    assert_eq!(db.select_request_body(&id).unwrap(), Vec::<u8>::new());
}

#[test]
fn new_request_ids_differ() {
    let mut db = MemoryDb::new();
    let first = db.new_request(&[1]).unwrap();
    let second = db.new_request(&[2]).unwrap();
    assert_ne!(first, second);
    assert_eq!(db.select_request_body(&first).unwrap(), vec![1]);
    assert_eq!(db.select_request_body(&second).unwrap(), vec![2]);
}

#[test]
fn insert_request_refuses_a_taken_id() {
    let mut db = MemoryDb::new();
    let id = RequestId(5);
    assert_eq!(db.insert_request(id, &[1]).unwrap(), id);
    assert!(matches!(db.insert_request(id, &[2]), Err(ServerError::Sqlx(DbError::UniqueViolation))));
    assert_eq!(db.select_request_body(&id).unwrap(), vec![1]);
}

#[test]
fn ok_response() {
    let mut db = MemoryDb::new();
    let request_id = db.new_request(&[]).unwrap();
    let output = vec![1, 2, 3];
    db.response(&request_id, &output);
    let actual = db.pop_response(&request_id).unwrap();
    assert_eq!(output, actual);
}

#[test]
fn err_response_if_not_exists_response() {
    let mut db = MemoryDb::new();
    let request_id = db.new_request(&[]).unwrap();
    let result = db.pop_response(&request_id);
    assert!(matches!(result, Err(ServerError::Sqlx(_))));
}

#[test]
fn request_deleted_after_pop() {
    let mut db = MemoryDb::new();
    let request_id = db.new_request(&[]).unwrap();
    let output = vec![1, 2, 3];
    db.response(&request_id, &output);
    assert_eq!(db.requests_count(), 1);

    db.pop_response(&request_id).unwrap();
    assert_eq!(db.requests_count(), 0);
}

#[test]
fn second_take_reports_missing_row() {
    let mut db = MemoryDb::new();
    let request_id = db.new_request(&[9]).unwrap();
    db.response(&request_id, &[4, 5]);
    assert_eq!(db.pop_response(&request_id).unwrap(), vec![4, 5]);
    assert!(matches!(db.pop_response(&request_id), Err(ServerError::Sqlx(DbError::RowNotFound))));
    assert_eq!(db.requests_count(), 0);
}

#[test]
fn response_for_a_gone_row_is_a_no_op() {
    let mut db = MemoryDb::new();
    db.response(&RequestId(3), &[1]);
    assert_eq!(db.requests_count(), 0);
    assert!(matches!(db.select_request_body(&RequestId(3)), Err(ServerError::Sqlx(DbError::RowNotFound))));
}

#[test]
fn query_outcomes_map_to_errors() {
    assert_eq!(room_status(Ok(true)), Ok(true));
    assert_eq!(room_status(Err(DbError::RowNotFound)), Err(ServerError::UserRoomIsNotOpen));
    assert_eq!(
        room_status(Err(DbError::Other("down".to_string()))),
        Err(ServerError::Sqlx(DbError::Other("down".to_string())))
    );
    assert_eq!(token_owner(Ok(4)), Ok(UserId(4)));
    assert_eq!(token_owner(Err(DbError::RowNotFound)), Err(ServerError::InvalidSessionToken));
    assert_eq!(taken_response(Ok(Some(vec![1]))), Ok(vec![1]));
    assert_eq!(taken_response(Ok(None)), Err(ServerError::Sqlx(DbError::UnexpectedNull)));
    assert_eq!(taken_response(Err(DbError::RowNotFound)), Err(ServerError::Sqlx(DbError::RowNotFound)));
}

#[test]
fn room_read_ignores_writes_to_other_rooms() {
    let mut db = MemoryDb::new();
    db.update_room_status(USER1, true);
    db.update_room_status(UserId(2), false);
    assert!(db.is_open_room(USER1).unwrap());
    db.update_room_status(USER1, false);
    db.update_room_status(UserId(2), true);
    assert!(!db.is_open_room(USER1).unwrap());
    assert!(db.is_open_room(UserId(2)).unwrap());
}

#[test]
fn taken_response_stays_gone_across_other_operations() {
    let mut db = MemoryDb::new();
    let id = db.new_request(&[1]).unwrap();
    db.response(&id, &[2]);
    assert_eq!(db.pop_response(&id).unwrap(), vec![2]);
    let other = db.new_request(&[3]).unwrap();
    db.response(&id, &[4]);
    db.response(&other, &[5]);
    db.update_room_status(USER1, true);
    assert!(matches!(db.pop_response(&id), Err(ServerError::Sqlx(DbError::RowNotFound))));
    assert_eq!(db.pop_response(&other).unwrap(), vec![5]);
}
