use gph::auth::authenticate;
use gph::error::ServerError;
use gph::guest::{is_response_for, GuestAction, GuestEvent, GuestExchange};
use gph::owner::{forward_request, OwnerAction, OwnerEvent, OwnerSession};
use gph::store::MemoryDb;
use gph::types::{RequestNotify, SessionToken, UserId};

const USER1: UserId = UserId(1);

fn owner_step_for(db: &MemoryDb, bearer: Option<&str>) -> OwnerAction {
    let mut session = OwnerSession::new();
    session.step(OwnerEvent::Authenticated(authenticate(db, bearer)))
}

#[test]
fn err_if_missing_session_token() {
    let db = MemoryDb::new();
    assert_eq!(owner_step_for(&db, None), OwnerAction::Reject(401));
}

#[test]
fn share_err_if_invalid_user() {
    let db = MemoryDb::new();
    let token = SessionToken::default().to_text();
    assert_eq!(owner_step_for(&db, Some(token.as_str())), OwnerAction::Reject(401));
}

#[test]
fn share_ok_open() {
    let mut db = MemoryDb::new();
    let token = db.insert_into_users(&USER1).unwrap().to_text();
    let mut session = OwnerSession::new();
    assert_eq!(session.step(OwnerEvent::Authenticated(authenticate(&db, Some(token.as_str())))), OwnerAction::Subscribe);
    match session.step(OwnerEvent::Subscribed(Ok(()))) {
        OwnerAction::OpenRoom(u) => {
            assert_eq!(u, USER1);
            db.update_room_status(u, true);
        }
        other => panic!("expected the room to open, got {other:?}"),
    }
    assert_eq!(session.step(OwnerEvent::RoomOpened(Ok(()))), OwnerAction::Serve);
    assert!(db.is_open_room(USER1).unwrap());
    assert_eq!(session.step(OwnerEvent::Ended), OwnerAction::CloseRoom(USER1));
    db.update_room_status(USER1, false);
    assert!(!db.is_open_room(USER1).unwrap());
}

#[test]
fn share_ok_recv_request() {
    let mut db = MemoryDb::new();
    let request_body = vec![1, 2, 3];
    let request_id = db.new_request(&request_body).unwrap();
    let request_notify = RequestNotify {
        to: USER1,
        id: request_id,
        path_info: "path".to_string(),
        request_method: "".to_string(),
        query_string: None,
        content_length: None,
        content_type: None,
    };
    let body = db.select_request_body(&request_notify.id);
    let git_request = forward_request(USER1, request_notify, body).unwrap();
    assert_eq!(git_request.path_info, "path");
    assert_eq!(git_request.body, request_body);
}

#[test]
fn git_err_if_invalid_user() {
    let db = MemoryDb::new();
    let notify = RequestNotify { to: UserId(0), path_info: "sample.git/info/refs".to_string(), ..Default::default() };
    let mut exchange = GuestExchange::new(notify);
    match exchange.step(GuestEvent::RoomChecked(db.is_open_room(UserId(0)))) {
        GuestAction::Fail(e) => assert_eq!(e.as_status(), 404),
        other => panic!("expected failure, got {other:?}"),
    }
}

#[test]
fn ok_recv_response() {
    let mut db = MemoryDb::new();
    let id = db.new_request(&[]).unwrap();
    let data = vec![1, 2, 3];
    db.response(&id, &data);
    let payload = id.to_text();
    assert!(is_response_for(&payload, id));
    assert_eq!(db.pop_response(&id).unwrap(), data);
}

#[test]
fn owner_gone_before_reply_times_out() {
    let mut db = MemoryDb::new();
    db.update_room_status(USER1, true);
    let mut exchange = GuestExchange::new(RequestNotify { to: USER1, ..Default::default() });
    let mut event = GuestEvent::RoomChecked(db.is_open_room(USER1));
    let mut waited = false;
    loop {
        event = match exchange.step(event) {
            GuestAction::ReadBody => GuestEvent::BodyRead(Some(vec![])),
            GuestAction::InsertRequest(body) => GuestEvent::Inserted(db.new_request(&body)),
            GuestAction::Listen(_) => GuestEvent::Listening(Ok(())),
            GuestAction::Publish(_) => GuestEvent::Published(Ok(())),
            GuestAction::Wait => {
                waited = true;
                GuestEvent::GaveUp
            }
            GuestAction::FailAndDelete(e, id) => {
                assert_eq!(e, ServerError::FailedRecvGitResponse);
                db.pop_response(&id).unwrap_err();
                break;
            }
            other => panic!("unexpected {other:?}"),
        };
    }
    assert!(waited);
    assert_eq!(db.requests_count(), 0);
}
