//! The guest handler: one git-over-HTTP request relayed to the owner of a
//! room. The exchange decides; its driver performs the actions.
use vstd::prelude::*;

use crate::cgi::{cgi_reply, convert_to_response, headers_view, GitHttpResponse};
use crate::error::ServerError;
use crate::types::{uuid_text, RequestId, RequestNotify};

verus! {

/// Where a guest exchange stands.
#[derive(Debug, Clone, Copy, PartialEq, Eq, Structural)]
pub enum GuestPhase {
    /// Checking that the owner's room is open.
    CheckRoom,
    /// Reading the request body.
    ReadBody,
    /// Inserting the request row.
    Insert,
    /// Subscribing to the guest channel.
    Listen,
    /// Announcing the request on the owner channel.
    Publish,
    /// Waiting for the guest-channel notification of this request.
    Await,
    /// Taking the response out of the request row.
    Take,
    /// Replied.
    Done,
}

/// What the driver of an exchange reports.
#[derive(Debug)]
pub enum GuestEvent {
    /// Outcome of reading the room's open flag.
    RoomChecked(Result<bool, ServerError>),
    /// The request body, or `None` where it could not be read.
    BodyRead(Option<Vec<u8>>),
    /// Outcome of inserting the request row.
    Inserted(Result<RequestId, ServerError>),
    /// Outcome of subscribing to the guest channel.
    Listening(Result<(), ServerError>),
    /// Outcome of announcing the request on the owner channel.
    Published(Result<(), ServerError>),
    /// A payload received on the guest channel.
    Notified(String),
    /// Outcome of taking the response out of the request row.
    Taken(Result<Vec<u8>, ServerError>),
    /// The deadline passed, or the guest-channel listener ended.
    GaveUp,
}

/// What the driver of an exchange must do next.
#[derive(Debug)]
pub enum GuestAction {
    ReadBody,
    InsertRequest(Vec<u8>),
    Listen(RequestId),
    Publish(RequestNotify),
    /// Wait for the next guest-channel payload.
    Wait,
    TakeResponse(RequestId),
    Reply(GitHttpResponse),
    Fail(ServerError),
    /// Reply with the error and delete the request row, best effort.
    FailAndDelete(ServerError, RequestId),
    /// Nothing: the event does not apply in this phase.
    Ignore,
}

/// A guest exchange: its phase and the announcement it builds up.
#[derive(Debug)]
pub struct GuestExchange {
    pub phase: GuestPhase,
    pub notify: RequestNotify,
}

pub open spec fn with_phase(s: GuestExchange, phase: GuestPhase) -> GuestExchange {
    GuestExchange { phase, notify: s.notify }
}

/// The transition table of a guest exchange: the next state `t` and action
/// `a` for the event `e` in state `s`.
pub open spec fn guest_transition(s: GuestExchange, e: GuestEvent, t: GuestExchange, a: GuestAction) -> bool {
    let id = s.notify.id;
    match (s.phase, e) {
        (GuestPhase::CheckRoom, GuestEvent::RoomChecked(r)) => if r == Ok::<bool, ServerError>(true) {
            t == with_phase(s, GuestPhase::ReadBody) && a == GuestAction::ReadBody
        } else {
            t == with_phase(s, GuestPhase::Done) && a == GuestAction::Fail(ServerError::UserRoomIsNotOpen)
        },
        (GuestPhase::ReadBody, GuestEvent::BodyRead(Some(b))) => t == with_phase(s, GuestPhase::Insert)
            && a == GuestAction::InsertRequest(b),
        (GuestPhase::ReadBody, GuestEvent::BodyRead(None)) => t == with_phase(s, GuestPhase::Done) && a
            == GuestAction::Fail(ServerError::FailedParseRequestBody),
        (GuestPhase::Insert, GuestEvent::Inserted(Ok(new_id))) => t == (GuestExchange {
            phase: GuestPhase::Listen,
            notify: RequestNotify { id: new_id, ..s.notify },
        }) && a == GuestAction::Listen(new_id),
        (GuestPhase::Insert, GuestEvent::Inserted(Err(err))) => t == with_phase(s, GuestPhase::Done) && a
            == GuestAction::Fail(err),
        (GuestPhase::Listen, GuestEvent::Listening(Ok(_))) => t == with_phase(s, GuestPhase::Publish) && a
            == GuestAction::Publish(s.notify),
        (GuestPhase::Listen, GuestEvent::Listening(Err(err))) => t == with_phase(s, GuestPhase::Done) && a
            == GuestAction::FailAndDelete(err, id),
        (GuestPhase::Publish, GuestEvent::Published(Ok(_))) => t == with_phase(s, GuestPhase::Await) && a
            == GuestAction::Wait,
        (GuestPhase::Publish, GuestEvent::Published(Err(err))) => t == with_phase(s, GuestPhase::Done) && a
            == GuestAction::FailAndDelete(err, id),
        (GuestPhase::Await, GuestEvent::Notified(p)) => if p@ == uuid_text(id.0) {
            t == with_phase(s, GuestPhase::Take) && a == GuestAction::TakeResponse(id)
        } else {
            t == s && a == GuestAction::Wait
        },
        (GuestPhase::Take, GuestEvent::Taken(Ok(bytes))) => t == with_phase(s, GuestPhase::Done) && match cgi_reply(
            bytes@,
        ) {
            Some(rep) => match a {
                GuestAction::Reply(resp) => rep == (resp.status, headers_view(resp.headers@), resp.body@),
                _ => false,
            },
            None => a == GuestAction::Fail(ServerError::FailedParseGitResponse),
        },
        (GuestPhase::Take, GuestEvent::Taken(Err(_))) => t == with_phase(s, GuestPhase::Await) && a
            == GuestAction::Wait,
        (GuestPhase::Await, GuestEvent::GaveUp) | (GuestPhase::Take, GuestEvent::GaveUp) => t == with_phase(
            s,
            GuestPhase::Done,
        ) && a == GuestAction::FailAndDelete(ServerError::FailedRecvGitResponse, id),
        _ => t == s && a == GuestAction::Ignore,
    }
}

/// Whether a guest-channel payload announces the response of request `id`.
pub fn is_response_for(payload: &String, id: RequestId) -> (r: bool)
    ensures
        r == (payload@ == uuid_text(id.0)),
{
    let expected = id.to_text();
    *payload == expected
}

impl GuestExchange {
    /// An exchange for the announcement `notify`, whose id is not set yet;
    /// its driver first reads the open flag of the room of `notify.to`.
    pub fn new(notify: RequestNotify) -> (r: GuestExchange)
        ensures
            r.phase == GuestPhase::CheckRoom,
            r.notify == notify,
    {
        GuestExchange { phase: GuestPhase::CheckRoom, notify }
    }

    /// Takes the exchange one step on `event` and says what to do.
    pub fn step(&mut self, event: GuestEvent) -> (action: GuestAction)
        ensures
            guest_transition(*old(self), event, *final(self), action),
    {
        let id = self.notify.id;
        match (self.phase, event) {
            (GuestPhase::CheckRoom, GuestEvent::RoomChecked(r)) => {
                let open = match r {
                    Ok(b) => b,
                    Err(_) => false,
                };
                if open {
                    self.phase = GuestPhase::ReadBody;
                    GuestAction::ReadBody
                } else {
                    self.phase = GuestPhase::Done;
                    GuestAction::Fail(ServerError::UserRoomIsNotOpen)
                }
            },
            (GuestPhase::ReadBody, GuestEvent::BodyRead(Some(b))) => {
                self.phase = GuestPhase::Insert;
                GuestAction::InsertRequest(b)
            },
            (GuestPhase::ReadBody, GuestEvent::BodyRead(None)) => {
                self.phase = GuestPhase::Done;
                GuestAction::Fail(ServerError::FailedParseRequestBody)
            },
            (GuestPhase::Insert, GuestEvent::Inserted(Ok(new_id))) => {
                self.phase = GuestPhase::Listen;
                self.notify.id = new_id;
                GuestAction::Listen(new_id)
            },
            (GuestPhase::Insert, GuestEvent::Inserted(Err(err))) => {
                self.phase = GuestPhase::Done;
                GuestAction::Fail(err)
            },
            (GuestPhase::Listen, GuestEvent::Listening(Ok(_))) => {
                self.phase = GuestPhase::Publish;
                GuestAction::Publish(self.notify.duplicate())
            },
            (GuestPhase::Listen, GuestEvent::Listening(Err(err)))
            | (GuestPhase::Publish, GuestEvent::Published(Err(err))) => {
                self.phase = GuestPhase::Done;
                GuestAction::FailAndDelete(err, id)
            },
            (GuestPhase::Publish, GuestEvent::Published(Ok(_))) => {
                self.phase = GuestPhase::Await;
                GuestAction::Wait
            },
            (GuestPhase::Await, GuestEvent::Notified(p)) => {
                if is_response_for(&p, id) {
                    self.phase = GuestPhase::Take;
                    GuestAction::TakeResponse(id)
                } else {
                    GuestAction::Wait
                }
            },
            (GuestPhase::Take, GuestEvent::Taken(Ok(bytes))) => {
                self.phase = GuestPhase::Done;
                match convert_to_response(bytes.as_slice()) {
                    Ok(resp) => GuestAction::Reply(resp),
                    Err(e) => GuestAction::Fail(e),
                }
            },
            (GuestPhase::Take, GuestEvent::Taken(Err(_))) => {
                self.phase = GuestPhase::Await;
                GuestAction::Wait
            },
            (GuestPhase::Await, GuestEvent::GaveUp) | (GuestPhase::Take, GuestEvent::GaveUp) => {
                self.phase = GuestPhase::Done;
                GuestAction::FailAndDelete(ServerError::FailedRecvGitResponse, id)
            },
            _ => GuestAction::Ignore,
        }
    }
}

/// The announcement goes out only after the guest-channel subscription has
/// been confirmed, and it carries the id of the inserted request row.
pub proof fn lemma_publish_after_listening(s: GuestExchange, e: GuestEvent, t: GuestExchange, a: GuestAction)
    requires
        guest_transition(s, e, t, a),
        a matches GuestAction::Publish(_),
    ensures
        s.phase == GuestPhase::Listen,
        e matches GuestEvent::Listening(Ok(_)),
        a == GuestAction::Publish(s.notify),
{
}

/// The subscription is opened only for a request row that was just
/// inserted, under that row's id.
pub proof fn lemma_listen_after_insert(s: GuestExchange, e: GuestEvent, t: GuestExchange, id: RequestId)
    requires
        guest_transition(s, e, t, GuestAction::Listen(id)),
    ensures
        s.phase == GuestPhase::Insert,
        e == GuestEvent::Inserted(Ok(id)),
        t.notify.id == id,
{
}

} // verus!
