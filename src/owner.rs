//! The owner session: the websocket of an authenticated owner, which opens
//! the owner's room, forwards the requests announced for it, and accepts
//! the responses. The session decides; its driver performs the actions.
use vstd::prelude::*;

use crate::error::{status_of, ServerError};
use crate::types::{convert_to_git_request, uuid_text, GitRequest, GitResponse, RequestId, RequestNotify, UserId};

verus! {

/// Where an owner session stands.
#[derive(Debug, Clone, Copy, PartialEq, Eq, Structural)]
pub enum OwnerPhase {
    /// Waiting for the bearer token to be checked.
    Start,
    /// Authenticated; subscribing to the owner channel.
    Authenticated,
    /// Subscribed; opening the room.
    Subscribed,
    /// Room open; forwarding requests and accepting responses.
    Serving,
    /// Closing the room.
    Closing,
    /// Room closed and websocket closed.
    Terminal,
    /// Authentication failed.
    Rejected,
}

/// What the driver of a session reports.
#[derive(Debug)]
pub enum OwnerEvent {
    /// Outcome of checking the bearer token.
    Authenticated(Result<UserId, ServerError>),
    /// Outcome of subscribing to the owner channel.
    Subscribed(Result<(), ServerError>),
    /// Outcome of marking the room open.
    RoomOpened(Result<(), ServerError>),
    /// The websocket closed or failed, or one of the two tasks ended.
    Ended,
    /// The attempt to mark the room closed finished, whatever its outcome.
    RoomClosed,
}

/// What the driver of a session must do next.
#[derive(Debug, Clone, Copy, PartialEq, Eq, Structural)]
pub enum OwnerAction {
    /// Refuse the upgrade with this HTTP status.
    Reject(u16),
    /// Open a listener on the owner channel.
    Subscribe,
    /// Mark the owner's room open.
    OpenRoom(UserId),
    /// Run the forwarder and the consumer until either ends.
    Serve,
    /// Mark the owner's room closed.
    CloseRoom(UserId),
    /// Close the websocket.
    CloseSocket,
    /// Nothing: the event does not apply in this phase.
    Ignore,
}

/// An owner session: its phase and, once authenticated, its user.
#[derive(Debug, Clone, Copy, PartialEq, Eq, Structural)]
pub struct OwnerSession {
    pub phase: OwnerPhase,
    pub user_id: UserId,
}

/// Whether the room may be open in this phase: from the subscription on,
/// until the close has run.
pub open spec fn room_may_be_open(phase: OwnerPhase) -> bool {
    phase == OwnerPhase::Subscribed || phase == OwnerPhase::Serving || phase == OwnerPhase::Closing
}

/// The transition table of an owner session.
pub open spec fn owner_next(s: OwnerSession, e: OwnerEvent) -> (OwnerSession, OwnerAction) {
    let closing = OwnerSession { phase: OwnerPhase::Closing, user_id: s.user_id };
    match (s.phase, e) {
        (OwnerPhase::Start, OwnerEvent::Authenticated(Ok(u))) => (
            OwnerSession { phase: OwnerPhase::Authenticated, user_id: u },
            OwnerAction::Subscribe,
        ),
        (OwnerPhase::Start, OwnerEvent::Authenticated(Err(err))) => (
            OwnerSession { phase: OwnerPhase::Rejected, user_id: s.user_id },
            OwnerAction::Reject(status_of(err)),
        ),
        (OwnerPhase::Authenticated, OwnerEvent::Subscribed(Ok(()))) => (
            OwnerSession { phase: OwnerPhase::Subscribed, user_id: s.user_id },
            OwnerAction::OpenRoom(s.user_id),
        ),
        (OwnerPhase::Authenticated, OwnerEvent::Subscribed(Err(_))) => (
            closing,
            OwnerAction::CloseRoom(s.user_id),
        ),
        (OwnerPhase::Authenticated, OwnerEvent::Ended) => (closing, OwnerAction::CloseRoom(s.user_id)),
        (OwnerPhase::Subscribed, OwnerEvent::RoomOpened(Ok(()))) => (
            OwnerSession { phase: OwnerPhase::Serving, user_id: s.user_id },
            OwnerAction::Serve,
        ),
        (OwnerPhase::Subscribed, OwnerEvent::RoomOpened(Err(_))) => (
            closing,
            OwnerAction::CloseRoom(s.user_id),
        ),
        (OwnerPhase::Subscribed, OwnerEvent::Ended) => (closing, OwnerAction::CloseRoom(s.user_id)),
        (OwnerPhase::Serving, OwnerEvent::Ended) => (closing, OwnerAction::CloseRoom(s.user_id)),
        (OwnerPhase::Closing, OwnerEvent::RoomClosed) => (
            OwnerSession { phase: OwnerPhase::Terminal, user_id: s.user_id },
            OwnerAction::CloseSocket,
        ),
        _ => (s, OwnerAction::Ignore),
    }
}

impl OwnerSession {
    /// A session whose bearer token is not checked yet.
    pub fn new() -> (r: OwnerSession)
        ensures
            r.phase == OwnerPhase::Start,
    {
        OwnerSession { phase: OwnerPhase::Start, user_id: UserId(0) }
    }

    /// Takes the session one step on `event` and says what to do.
    pub fn step(&mut self, event: OwnerEvent) -> (action: OwnerAction)
        ensures
            (*final(self), action) == owner_next(*old(self), event),
    {
        let user_id = self.user_id;
        match (self.phase, event) {
            (OwnerPhase::Start, OwnerEvent::Authenticated(Ok(u))) => {
                *self = OwnerSession { phase: OwnerPhase::Authenticated, user_id: u };
                OwnerAction::Subscribe
            },
            (OwnerPhase::Start, OwnerEvent::Authenticated(Err(err))) => {
                self.phase = OwnerPhase::Rejected;
                OwnerAction::Reject(err.as_status())
            },
            (OwnerPhase::Authenticated, OwnerEvent::Subscribed(Ok(()))) => {
                self.phase = OwnerPhase::Subscribed;
                OwnerAction::OpenRoom(user_id)
            },
            (OwnerPhase::Subscribed, OwnerEvent::RoomOpened(Ok(()))) => {
                self.phase = OwnerPhase::Serving;
                OwnerAction::Serve
            },
            (OwnerPhase::Authenticated, OwnerEvent::Subscribed(Err(_)))
            | (OwnerPhase::Authenticated, OwnerEvent::Ended)
            | (OwnerPhase::Subscribed, OwnerEvent::RoomOpened(Err(_)))
            | (OwnerPhase::Subscribed, OwnerEvent::Ended)
            | (OwnerPhase::Serving, OwnerEvent::Ended) => {
                self.phase = OwnerPhase::Closing;
                OwnerAction::CloseRoom(user_id)
            },
            (OwnerPhase::Closing, OwnerEvent::RoomClosed) => {
                self.phase = OwnerPhase::Terminal;
                OwnerAction::CloseSocket
            },
            _ => OwnerAction::Ignore,
        }
    }
}

/// Once a session has subscribed, it never reaches its end without the
/// room being marked closed: every step that leaves the phases in which the
/// room may be open goes to `Closing` and closes the room, and only
/// `Closing` leads to `Terminal`.
pub proof fn lemma_room_closed_on_exit(s: OwnerSession, e: OwnerEvent)
    requires
        room_may_be_open(s.phase),
    ensures
        ({
            let (t, a) = owner_next(s, e);
            &&& room_may_be_open(t.phase) || t.phase == OwnerPhase::Terminal
            &&& t.user_id == s.user_id
            &&& t.phase == OwnerPhase::Closing && s.phase != OwnerPhase::Closing ==> a
                == OwnerAction::CloseRoom(s.user_id)
            &&& t.phase == OwnerPhase::Terminal ==> s.phase == OwnerPhase::Closing
        }),
{
}

/// The room is opened only by a session whose subscription to the owner
/// channel has been confirmed, and only for its own user.
pub proof fn lemma_room_opened_after_subscription(s: OwnerSession, e: OwnerEvent, u: UserId)
    requires
        owner_next(s, e).1 == OwnerAction::OpenRoom(u),
    ensures
        s.phase == OwnerPhase::Authenticated,
        e matches OwnerEvent::Subscribed(Ok(_)),
        u == s.user_id,
{
}

/// Whether an announcement on the owner channel is for this owner.
pub fn is_for_owner(notify: &RequestNotify, user_id: UserId) -> (r: bool)
    ensures
        r == (notify.to == user_id),
{
    notify.to.0 == user_id.0
}

/// The request to send over the websocket for an announcement addressed to
/// `user_id`, given the outcome of loading its body: nothing where the
/// announcement is for another owner or the row is gone.
pub fn forward_request(user_id: UserId, notify: RequestNotify, body: Result<Vec<u8>, ServerError>) -> (r:
    Option<GitRequest>)
    ensures
        match r {
            Some(g) => notify.to == user_id && body is Ok && g == (GitRequest {
                id: notify.id,
                path_info: notify.path_info,
                required_method: notify.request_method,
                query_string: notify.query_string,
                content_length: notify.content_length,
                content_type: notify.content_type,
                body: body->Ok_0,
            }),
            None => notify.to != user_id || body is Err,
        },
{
    if !is_for_owner(&notify, user_id) {
        return None;
    }
    match body {
        Ok(b) => Some(convert_to_git_request(notify, b)),
        Err(_) => None,
    }
}

/// A response that the owner sent: what to store and what to publish on the
/// guest channel.
#[derive(Debug, Clone)]
pub struct ResponseDelivery {
    pub id: RequestId,
    pub output: Vec<u8>,
    /// The guest-channel payload: the request id as text.
    pub payload: String,
}

/// What to do with a websocket frame, given its decoding as a response:
/// frames that do not decode are skipped.
pub fn consume_frame(decoded: Option<GitResponse>) -> (r: Option<ResponseDelivery>)
    ensures
        match decoded {
            None => r is None,
            Some(g) => r is Some && r->Some_0.id == g.id && r->Some_0.output == g.output
                && r->Some_0.payload@ == uuid_text(g.id.0),
        },
{
    match decoded {
        None => None,
        Some(g) => {
            let payload = g.id.to_text();
            Some(ResponseDelivery { id: g.id, output: g.output, payload })
        },
    }
}

} // verus!
