//! The course of one relayed request, as a state machine.
//!
//! The machine decides; its driver does the waiting. A state says what the
//! driver has to do next, and the driver reports how that went as an event:
//!
//! ```text
//! start ─> AwaitingBody ─Body─> Sending ─Response─> AwaitingResponseBody ─ResponseBody─> Replied
//!    │          │                  │                        │                └─> Failed
//!    └─> Failed └─> Failed         └─> Failed               └─> Failed
//! ```
//!
//! One request is sent at most once: nothing leads back to `Sending`.

use vstd::prelude::*;
use vstd::string::*;

use crate::error::{AppError, AppErrorView};
use crate::header::HeaderView;
use crate::request::{
    build_outbound, build_outbound_spec, is_target_name, target_value, OutboundRequest,
    OutboundRequestView, RequestHead, RequestHeadView,
};
use crate::response::{
    build_inbound_response, build_inbound_response_spec, InboundResponse, InboundResponseView,
    ResponseHead, ResponseHeadView,
};

verus! {

/// Where one relayed request stands, and with it what its driver does next.
#[derive(Debug, PartialEq, Eq)]
pub enum Relay {
    /// Read the inbound body. The request is ready but for the body.
    AwaitingBody(OutboundRequest),
    /// Send this request, once.
    Sending(OutboundRequest),
    /// Read the body of the response that began with this head.
    AwaitingResponseBody(ResponseHead),
    /// Done: hand this response to the caller.
    Replied(InboundResponse),
    /// Done: report this error to the caller.
    Failed(AppError),
}

/// How the driver's last piece of work went.
#[derive(Debug, PartialEq, Eq)]
pub enum Event {
    /// The inbound body was read in full.
    Body(Vec<u8>),
    /// The inbound body could not be read in full.
    BodyUnreadable,
    /// The destination answered; its body is still to be read.
    Response(ResponseHead),
    /// The request could not be sent or was not answered; the text says why.
    SendFailed(String),
    /// The response's body was read in full.
    ResponseBody(Vec<u8>),
    /// The response's body could not be read in full.
    ResponseBodyUnreadable,
}

/// The mathematical content of a [`Relay`].
pub enum RelayView {
    AwaitingBody(OutboundRequestView),
    Sending(OutboundRequestView),
    AwaitingResponseBody(ResponseHeadView),
    Replied(InboundResponseView),
    Failed(AppErrorView),
}

/// The mathematical content of an [`Event`].
pub enum EventView {
    Body(Seq<u8>),
    BodyUnreadable,
    Response(ResponseHeadView),
    SendFailed(Seq<char>),
    ResponseBody(Seq<u8>),
    ResponseBodyUnreadable,
}

impl DeepView for Relay {
    type V = RelayView;

    open spec fn deep_view(&self) -> RelayView {
        match self {
            Relay::AwaitingBody(request) => RelayView::AwaitingBody(request.deep_view()),
            Relay::Sending(request) => RelayView::Sending(request.deep_view()),
            Relay::AwaitingResponseBody(head) => RelayView::AwaitingResponseBody(head.deep_view()),
            Relay::Replied(response) => RelayView::Replied(response.deep_view()),
            Relay::Failed(error) => RelayView::Failed(error.deep_view()),
        }
    }
}

impl DeepView for Event {
    type V = EventView;

    open spec fn deep_view(&self) -> EventView {
        match self {
            Event::Body(body) => EventView::Body(body@),
            Event::BodyUnreadable => EventView::BodyUnreadable,
            Event::Response(head) => EventView::Response(head.deep_view()),
            Event::SendFailed(cause) => EventView::SendFailed(cause@),
            Event::ResponseBody(body) => EventView::ResponseBody(body@),
            Event::ResponseBodyUnreadable => EventView::ResponseBodyUnreadable,
        }
    }
}

impl RelayView {
    /// The state in which the head of an inbound request puts the machine:
    /// waiting for the body, or failed because no destination is named.
    pub open spec fn start(head: RequestHeadView) -> RelayView {
        match build_outbound_spec(head) {
            Ok(request) => RelayView::AwaitingBody(request),
            Err(error) => RelayView::Failed(error),
        }
    }

    /// The state after an event.
    ///
    /// Each state that waits knows two events, one for success and one for
    /// failure. Any other event leaves it as it is, and nothing moves a state
    /// that is done.
    pub open spec fn step(self, event: EventView) -> RelayView {
        match (self, event) {
            (RelayView::AwaitingBody(request), EventView::Body(body)) => RelayView::Sending(
                request.with_body(body),
            ),
            (RelayView::AwaitingBody(_), EventView::BodyUnreadable) => RelayView::Failed(
                AppErrorView::BodyReadError,
            ),
            (RelayView::Sending(_), EventView::Response(head)) => RelayView::AwaitingResponseBody(
                head,
            ),
            (RelayView::Sending(_), EventView::SendFailed(cause)) => RelayView::Failed(
                AppErrorView::RequestFailed(cause),
            ),
            (RelayView::AwaitingResponseBody(head), EventView::ResponseBody(body)) => {
                match build_inbound_response_spec(head, body) {
                    Ok(response) => RelayView::Replied(response),
                    Err(error) => RelayView::Failed(error),
                }
            },
            (
                RelayView::AwaitingResponseBody(_),
                EventView::ResponseBodyUnreadable,
            ) => RelayView::Failed(AppErrorView::ResponseReadError),
            (state, _) => state,
        }
    }

    /// Whether the request has come to its end.
    pub open spec fn is_done(self) -> bool {
        self is Replied || self is Failed
    }

    /// How far the request has come: 0 before the body is read, 1 before the
    /// request is sent, 2 before the response's body is read, 3 when done.
    pub open spec fn stage(self) -> nat {
        match self {
            RelayView::AwaitingBody(_) => 0,
            RelayView::Sending(_) => 1,
            RelayView::AwaitingResponseBody(_) => 2,
            RelayView::Replied(_) => 3,
            RelayView::Failed(_) => 3,
        }
    }
}

impl Relay {
    /// Takes up an inbound request: see [`RelayView::start`].
    pub fn start(head: &RequestHead) -> (state: Relay)
        ensures
            state.deep_view() == RelayView::start(head.deep_view()),
    {
        match build_outbound(head) {
            Ok(request) => Relay::AwaitingBody(request),
            Err(error) => Relay::Failed(error),
        }
    }

    /// Moves on by one event: see [`RelayView::step`].
    pub fn step(self, event: Event) -> (next: Relay)
        ensures
            next.deep_view() == self.deep_view().step(event.deep_view()),
    {
        match self {
            Relay::AwaitingBody(request) => match event {
                Event::Body(body) => Relay::Sending(request.with_body(body)),
                Event::BodyUnreadable => Relay::Failed(AppError::BodyReadError),
                _ => Relay::AwaitingBody(request),
            },
            Relay::Sending(request) => match event {
                Event::Response(head) => Relay::AwaitingResponseBody(head),
                Event::SendFailed(cause) => Relay::Failed(AppError::RequestFailed(cause)),
                _ => Relay::Sending(request),
            },
            Relay::AwaitingResponseBody(head) => match event {
                Event::ResponseBody(body) => match build_inbound_response(&head, body) {
                    Ok(response) => Relay::Replied(response),
                    Err(error) => Relay::Failed(error),
                },
                Event::ResponseBodyUnreadable => Relay::Failed(AppError::ResponseReadError),
                _ => Relay::AwaitingResponseBody(head),
            },
            Relay::Replied(response) => Relay::Replied(response),
            Relay::Failed(error) => Relay::Failed(error),
        }
    }

    /// Whether the request has come to its end.
    pub fn is_done(&self) -> (done: bool)
        ensures
            done == self.deep_view().is_done(),
    {
        match self {
            Relay::Replied(_) => true,
            Relay::Failed(_) => true,
            _ => false,
        }
    }
}

/// No header named `Salt-Host` means no destination.
proof fn lemma_no_target_name_no_value(headers: Seq<HeaderView>)
    requires
        forall|i: int| 0 <= i < headers.len() ==> !is_target_name(#[trigger] headers[i].name),
    ensures
        target_value(headers) is None,
    decreases headers.len(),
{
    if headers.len() > 0 {
        let rest = headers.drop_first();
        assert forall|i: int| 0 <= i < rest.len() implies !is_target_name(
            #[trigger] rest[i].name,
        ) by {
            assert(rest[i] == headers[i + 1]);
        }
        lemma_no_target_name_no_value(rest);
    }
}

/// An inbound request without a `Salt-Host` header is answered with status
/// 400, whatever its method, path, query and other headers: the machine fails
/// at once with `MissingHeader("Salt-Host")`, before any body is read and
/// without anything being sent.
pub proof fn lemma_missing_target_is_bad_request(head: RequestHeadView)
    requires
        forall|i: int|
            0 <= i < head.headers.len() ==> !is_target_name(#[trigger] head.headers[i].name),
    ensures
        RelayView::start(head) == RelayView::Failed(AppErrorView::MissingHeader("Salt-Host"@)),
        RelayView::start(head)->Failed_0.status() == 400,
{
    lemma_no_target_name_no_value(head.headers);
}

/// A body goes through unchanged: whatever bytes the destination's response
/// holds, none, few or many, a reply holds the same bytes and the same status.
pub proof fn lemma_body_is_relayed_unchanged(head: ResponseHeadView, body: Seq<u8>)
    ensures
        RelayView::AwaitingResponseBody(head).step(EventView::ResponseBody(body)) matches RelayView::Replied(
            response,
        ) ==> response.body == body && response.status == head.status,
        RelayView::AwaitingResponseBody(head).step(EventView::ResponseBody(body)).is_done(),
{
}

/// A request that is done stays as it is, whatever event arrives.
pub proof fn lemma_done_is_final(state: RelayView, event: EventView)
    requires
        state.is_done(),
    ensures
        state.step(event) == state,
{
}

/// A request never goes back: no event takes it to an earlier stage, so a
/// request that has left `Sending` is not sent a second time. A step that
/// stays at its stage changes nothing at all.
pub proof fn lemma_step_never_goes_back(state: RelayView, event: EventView)
    ensures
        state.stage() <= state.step(event).stage(),
        state.step(event).stage() == state.stage() ==> state.step(event) == state,
{
}

} // verus!
