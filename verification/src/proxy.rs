//! Per-connection proxy state machine.
//!
//! One handler serves one accepted connection: it takes one frame,
//! classifies it, and either forwards it to the real agent untouched or
//! routes it through the approval coordinator; the client then receives
//! the upstream's bytes or the canonical failure frame. The machine only
//! decides; reading, prompting, forwarding and writing are the driver's,
//! which feeds every result back in as an event.

use vstd::prelude::*;
use crate::coordinator::Outcome;
use crate::ssh_protocol::{
    parse_message, spec_failure_frame, spec_parse, failure_frame, SshMessage, SshMessageModel,
};

verus! {

/// The sixteen lowercase hex digits, in value order.
pub open spec fn hex_digits() -> Seq<char> {
    seq!['0', '1', '2', '3', '4', '5', '6', '7', '8', '9', 'a', 'b', 'c', 'd', 'e', 'f']
}

/// Lowercase hex encoding: each byte becomes two digits, high nibble first.
pub open spec fn hex_of(b: Seq<u8>) -> Seq<char>
    decreases b.len(),
{
    if b.len() == 0 {
        Seq::empty()
    } else {
        seq![hex_digits()[(b[0] >> 4) as int], hex_digits()[(b[0] & 0xf) as int]] + hex_of(
            b.drop_first(),
        )
    }
}

/// Relies on hex::encode: each input byte becomes two lowercase hex
/// digits, high nibble first, in input order.
#[verifier::external_body]
fn hex_encode(b: &[u8]) -> (r: String)
    ensures
        r@ == hex_of(b@),
{
    hex::encode(b)
}

/// How many payload bytes the prompt's preview may show.
pub const PREVIEW_BYTES: usize = 32;

/// The text shown for a signing payload: the hex of at most
/// `PREVIEW_BYTES` leading bytes — never the payload in full.
pub open spec fn preview_model(data: Seq<u8>) -> Seq<char> {
    if data.len() <= PREVIEW_BYTES {
        hex_of(data)
    } else {
        hex_of(data.take(PREVIEW_BYTES as int))
    }
}

/// Renders the bounded hex preview of a signing payload.
pub fn sign_request_preview(data: &Vec<u8>) -> (r: String)
    ensures
        r@ == preview_model(data@),
{
    let n = if data.len() < PREVIEW_BYTES {
        data.len()
    } else {
        PREVIEW_BYTES
    };
    let prefix = &data.as_slice()[0..n];
    proof {
        if data@.len() <= PREVIEW_BYTES {
            assert(prefix@ =~= data@);
        } else {
            assert(prefix@ =~= data@.take(PREVIEW_BYTES as int));
        }
    }
    hex_encode(prefix)
}

/// Where one connection stands.
pub enum HandlerState {
    /// Nothing read yet.
    AwaitingRequest,
    /// A sign request was read; its raw bytes wait on the human decision.
    AwaitingApproval { raw: Vec<u8> },
    /// The frame is cleared to go upstream, bit for bit.
    Forwarding { raw: Vec<u8> },
    /// These bytes go back to the client.
    Responding { response: Vec<u8> },
    /// Terminal: the connection is done.
    Closed,
}

/// What the driver must do next.
pub enum HandlerAction {
    /// Register with the coordinator, send the prompt carrying this
    /// preview, and await the outcome.
    AwaitDecision { preview: String },
    /// Relay exactly these bytes to the real agent and read its reply.
    ForwardUpstream { raw: Vec<u8> },
    /// Write exactly these bytes back to the client.
    WriteResponse { response: Vec<u8> },
    /// Release the connection.
    Close,
}

/// What the driver reports back.
pub enum HandlerEvent {
    /// One whole frame arrived from the client.
    FrameReceived { raw: Vec<u8> },
    /// The client closed before sending a frame.
    ClientClosed,
    /// The wait for a decision ended.
    Decided { outcome: Outcome },
    /// The real agent answered with these bytes.
    UpstreamReplied { raw: Vec<u8> },
    /// The real agent could not be reached or did not answer.
    UpstreamFailed,
    /// The response bytes were written in full.
    ResponseWritten,
}

/// Model of a [`HandlerState`].
#[verifier::ext_equal]
pub enum HandlerStateModel {
    AwaitingRequest,
    AwaitingApproval { raw: Seq<u8> },
    Forwarding { raw: Seq<u8> },
    Responding { response: Seq<u8> },
    Closed,
}

/// Model of a [`HandlerAction`].
#[verifier::ext_equal]
pub enum HandlerActionModel {
    AwaitDecision { preview: Seq<char> },
    ForwardUpstream { raw: Seq<u8> },
    WriteResponse { response: Seq<u8> },
    Close,
}

/// Model of a [`HandlerEvent`].
#[verifier::ext_equal]
pub enum HandlerEventModel {
    FrameReceived { raw: Seq<u8> },
    ClientClosed,
    Decided { outcome: Outcome },
    UpstreamReplied { raw: Seq<u8> },
    UpstreamFailed,
    ResponseWritten,
}

impl View for HandlerState {
    type V = HandlerStateModel;

    open spec fn view(&self) -> HandlerStateModel {
        match self {
            HandlerState::AwaitingRequest => HandlerStateModel::AwaitingRequest,
            HandlerState::AwaitingApproval { raw } => HandlerStateModel::AwaitingApproval {
                raw: raw@,
            },
            HandlerState::Forwarding { raw } => HandlerStateModel::Forwarding { raw: raw@ },
            HandlerState::Responding { response } => HandlerStateModel::Responding {
                response: response@,
            },
            HandlerState::Closed => HandlerStateModel::Closed,
        }
    }
}

impl View for HandlerAction {
    type V = HandlerActionModel;

    open spec fn view(&self) -> HandlerActionModel {
        match self {
            HandlerAction::AwaitDecision { preview } => HandlerActionModel::AwaitDecision {
                preview: preview@,
            },
            HandlerAction::ForwardUpstream { raw } => HandlerActionModel::ForwardUpstream {
                raw: raw@,
            },
            HandlerAction::WriteResponse { response } => HandlerActionModel::WriteResponse {
                response: response@,
            },
            HandlerAction::Close => HandlerActionModel::Close,
        }
    }
}

impl View for HandlerEvent {
    type V = HandlerEventModel;

    open spec fn view(&self) -> HandlerEventModel {
        match self {
            HandlerEvent::FrameReceived { raw } => HandlerEventModel::FrameReceived { raw: raw@ },
            HandlerEvent::ClientClosed => HandlerEventModel::ClientClosed,
            HandlerEvent::Decided { outcome } => HandlerEventModel::Decided { outcome: *outcome },
            HandlerEvent::UpstreamReplied { raw } => HandlerEventModel::UpstreamReplied {
                raw: raw@,
            },
            HandlerEvent::UpstreamFailed => HandlerEventModel::UpstreamFailed,
            HandlerEvent::ResponseWritten => HandlerEventModel::ResponseWritten,
        }
    }
}

/// The transition relation of one connection, as a function: given where
/// the connection stands and what just happened, where it stands next
/// and what the driver must do. A sign request waits on a decision;
/// everything else parseable is forwarded bit for bit; every refusal —
/// denial, timeout, coordinator error, upstream failure — answers with
/// the canonical failure frame; an event that does not belong to the
/// state closes the connection.
pub open spec fn handler_step_model(s: HandlerStateModel, e: HandlerEventModel) -> (
    HandlerStateModel,
    HandlerActionModel,
) {
    match (s, e) {
        (HandlerStateModel::AwaitingRequest, HandlerEventModel::FrameReceived { raw }) => {
            match spec_parse(raw) {
                Ok(m) => if m is SignRequest {
                    (
                        HandlerStateModel::AwaitingApproval { raw },
                        HandlerActionModel::AwaitDecision { preview: preview_model(m->data) },
                    )
                } else {
                    (
                        HandlerStateModel::Forwarding { raw },
                        HandlerActionModel::ForwardUpstream { raw },
                    )
                },
                Err(_) => (HandlerStateModel::Closed, HandlerActionModel::Close),
            }
        },
        (HandlerStateModel::AwaitingRequest, HandlerEventModel::ClientClosed) => (
            HandlerStateModel::Closed,
            HandlerActionModel::Close,
        ),
        (HandlerStateModel::AwaitingApproval { raw }, HandlerEventModel::Decided { outcome }) => {
            if outcome == Outcome::Approved {
                (
                    HandlerStateModel::Forwarding { raw },
                    HandlerActionModel::ForwardUpstream { raw },
                )
            } else {
                (
                    HandlerStateModel::Responding { response: spec_failure_frame() },
                    HandlerActionModel::WriteResponse { response: spec_failure_frame() },
                )
            }
        },
        (HandlerStateModel::Forwarding { .. }, HandlerEventModel::UpstreamReplied { raw }) => (
            HandlerStateModel::Responding { response: raw },
            HandlerActionModel::WriteResponse { response: raw },
        ),
        (HandlerStateModel::Forwarding { .. }, HandlerEventModel::UpstreamFailed) => (
            HandlerStateModel::Responding { response: spec_failure_frame() },
            HandlerActionModel::WriteResponse { response: spec_failure_frame() },
        ),
        (HandlerStateModel::Responding { .. }, HandlerEventModel::ResponseWritten) => (
            HandlerStateModel::Closed,
            HandlerActionModel::Close,
        ),
        _ => (HandlerStateModel::Closed, HandlerActionModel::Close),
    }
}

/// Performs one transition of the connection state machine.
pub fn handler_step(state: HandlerState, event: HandlerEvent) -> (r: (HandlerState, HandlerAction))
    ensures
        (r.0@, r.1@) == handler_step_model(state@, event@),
{
    match (state, event) {
        (HandlerState::AwaitingRequest, HandlerEvent::FrameReceived { raw }) => {
            match parse_message(raw.as_slice()) {
                Ok(m) => {
                    match m {
                        SshMessage::SignRequest { key_blob: _, data, flags: _ } => {
                            let preview = sign_request_preview(&data);
                            (
                                HandlerState::AwaitingApproval { raw },
                                HandlerAction::AwaitDecision { preview },
                            )
                        },
                        _ => {
                            let copy = vstd::slice::slice_to_vec(raw.as_slice());
                            (
                                HandlerState::Forwarding { raw },
                                HandlerAction::ForwardUpstream { raw: copy },
                            )
                        },
                    }
                },
                Err(_) => (HandlerState::Closed, HandlerAction::Close),
            }
        },
        (HandlerState::AwaitingRequest, HandlerEvent::ClientClosed) => (
            HandlerState::Closed,
            HandlerAction::Close,
        ),
        (HandlerState::AwaitingApproval { raw }, HandlerEvent::Decided { outcome }) => {
            if outcome == Outcome::Approved {
                let copy = vstd::slice::slice_to_vec(raw.as_slice());
                (HandlerState::Forwarding { raw }, HandlerAction::ForwardUpstream { raw: copy })
            } else {
                let f1 = failure_frame();
                let f2 = failure_frame();
                (
                    HandlerState::Responding { response: f1 },
                    HandlerAction::WriteResponse { response: f2 },
                )
            }
        },
        (HandlerState::Forwarding { raw: _ }, HandlerEvent::UpstreamReplied { raw }) => {
            let copy = vstd::slice::slice_to_vec(raw.as_slice());
            (HandlerState::Responding { response: raw }, HandlerAction::WriteResponse {
                response: copy,
            })
        },
        (HandlerState::Forwarding { raw: _ }, HandlerEvent::UpstreamFailed) => {
            let f1 = failure_frame();
            let f2 = failure_frame();
            (
                HandlerState::Responding { response: f1 },
                HandlerAction::WriteResponse { response: f2 },
            )
        },
        (HandlerState::Responding { response: _ }, HandlerEvent::ResponseWritten) => (
            HandlerState::Closed,
            HandlerAction::Close,
        ),
        _ => (HandlerState::Closed, HandlerAction::Close),
    }
}

/// Denial produces the canonical failure frame: on any outcome but
/// approval the handler answers with the 5-byte failure frame and the
/// original request is never sent upstream.
pub proof fn lemma_denial_never_forwards(raw: Seq<u8>, outcome: Outcome)
    requires
        outcome != Outcome::Approved,
    ensures
        handler_step_model(
            HandlerStateModel::AwaitingApproval { raw },
            HandlerEventModel::Decided { outcome },
        ) == (
            HandlerStateModel::Responding { response: spec_failure_frame() },
            HandlerActionModel::WriteResponse { response: spec_failure_frame() },
        ),
{
}

/// Forwarding transparency: a frame that parses to anything but a sign
/// request goes upstream bit for bit, and the upstream's reply reaches
/// the client bit for bit.
pub proof fn lemma_forwarding_transparency(raw: Seq<u8>, reply: Seq<u8>)
    requires
        spec_parse(raw) matches Ok(m) && !(m is SignRequest),
    ensures
        handler_step_model(
            HandlerStateModel::AwaitingRequest,
            HandlerEventModel::FrameReceived { raw },
        ).1 == (HandlerActionModel::ForwardUpstream { raw }),
        handler_step_model(
            handler_step_model(
                HandlerStateModel::AwaitingRequest,
                HandlerEventModel::FrameReceived { raw },
            ).0,
            HandlerEventModel::UpstreamReplied { raw: reply },
        ).1 == (HandlerActionModel::WriteResponse { response: reply }),
{
}

/// An approved sign request goes upstream as the original raw bytes, not
/// a re-serialized copy.
pub proof fn lemma_approval_forwards_original(raw: Seq<u8>)
    ensures
        handler_step_model(
            HandlerStateModel::AwaitingApproval { raw },
            HandlerEventModel::Decided { outcome: Outcome::Approved },
        ) == (
            HandlerStateModel::Forwarding { raw },
            HandlerActionModel::ForwardUpstream { raw },
        ),
{
}

} // verus!
