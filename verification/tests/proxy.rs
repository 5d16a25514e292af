use git_sentry::coordinator::{Coordinator, Decision, Outcome};
use git_sentry::proxy::{
    handler_step, sign_request_preview, HandlerAction, HandlerEvent, HandlerState,
};
use git_sentry::ssh_protocol::SshMessage;

const FAILURE: [u8; 5] = [0x00, 0x00, 0x00, 0x01, 0x05];

fn sign_frame(data: Vec<u8>) -> Vec<u8> {
    SshMessage::SignRequest { key_blob: vec![1, 2, 3], data, flags: 0 }.to_bytes()
}

#[test]
fn request_identities_is_forwarded_unchanged() {
    // client sends a RequestIdentities frame; the stub upstream echoes a
    // fixed reply; the client must receive exactly that reply, unprompted
    let request = vec![0x00, 0x00, 0x00, 0x01, 0x0b];
    let (state, action) = handler_step(
        HandlerState::AwaitingRequest,
        HandlerEvent::FrameReceived { raw: request.clone() },
    );
    let forwarded = match action {
        HandlerAction::ForwardUpstream { raw } => raw,
        other => panic!("expected a forward, got {:?}", describe(&other)),
    };
    assert_eq!(forwarded, request);

    let reply = vec![0x00, 0x00, 0x00, 0x01, 0x0c];
    let (state, action) = handler_step(state, HandlerEvent::UpstreamReplied { raw: reply.clone() });
    let written = match action {
        HandlerAction::WriteResponse { response } => response,
        other => panic!("expected a write, got {:?}", describe(&other)),
    };
    assert_eq!(written, reply);

    let (state, action) = handler_step(state, HandlerEvent::ResponseWritten);
    assert!(matches!(state, HandlerState::Closed));
    assert!(matches!(action, HandlerAction::Close));
}

#[test]
fn sign_request_asks_for_a_decision() {
    let frame = sign_frame(vec![0xde, 0xad, 0xbe, 0xef]);
    let (state, action) = handler_step(
        HandlerState::AwaitingRequest,
        HandlerEvent::FrameReceived { raw: frame },
    );
    assert!(matches!(state, HandlerState::AwaitingApproval { .. }));
    match action {
        HandlerAction::AwaitDecision { preview } => assert_eq!(preview, "deadbeef"),
        other => panic!("expected a decision wait, got {:?}", describe(&other)),
    }
}

#[test]
fn denied_sign_request_gets_failure_frame_and_never_goes_upstream() {
    // client sends a well-formed sign request; the harness denies at once
    let frame = sign_frame(vec![1, 2, 3]);
    let (state, action) = handler_step(
        HandlerState::AwaitingRequest,
        HandlerEvent::FrameReceived { raw: frame },
    );
    assert!(matches!(action, HandlerAction::AwaitDecision { .. }));

    let mut c = Coordinator::new();
    let id = c.register(0).unwrap();
    c.resolve(id, Decision::Denied).unwrap();
    let outcome = c.await_decision(id, 0, 300).unwrap();
    assert_eq!(outcome, Outcome::Denied);

    let (state, action) = handler_step(state, HandlerEvent::Decided { outcome });
    match &action {
        HandlerAction::WriteResponse { response } => assert_eq!(response.as_slice(), &FAILURE),
        other => panic!("expected the failure frame, got {:?}", describe(other)),
    }
    assert!(!matches!(action, HandlerAction::ForwardUpstream { .. }));
    assert!(matches!(state, HandlerState::Responding { .. }));
}

#[test]
fn timed_out_sign_request_gets_failure_frame() {
    // no resolution ever arrives; timeout is one time unit
    let frame = sign_frame(vec![5, 5, 5]);
    let (state, _) = handler_step(
        HandlerState::AwaitingRequest,
        HandlerEvent::FrameReceived { raw: frame },
    );

    let mut c = Coordinator::new();
    let id = c.register(7).unwrap();
    assert_eq!(c.await_decision(id, 7, 1), None); // not before one unit
    let outcome = c.await_decision(id, 8, 1).unwrap(); // at one unit
    assert_eq!(outcome, Outcome::TimedOut);

    let (_, action) = handler_step(state, HandlerEvent::Decided { outcome });
    match action {
        HandlerAction::WriteResponse { response } => assert_eq!(response.as_slice(), &FAILURE),
        other => panic!("expected the failure frame, got {:?}", describe(&other)),
    }
}

#[test]
fn approved_sign_request_forwards_the_original_bytes() {
    let frame = sign_frame(vec![9]);
    let (state, _) = handler_step(
        HandlerState::AwaitingRequest,
        HandlerEvent::FrameReceived { raw: frame.clone() },
    );
    let (state, action) = handler_step(state, HandlerEvent::Decided { outcome: Outcome::Approved });
    match action {
        HandlerAction::ForwardUpstream { raw } => assert_eq!(raw, frame),
        other => panic!("expected a forward, got {:?}", describe(&other)),
    }
    assert!(matches!(state, HandlerState::Forwarding { .. }));
}

#[test]
fn upstream_failure_gets_failure_frame() {
    let raw = vec![0x00, 0x00, 0x00, 0x01, 0x0b];
    let (state, _) = handler_step(
        HandlerState::AwaitingRequest,
        HandlerEvent::FrameReceived { raw },
    );
    let (_, action) = handler_step(state, HandlerEvent::UpstreamFailed);
    match action {
        HandlerAction::WriteResponse { response } => assert_eq!(response.as_slice(), &FAILURE),
        other => panic!("expected the failure frame, got {:?}", describe(&other)),
    }
}

#[test]
fn malformed_frame_closes_the_connection() {
    let (state, action) = handler_step(
        HandlerState::AwaitingRequest,
        HandlerEvent::FrameReceived { raw: vec![0, 0, 0, 0] },
    );
    assert!(matches!(state, HandlerState::Closed));
    assert!(matches!(action, HandlerAction::Close));
}

#[test]
fn client_closing_early_closes_quietly() {
    let (state, action) = handler_step(HandlerState::AwaitingRequest, HandlerEvent::ClientClosed);
    assert!(matches!(state, HandlerState::Closed));
    assert!(matches!(action, HandlerAction::Close));
}

#[test]
fn preview_is_hex_and_bounded() {
    assert_eq!(sign_request_preview(&vec![0xde, 0xad]), "dead");
    assert_eq!(sign_request_preview(&vec![]), "");
    let long = vec![0xabu8; 40];
    let preview = sign_request_preview(&long);
    assert_eq!(preview.len(), 64); // 32 bytes, two digits each
    assert_eq!(preview, "ab".repeat(32));
}

fn describe(a: &HandlerAction) -> &'static str {
    match a {
        HandlerAction::AwaitDecision { .. } => "AwaitDecision",
        HandlerAction::ForwardUpstream { .. } => "ForwardUpstream",
        HandlerAction::WriteResponse { .. } => "WriteResponse",
        HandlerAction::Close => "Close",
    }
}
