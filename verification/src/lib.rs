//! Approval-gated SSH-agent protocol proxy core.
//!
//! The library holds the verified heart of the proxy: the wire-protocol
//! codec, the approval coordinator that correlates in-flight signing
//! requests with asynchronously arriving decisions, and the per-connection
//! state machine that decides whether a frame is forwarded upstream or
//! answered with the canonical failure frame.

pub mod coordinator;
pub mod credential_helper;
pub mod daemon;
pub mod proxy;
pub mod ssh_protocol;
