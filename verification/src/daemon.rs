//! Daemon configuration: fixed at process start, shared by reference by
//! every connection, never mutated afterwards.

use vstd::prelude::*;

verus! {

/// How long a signing request may wait for its decision when no other
/// timeout is configured, in seconds.
pub const DEFAULT_APPROVAL_TIMEOUT_SECS: u64 = 300;

/// What the daemon is started with: where to listen, where the real
/// agent lives, the out-of-band channel's credentials, and the approval
/// timeout.
#[derive(Clone, Debug)]
pub struct DaemonConfig {
    /// Listening path; `None` asks for the default.
    pub socket_path: Option<String>,
    /// Credential for the out-of-band notification channel.
    pub bot_token: String,
    /// Destination of the out-of-band prompts.
    pub chat_id: i64,
    /// Path of the real agent's socket; `None` defers to the inherited
    /// environment, which the process's edge resolves before start.
    pub ssh_auth_sock: Option<String>,
    /// How long a signing request may wait for its decision, in seconds.
    pub approval_timeout_secs: u64,
}

impl DaemonConfig {
    /// The path the proxy listens on: the configured one, or the default.
    pub fn socket_path(&self) -> (r: String)
        ensures
            r@ == match self.socket_path {
                Some(p) => p@,
                None => "/tmp/git-sentry.sock"@,
            },
    {
        match &self.socket_path {
            Some(p) => p.clone(),
            None => "/tmp/git-sentry.sock".to_owned(),
        }
    }
}

} // verus!
