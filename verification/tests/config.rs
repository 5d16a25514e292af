use git_sentry::daemon::{DaemonConfig, DEFAULT_APPROVAL_TIMEOUT_SECS};

fn base_config() -> DaemonConfig {
    DaemonConfig {
        socket_path: None,
        bot_token: "example-token".to_string(),
        chat_id: 42,
        ssh_auth_sock: Some("/run/user/1000/ssh-agent.sock".to_string()),
        approval_timeout_secs: DEFAULT_APPROVAL_TIMEOUT_SECS,
    }
}

#[test]
fn socket_path_defaults() {
    let c = base_config();
    assert_eq!(c.socket_path(), "/tmp/git-sentry.sock");
}

#[test]
fn socket_path_honours_configuration() {
    let mut c = base_config();
    c.socket_path = Some("/tmp/elsewhere.sock".to_string());
    assert_eq!(c.socket_path(), "/tmp/elsewhere.sock");
}

#[test]
fn default_timeout_is_five_minutes() {
    assert_eq!(DEFAULT_APPROVAL_TIMEOUT_SECS, 300);
}
