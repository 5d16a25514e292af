use git_sentry::credential_helper::parse_credential_request;

fn lines(v: &[&str]) -> Vec<String> {
    v.iter().map(|s| s.to_string()).collect()
}

#[test]
fn parses_all_four_attributes() {
    let r = parse_credential_request(&lines(&[
        "protocol=https",
        "host=example.com",
        "username=bob",
        "password=hunter2",
    ]));
    assert_eq!(r.protocol, "https");
    assert_eq!(r.host, "example.com");
    assert_eq!(r.username.as_deref(), Some("bob"));
    assert_eq!(r.password.as_deref(), Some("hunter2"));
}

#[test]
fn missing_attributes_default() {
    let r = parse_credential_request(&lines(&[]));
    assert_eq!(r.protocol, "");
    assert_eq!(r.host, "");
    assert!(r.username.is_none());
    assert!(r.password.is_none());
}

#[test]
fn blank_line_ends_the_request() {
    let r = parse_credential_request(&lines(&[
        "protocol=https",
        "",
        "host=ignored.example",
    ]));
    assert_eq!(r.protocol, "https");
    assert_eq!(r.host, "");
}

#[test]
fn later_lines_overwrite_earlier_ones() {
    let r = parse_credential_request(&lines(&["host=first", "host=second"]));
    assert_eq!(r.host, "second");
}

#[test]
fn lines_without_equals_are_ignored() {
    let r = parse_credential_request(&lines(&["garbage", "host=kept"]));
    assert_eq!(r.host, "kept");
}

#[test]
fn value_may_contain_equals() {
    let r = parse_credential_request(&lines(&["password=a=b=c"]));
    assert_eq!(r.password.as_deref(), Some("a=b=c"));
}

#[test]
fn unknown_keys_are_ignored() {
    let r = parse_credential_request(&lines(&["path=repo.git", "host=h"]));
    assert_eq!(r.host, "h");
    assert_eq!(r.protocol, "");
}
