use modserver::servlet::{echo_actions, hello_actions, Action, HANDLED, STATUS_OK};

fn content_type() -> Action {
    Action::SetHeader("Content-Type".to_string(), "text/plain; charset=UTF-8".to_string())
}

#[test]
fn hello_writes_one_line() {
    assert_eq!(hello_actions(), vec![Action::Write(b"hello from Rust".to_vec())]);
}

#[test]
fn echo_with_arg_and_agent() {
    let r = echo_actions(
        Some("x=1".to_string()),
        "GET".to_string(),
        Some("curl/8.0".to_string()),
    );
    assert_eq!(
        r,
        vec![
            Action::SetStatus(200),
            content_type(),
            Action::Write(b"x=1".to_vec()),
            Action::Write(b"GET".to_vec()),
            Action::Write(b"curl/8.0".to_vec()),
            Action::Flush,
        ]
    );
}

#[test]
fn echo_without_arg_or_agent() {
    let r = echo_actions(None, "POST".to_string(), None);
    assert_eq!(
        r,
        vec![
            Action::SetStatus(200),
            content_type(),
            Action::Write(b"POST".to_vec()),
            Action::Flush,
        ]
    );
}

#[test]
fn echo_with_agent_only() {
    let r = echo_actions(None, "HEAD".to_string(), Some("Mozilla/5.0".to_string()));
    assert_eq!(r.len(), 5);
    assert_eq!(r[2], Action::Write(b"HEAD".to_vec()));
    assert_eq!(r[3], Action::Write(b"Mozilla/5.0".to_vec()));
    assert_eq!(r[4], Action::Flush);
}

#[test]
fn echo_writes_utf8_bytes() {
    let r = echo_actions(Some("é".to_string()), "GET".to_string(), None);
    assert_eq!(r[2], Action::Write(vec![0xC3, 0xA9]));
}

#[test]
fn echo_body_concatenates_request_text() {
    let r = echo_actions(Some("a".to_string()), "PUT".to_string(), Some("ua".to_string()));
    let mut body: Vec<u8> = Vec::new();
    for a in &r {
        if let Action::Write(b) = a {
            body.extend_from_slice(b);
        }
    }
    assert_eq!(body, b"aPUTua".to_vec());
}

#[test]
fn echo_empty_method() {
    let r = echo_actions(None, String::new(), None);
    assert_eq!(r[2], Action::Write(Vec::new()));
}

#[test]
fn status_constants() {
    assert_eq!(STATUS_OK, 200);
    assert_eq!(HANDLED, 0);
}
