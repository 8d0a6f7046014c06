use modserver::cstr::{is_c_compatible, text_from_c, value_from_c};
use modserver::servlet::{echo_actions, Action};

#[test]
fn plain_name_is_c_compatible() {
    assert!(is_c_compatible("User-Agent"));
    assert!(is_c_compatible("text/plain; charset=UTF-8"));
}

#[test]
fn empty_is_c_compatible() {
    assert!(is_c_compatible(""));
}

#[test]
fn interior_nul_is_refused() {
    assert!(!is_c_compatible("ar\0g"));
    assert!(!is_c_compatible("\0"));
    assert!(!is_c_compatible("arg\0"));
}

#[test]
fn non_ascii_is_c_compatible() {
    assert!(is_c_compatible("naïve 日本"));
}

#[test]
fn echo_headers_are_c_compatible() {
    for a in echo_actions(Some("\0".to_string()), "GET".to_string(), None) {
        if let Action::SetHeader(n, v) = a {
            assert!(is_c_compatible(&n));
            assert!(is_c_compatible(&v));
        }
    }
}

#[test]
fn valid_text_decodes_as_is() {
    assert_eq!(text_from_c(b"GET"), "GET");
    assert_eq!(text_from_c("héllo".as_bytes()), "héllo");
    assert_eq!(text_from_c(b""), "");
}

#[test]
fn invalid_text_is_replaced() {
    assert_eq!(text_from_c(&[b'a', 0xFF, b'b']), "a\u{FFFD}b");
}

#[test]
fn missing_value_stays_missing() {
    assert_eq!(value_from_c(None), None);
}

#[test]
fn present_value_is_decoded() {
    assert_eq!(value_from_c(Some(b"curl".as_slice())), Some("curl".to_string()));
    assert_eq!(value_from_c(Some([0xC3u8].as_slice())), Some("\u{FFFD}".to_string()));
}
