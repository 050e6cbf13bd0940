use boopifier::strings::{find_sub, replace_all, split_char, str_eq};
use boopifier::NotificationError;

#[test]
fn each_error_variant_reports_its_message() {
    let cases = vec![
        (NotificationError::SendFailed("x".to_string()), "Failed to send notification: x"),
        (NotificationError::InvalidConfig("y".to_string()), "Invalid configuration: y"),
        (NotificationError::ServiceUnavailable, "Notification service unavailable"),
        (NotificationError::Io("z".to_string()), "I/O error: z"),
        (NotificationError::Template("t".to_string()), "Template rendering error: t"),
        (NotificationError::Network("n".to_string()), "Network request failed: n"),
        (NotificationError::Email("e".to_string()), "Email error: e"),
        (NotificationError::Audio("a".to_string()), "Audio playback error: a"),
        (NotificationError::Handler("h".to_string()), "Handler error: h"),
    ];
    for (err, expected) in cases {
        assert_eq!(err.message(), expected);
    }
}

#[test]
fn strings_toolkit_replaces_and_splits() {
    assert!(str_eq("abc", "abc"));
    assert!(!str_eq("abc", "abd"));
    assert_eq!(find_sub("hello world", "o w"), Some(4));
    assert_eq!(find_sub("hello", "xyz"), None);
    assert_eq!(replace_all("a-b-c", "-", "+"), "a+b+c");
    assert_eq!(replace_all("aaa", "aa", "b"), "ba");
    assert_eq!(split_char("tool.name", '.'), vec!["tool".to_string(), "name".to_string()]);
    assert_eq!(split_char("plain", '.'), vec!["plain".to_string()]);
    assert_eq!(split_char("a..b", '.'), vec!["a".to_string(), "".to_string(), "b".to_string()]);
}
