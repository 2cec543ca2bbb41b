use actix_posts::handler::text::{str_equals, str_precedes};

#[test]
fn earlier_timestamp_precedes_later() {
    assert!(str_precedes("2023-12-31 23:59:59", "2024-01-01 10:00:00"));
    assert!(!str_precedes("2024-01-02 09:00:00", "2024-01-01 10:00:00"));
}

#[test]
fn nothing_precedes_itself() {
    assert!(!str_precedes("2024-01-01 10:00:00", "2024-01-01 10:00:00"));
    assert!(!str_precedes("", ""));
}

#[test]
fn proper_prefix_precedes() {
    assert!(str_precedes("", "a"));
    assert!(str_precedes("abc", "abcd"));
    assert!(!str_precedes("abcd", "abc"));
}

#[test]
fn order_agrees_with_str_ord_beyond_ascii() {
    let pairs = [("z", "é"), ("é", "z"), ("日本", "日"), ("a\u{10000}", "a\u{ffff}")];
    for (a, b) in pairs {
        assert_eq!(str_precedes(a, b), a < b, "{} {}", a, b);
    }
}

#[test]
fn equality_by_characters() {
    assert!(str_equals("xml", "xml"));
    assert!(!str_equals("xml", "xm"));
    assert!(!str_equals("xml", "XML"));
    assert!(str_equals("", ""));
}
