use rebalance::format::space_sep_1000;
use rebalance::io::{sessionid_from_link, sessionid_to_link};

#[test]
fn test_1000() {
    assert_eq!(&space_sep_1000("1000".to_string()), "1000");
    assert_eq!(&space_sep_1000("432".to_string()), "432");
    assert_eq!(&space_sep_1000("92432".to_string()), "92 432");
    assert_eq!(&space_sep_1000("2192432".to_string()), "2 192 432");
    assert_eq!(&space_sep_1000("92432.65".to_string()), "92 432.65");
    assert_eq!(&space_sep_1000("92432.659".to_string()), "92 432.659");
}

#[test]
fn spaced_number_edge_cases() {
    assert_eq!(&space_sep_1000("".to_string()), "");
    assert_eq!(&space_sep_1000("12345.6.7".to_string()), "12 345.6");
    assert_eq!(&space_sep_1000("123456".to_string()), " 123 456");
    assert_eq!(&space_sep_1000("1234.5".to_string()), "1234.5");
}

#[test]
fn session_links() {
    let link = sessionid_to_link("abc123");
    assert_eq!(link, "https://bertiqwerty.com/index.html?session_id=abc123");
    assert_eq!(sessionid_from_link(&link), Some("abc123".to_string()));
    assert_eq!(
        sessionid_from_link("x?a=1&session_id=Zq9-rest"),
        Some("Zq9".to_string())
    );
    assert_eq!(sessionid_from_link("plainid"), Some("plainid".to_string()));
    assert_eq!(sessionid_from_link("a?b?session_id=k2"), Some("k2".to_string()));
    assert_eq!(sessionid_from_link("?"), Some("".to_string()));
}
