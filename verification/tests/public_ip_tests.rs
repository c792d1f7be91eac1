use ip_applet::public_ip::{resolve_public_ip, FetchOutcome, FETCHING, NOT_AVAILABLE};
use ip_applet::text::trim;

#[test]
fn placeholders() {
    assert_eq!(FETCHING, "Fetching...");
    assert_eq!(NOT_AVAILABLE, "Not available");
}

#[test]
fn failed_fetch_gives_the_notice() {
    assert_eq!(resolve_public_ip(FetchOutcome::Failed), "Not available");
}

#[test]
fn unreadable_body_gives_the_notice() {
    assert_eq!(resolve_public_ip(FetchOutcome::Unreadable), "Not available");
}

#[test]
fn body_is_trimmed() {
    let body = FetchOutcome::Body(" 203.0.113.5\n".to_string());
    assert_eq!(resolve_public_ip(body), "203.0.113.5");
}

#[test]
fn body_is_not_examined() {
    let body = FetchOutcome::Body("<html>\n not an address \n</html>\r\n".to_string());
    assert_eq!(resolve_public_ip(body), "<html>\n not an address \n</html>");
}

#[test]
fn empty_body_stays_empty() {
    assert_eq!(resolve_public_ip(FetchOutcome::Body(String::new())), "");
    assert_eq!(resolve_public_ip(FetchOutcome::Body(" \t\r\n ".to_string())), "");
}

#[test]
fn trim_takes_white_space_from_both_ends() {
    assert_eq!(trim(" 203.0.113.5\n"), "203.0.113.5");
    assert_eq!(trim("203.0.113.5"), "203.0.113.5");
    assert_eq!(trim("\t\n x"), "x");
    assert_eq!(trim("x \r\n"), "x");
    assert_eq!(trim(""), "");
    assert_eq!(trim("   "), "");
}

#[test]
fn trim_keeps_inner_white_space() {
    assert_eq!(trim("  a b\tc  "), "a b\tc");
}

#[test]
fn trim_knows_white_space_beyond_ascii() {
    assert_eq!(trim("\u{a0}\u{2003}1.2.3.4\u{3000}\u{85}"), "1.2.3.4");
    assert_eq!(trim("\u{200b}x\u{200b}"), "\u{200b}x\u{200b}");
    assert_eq!(trim(" é "), "é");
    assert_eq!(trim(" \u{10400} "), "\u{10400}");
}

#[test]
fn trim_agrees_with_the_standard_library() {
    for s in ["", " ", "a", " a", "a ", " a ", "\n\na b\n\n", "\u{2028}a\u{2029}", "  ä  ö  "] {
        assert_eq!(trim(s), s.trim());
    }
}
