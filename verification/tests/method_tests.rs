use wsm::method::{
    build_method, parse_method_string, validate_endpoint_str, validate_method_name,
    validate_version_str,
};

fn parts(m: &str, v: &str, e: &str) -> Option<(String, String, String)> {
    Some((m.to_string(), v.to_string(), e.to_string()))
}

#[test]
fn build_method_joins_the_parts() {
    assert_eq!(build_method("wsm", "1", "handshake"), "wsm@v1/handshake");
    assert_eq!(build_method("get2", "10", "user/list_all"), "get2@v10/user/list_all");
}

#[test]
fn method_part_validators() {
    assert!(validate_method_name("abc123"));
    assert!(!validate_method_name(""));
    assert!(!validate_method_name("Abc"));
    assert!(!validate_method_name("a_b"));
    assert!(validate_version_str("42"));
    assert!(!validate_version_str(""));
    assert!(!validate_version_str("v1"));
    assert!(validate_endpoint_str("user/list_all"));
    assert!(!validate_endpoint_str(""));
    assert!(!validate_endpoint_str("user-list"));
}

#[test]
fn parse_method_string_splits_a_well_formed_string() {
    assert_eq!(parse_method_string("get@v12/user"), parts("get", "12", "user"));
    assert_eq!(parse_method_string("wsm@v1/handshake"), parts("wsm", "1", "handshake"));
}

#[test]
fn parse_method_string_strips_every_leading_v() {
    assert_eq!(parse_method_string("a@vv2/x"), parts("a", "2", "x"));
    assert_eq!(parse_method_string("a@v/x"), parts("a", "", "x"));
}

#[test]
fn parse_method_string_accepts_empty_method_and_endpoint() {
    assert_eq!(parse_method_string("@v1/x"), parts("", "1", "x"));
    assert_eq!(parse_method_string("a@v1/"), parts("a", "1", ""));
}

#[test]
fn parse_method_string_rejects_malformed_strings() {
    assert_eq!(parse_method_string("abc"), None);
    assert_eq!(parse_method_string("a@@v1/x"), None);
    assert_eq!(parse_method_string("a@v1/x/y"), None);
    assert_eq!(parse_method_string("a@v1x"), None);
    assert_eq!(parse_method_string("a@1/x"), None);
    assert_eq!(parse_method_string("a@/x"), None);
}

#[test]
fn parse_of_build_gives_back_the_parts() {
    for (m, v, e) in [("wsm", "1", "handshake"), ("a1", "007", "x_y"), ("z", "9", "0")] {
        let full = build_method(m, v, e);
        assert_eq!(parse_method_string(&full), parts(m, v, e));
    }
}

#[test]
fn parse_of_build_fails_when_the_endpoint_has_a_slash() {
    let full = build_method("get", "1", "user/list");
    assert_eq!(parse_method_string(&full), None);
}
