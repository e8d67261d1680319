use serde_json::Value;
use wsm::message::{create_event, create_fail_response, create_request, create_success_response, validate_party};
use wsm::wsa::{
    create_event_form_server_to_client, create_fail_response_form_client_to_client,
    create_fail_response_form_client_to_server, create_fail_response_form_server_to_client,
    create_request_form_client_to_client, create_request_form_client_to_server,
    create_request_form_server_to_client, create_success_response_form_client_to_client,
    create_success_response_form_client_to_server, create_success_response_form_server_to_client,
    validate_client_id, validate_err_code, validate_full_method, validate_id, validate_msg_id,
};

fn params(items: &[&str]) -> Vec<String> {
    items.iter().map(|s| s.to_string()).collect()
}

/// The text is JSON, and serde_json writes the parsed value back as the same text.
fn assert_canonical_json(text: &str) -> Value {
    let v: Value = serde_json::from_str(text).unwrap();
    assert_eq!(serde_json::to_string(&v).unwrap(), text);
    v
}

#[test]
fn id_validators() {
    assert!(validate_id("abc12"));
    assert!(validate_id("00000"));
    assert!(!validate_id("abc1"));
    assert!(!validate_id("abc123"));
    assert!(!validate_id("ABC12"));
    assert!(!validate_id("ab_12"));
    assert!(validate_msg_id("zz9zz"));
    assert!(!validate_msg_id(""));
    assert!(validate_client_id("q1w2e"));
    assert!(!validate_client_id("client"));
    assert!(!validate_client_id("Abc12"));
}

#[test]
fn party_validator() {
    assert!(validate_party("server"));
    assert!(validate_party("client"));
    assert!(validate_party("abc12"));
    assert!(!validate_party("servers"));
    assert!(!validate_party("s"));
}

#[test]
fn full_method_validator() {
    assert!(validate_full_method("wsm@v1/handshake"));
    assert!(validate_full_method("a@v1/x/y"));
    assert!(validate_full_method("get@v2/user/list"));
    assert!(validate_full_method("a@v1/x_y/"));
    assert!(!validate_full_method("Get@vX/Users"));
    assert!(!validate_full_method("A-B@vx/?"));
    assert!(!validate_full_method("wsm@v1/Handshake"));
    assert!(!validate_full_method("wsm@v1a/x"));
    assert!(!validate_full_method("w.m@v1/x"));
    assert!(!validate_full_method("wsm@v1/x@y"));
    assert!(!validate_full_method("wsm@vv1/x"));
    assert!(!validate_full_method("wsm"));
    assert!(!validate_full_method("@v1/x"));
    assert!(!validate_full_method("a@1/x"));
    assert!(!validate_full_method("a@v/x"));
    assert!(!validate_full_method("a@v1/"));
    assert!(!validate_full_method("a@v1x"));
    assert!(!validate_full_method("a@"));
}

#[test]
fn built_methods_pass_the_full_method_check() {
    for (m, v, e) in [("wsm", "1", "handshake"), ("get", "22", "a/b_c"), ("x9", "0", "/")] {
        assert!(validate_full_method(&wsm::method::build_method(m, v, e)));
    }
}

#[test]
fn err_code_validator() {
    assert!(validate_err_code("E_1"));
    assert!(validate_err_code("NOT_FOUND"));
    assert!(!validate_err_code(""));
    assert!(!validate_err_code("e1"));
    assert!(!validate_err_code("E-1"));
}

#[test]
fn success_response_server_to_client_text() {
    let r = create_success_response_form_server_to_client("abc12", "msg01", "ok");
    assert_eq!(r, r#"{"f":"s","i":"msg01","p":{"c":"ok","r":"s"},"t":"abc12","y":"r"}"#);
    assert_canonical_json(&r);
}

#[test]
fn fail_response_server_to_client_text() {
    let r = create_fail_response_form_server_to_client("abc12", "msg01", "E_BAD");
    assert_eq!(r, r#"{"f":"s","i":"msg01","p":{"c":"E_BAD","r":"f"},"t":"abc12","y":"r"}"#);
    assert_canonical_json(&r);
}

#[test]
fn client_to_server_responses_text() {
    let ok = create_success_response_form_client_to_server("abc12", "m0001", "done");
    assert_eq!(ok, r#"{"f":"abc12","i":"m0001","p":{"c":"done","r":"s"},"t":"s","y":"r"}"#);
    let fail = create_fail_response_form_client_to_server("abc12", "m0001", "E2");
    assert_eq!(fail, r#"{"f":"abc12","i":"m0001","p":{"c":"E2","r":"f"},"t":"s","y":"r"}"#);
}

#[test]
fn client_to_client_responses_text() {
    let ok = create_success_response_form_client_to_client("aaaaa", "bbbbb", "m0001", "r");
    assert_eq!(ok, r#"{"f":"aaaaa","i":"m0001","p":{"c":"r","r":"s"},"t":"bbbbb","y":"r"}"#);
    let fail = create_fail_response_form_client_to_client("aaaaa", "bbbbb", "m0001", "E");
    assert_eq!(fail, r#"{"f":"aaaaa","i":"m0001","p":{"c":"E","r":"f"},"t":"bbbbb","y":"r"}"#);
}

#[test]
fn requests_text() {
    let p = params(&["abc12"]);
    let r = create_request_form_server_to_client("abc12", "msg01", "wsm@v1/handshake", &p);
    assert_eq!(
        r,
        r#"{"f":"s","i":"msg01","m":"wsm@v1/handshake","p":["abc12"],"t":"abc12","y":"q"}"#
    );
    assert_canonical_json(&r);
    let r2 = create_request_form_client_to_server("abc12", "msg02", "get@v2/x", &params(&["a", "b"]));
    assert_eq!(r2, r#"{"f":"abc12","i":"msg02","m":"get@v2/x","p":["a","b"],"t":"s","y":"q"}"#);
    let r3 = create_request_form_client_to_client("aaaaa", "bbbbb", "m0003", "x@v1/y", &params(&[]));
    assert_eq!(r3, r#"{"f":"aaaaa","i":"m0003","m":"x@v1/y","p":[],"t":"bbbbb","y":"q"}"#);
}

#[test]
fn event_text() {
    let r = create_event_form_server_to_client("e0001", "tick@v1/clock", &params(&["1", "2"]));
    assert_eq!(r, r#"{"f":"s","i":"e0001","m":"tick@v1/clock","p":["1","2"],"t":"client","y":"e"}"#);
    assert_eq!(create_event("e0001", "tick@v1/clock", &params(&["1", "2"])), r);
}

#[test]
fn message_builders_without_checks() {
    let r = create_request("server", "client", "x", "m", &params(&["p"]));
    assert_eq!(r, r#"{"f":"s","i":"x","m":"m","p":["p"],"t":"client","y":"q"}"#);
    let s = create_success_response("client", "server", "x", "c");
    assert_eq!(s, r#"{"f":"client","i":"x","p":{"c":"c","r":"s"},"t":"s","y":"r"}"#);
    let f = create_fail_response("abc12", "server", "x", "c");
    assert_eq!(f, r#"{"f":"abc12","i":"x","p":{"c":"c","r":"f"},"t":"s","y":"r"}"#);
}

#[test]
fn content_is_escaped_as_json() {
    let receipt = "a\"b\\c\nd\te\u{1}f é";
    let r = create_success_response_form_server_to_client("abc12", "msg01", receipt);
    let v = assert_canonical_json(&r);
    assert_eq!(v["p"]["c"], Value::String(receipt.to_string()));
    assert!(r.contains(r#""c":"a\"b\\c\nd\te\u0001f é""#));
    let p = params(&["x\"y", "\u{8}"]);
    let q = create_request_form_server_to_client("abc12", "msg01", "a@v1/b", &p);
    let v = assert_canonical_json(&q);
    assert_eq!(v["p"][0], Value::String("x\"y".to_string()));
    assert!(q.contains(r#""p":["x\"y","\b"]"#));
}
