use wsm::client::{
    get_client_field, is_client_valid, new_clients, register_client, set_client_field,
    unregister_client,
};
use wsm::json::Json;
use wsm::handshake::get_client_handshake_status;

fn as_bool(v: Option<Json>) -> Option<bool> {
    match v {
        Some(Json::Bool(b)) => Some(b),
        _ => None,
    }
}

fn as_text(v: Option<Json>) -> Option<String> {
    match v {
        Some(Json::Str(s)) => Some(s),
        _ => None,
    }
}

#[test]
fn register_client_starts_waiting_for_a_response() {
    let mut clients = new_clients();
    assert!(!is_client_valid(&clients, "abc12"));
    register_client(&mut clients, "abc12");
    assert!(is_client_valid(&clients, "abc12"));
    assert_eq!(as_bool(get_client_field(&clients, "abc12", "wsm:wait-for-response")), Some(true));
    assert!(get_client_field(&clients, "abc12", "group").is_none());
}

#[test]
fn register_client_twice_keeps_the_fields() {
    let mut clients = new_clients();
    register_client(&mut clients, "abc12");
    set_client_field(&mut clients, "abc12", "wsm:wait-for-response", Json::Bool(false));
    register_client(&mut clients, "abc12");
    assert_eq!(as_bool(get_client_field(&clients, "abc12", "wsm:wait-for-response")), Some(false));
    assert_eq!(clients.len(), 1);
}

#[test]
fn unregister_client_forgets_the_client() {
    let mut clients = new_clients();
    register_client(&mut clients, "abc12");
    register_client(&mut clients, "zzz99");
    unregister_client(&mut clients, "abc12");
    assert!(!is_client_valid(&clients, "abc12"));
    assert!(is_client_valid(&clients, "zzz99"));
    assert!(get_client_field(&clients, "abc12", "wsm:wait-for-response").is_none());
    unregister_client(&mut clients, "abc12");
    assert_eq!(clients.len(), 1);
}

#[test]
fn set_client_field_only_for_known_clients() {
    let mut clients = new_clients();
    set_client_field(&mut clients, "abc12", "group", Json::Str("g".to_string()));
    assert!(!is_client_valid(&clients, "abc12"));
    register_client(&mut clients, "abc12");
    set_client_field(&mut clients, "abc12", "group", Json::Str("g".to_string()));
    assert_eq!(as_text(get_client_field(&clients, "abc12", "group")), Some("g".to_string()));
    set_client_field(&mut clients, "abc12", "group", Json::Str("h".to_string()));
    assert_eq!(as_text(get_client_field(&clients, "abc12", "group")), Some("h".to_string()));
}

#[test]
fn handshake_status_follows_the_unauthorized_field() {
    let mut clients = new_clients();
    assert_eq!(get_client_handshake_status(&clients, "abc12"), "unauthorized");
    register_client(&mut clients, "abc12");
    assert_eq!(get_client_handshake_status(&clients, "abc12"), "unauthorized");
    set_client_field(&mut clients, "abc12", "unauthorized", Json::Bool(true));
    assert_eq!(get_client_handshake_status(&clients, "abc12"), "unauthorized");
    set_client_field(&mut clients, "abc12", "unauthorized", Json::Str("false".to_string()));
    assert_eq!(get_client_handshake_status(&clients, "abc12"), "unauthorized");
    set_client_field(&mut clients, "abc12", "unauthorized", Json::Bool(false));
    assert_eq!(get_client_handshake_status(&clients, "abc12"), "group");
}

#[test]
fn client_fields_hold_any_json_value() {
    let mut clients = new_clients();
    register_client(&mut clients, "abc12");
    set_client_field(&mut clients, "abc12", "count", Json::Number("42".to_string()));
    set_client_field(&mut clients, "abc12", "tags", Json::Array(vec!["\"a\"".to_string(), "1".to_string()]));
    set_client_field(&mut clients, "abc12", "meta", Json::Object(vec![("k".to_string(), "null".to_string())]));
    set_client_field(&mut clients, "abc12", "none", Json::Null);
    match get_client_field(&clients, "abc12", "count") {
        Some(Json::Number(n)) => assert_eq!(n, "42"),
        _ => panic!("the number was not kept"),
    }
    match get_client_field(&clients, "abc12", "tags") {
        Some(Json::Array(items)) => assert_eq!(items, vec!["\"a\"".to_string(), "1".to_string()]),
        _ => panic!("the array was not kept"),
    }
    match get_client_field(&clients, "abc12", "meta") {
        Some(Json::Object(members)) => assert_eq!(members, vec![("k".to_string(), "null".to_string())]),
        _ => panic!("the object was not kept"),
    }
    assert!(matches!(get_client_field(&clients, "abc12", "none"), Some(Json::Null)));
    assert_eq!(get_client_handshake_status(&clients, "abc12"), "unauthorized");
}
