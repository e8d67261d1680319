use std::cell::RefCell;
use std::rc::Rc;
use serde_json::Value;
use wsm::client::{get_client_field, is_client_valid, new_clients, register_client, Clients};
use wsm::json::Json;
use wsm::handler::{
    new_handlers, register_auth_handler, register_disconnect_handler,
    register_response_callback_handler, Handlers,
};
use wsm::handshake::{get_client_handshake_status, handle_handshake_auth, HandshakeOutcome};
use wsm::pool::{add_msg_id, create_pool, get_msg_json, is_msg_id_available, msg_count, new_pools, Pools};
use wsm::pretty::pretty_json;
use wsm::process::process_response_from_client;
use wsm::socket::{handle_frame, handle_text_frame, handle_wsm_message, FrameAction, FrameEvent, WsmVerdict};
use wsm::wire::{wire_message, Payload, WireMessage};
use wsm::wsm::{init_client_connection, new_callbacks, server_request_client};

type D = Box<dyn Fn(&str)>;
type A = Box<dyn Fn(&str, &str) -> (bool, String)>;
type R = Box<dyn Fn(&str, &str, bool, &str)>;

struct World {
    pools: Pools,
    clients: Clients,
    handlers: Handlers<D, A, R>,
    log: Rc<RefCell<Vec<String>>>,
}

fn world() -> World {
    let log: Rc<RefCell<Vec<String>>> = Rc::new(RefCell::new(Vec::new()));
    let mut handlers: Handlers<D, A, R> = new_handlers();
    let l1 = log.clone();
    register_disconnect_handler(&mut handlers, Box::new(move |c: &str| l1.borrow_mut().push(format!("d:{}", c))));
    let l2 = log.clone();
    register_auth_handler(
        &mut handlers,
        Box::new(move |c: &str, k: &str| {
            l2.borrow_mut().push(format!("a:{}:{}", c, k));
            (k == "GOOD", "admins".to_string())
        }),
    );
    let l3 = log.clone();
    register_response_callback_handler(
        &mut handlers,
        Box::new(move |c: &str, m: &str, s: bool, x: &str| {
            l3.borrow_mut().push(format!("r:{}:{}:{}:{}", c, m, s, x))
        }),
    );
    let mut pools = new_pools();
    create_pool(&mut pools, "abc12");
    add_msg_id(&mut pools, "abc12", "hs001");
    let mut clients = new_clients();
    register_client(&mut clients, "abc12");
    World { pools, clients, handlers, log }
}

fn s(x: &str) -> Option<String> {
    Some(x.to_string())
}

fn answer(i: Option<String>, r: Option<String>, c: Option<String>) -> WireMessage {
    WireMessage { i, f: s("abc12"), t: s("s"), p: Some(Payload { r, c }) }
}

fn group_of(clients: &Clients, id: &str) -> Option<String> {
    match get_client_field(clients, id, "group") {
        Some(Json::Str(g)) => Some(g),
        _ => None,
    }
}

#[test]
fn handshake_with_a_good_code_admits_the_client() {
    let mut w = world();
    let msg = answer(s("hs001"), s("s"), s("GOOD"));
    let out = handle_handshake_auth(&msg, "abc12", &mut w.clients, &mut w.pools, &w.handlers);
    assert!(matches!(out, HandshakeOutcome::Accepted { ref group } if group == "admins"));
    assert_eq!(get_client_handshake_status(&w.clients, "abc12"), "group");
    assert_eq!(group_of(&w.clients, "abc12"), s("admins"));
    assert!(is_msg_id_available(&w.pools, "abc12", "hs001"));
    assert_eq!(*w.log.borrow(), vec!["a:abc12:GOOD".to_string()]);
}

#[test]
fn handshake_with_a_bad_code_rejects_the_client() {
    let mut w = world();
    let msg = answer(s("hs001"), s("s"), s("BAD="));
    let out = handle_handshake_auth(&msg, "abc12", &mut w.clients, &mut w.pools, &w.handlers);
    assert!(matches!(out, HandshakeOutcome::Rejected));
    assert!(!is_client_valid(&w.clients, "abc12"));
    assert_eq!(get_client_handshake_status(&w.clients, "abc12"), "unauthorized");
    assert_eq!(msg_count(&w.pools, "abc12"), 0);
    assert_eq!(w.pools.len(), 0);
    assert_eq!(*w.log.borrow(), vec!["a:abc12:BAD=".to_string(), "d:abc12".to_string()]);
}

#[test]
fn handshake_anonymous_code_goes_to_the_auth_handler() {
    let mut w = world();
    let msg = answer(s("hs001"), s("s"), s("Anonymous"));
    let out = handle_handshake_auth(&msg, "abc12", &mut w.clients, &mut w.pools, &w.handlers);
    assert!(matches!(out, HandshakeOutcome::Rejected));
    assert_eq!(w.log.borrow()[0], "a:abc12:Anonymous");
}

#[test]
fn handshake_with_a_non_base64_code_is_rejected() {
    let mut w = world();
    let msg = answer(s("hs001"), s("s"), s("not base64!"));
    let out = handle_handshake_auth(&msg, "abc12", &mut w.clients, &mut w.pools, &w.handlers);
    assert!(matches!(out, HandshakeOutcome::Rejected));
    assert!(!is_client_valid(&w.clients, "abc12"));
    assert_eq!(*w.log.borrow(), vec!["d:abc12".to_string()]);
}

#[test]
fn handshake_malformed_answers() {
    for msg in [
        answer(s("hs001"), s("f"), s("GOOD")),
        answer(s("hs001"), None, s("GOOD")),
        answer(None, s("s"), s("GOOD")),
        answer(s("hs001"), s("s"), None),
    ] {
        let mut w = world();
        let out = handle_handshake_auth(&msg, "abc12", &mut w.clients, &mut w.pools, &w.handlers);
        assert!(matches!(out, HandshakeOutcome::Rejected));
        assert!(!is_client_valid(&w.clients, "abc12"));
        assert_eq!(w.pools.len(), 0);
        assert_eq!(*w.log.borrow(), vec!["d:abc12".to_string()]);
    }
}

#[test]
fn handshake_without_an_object_payload_only_disconnects() {
    let mut w = world();
    let msg = WireMessage { i: s("hs001"), f: s("abc12"), t: s("s"), p: None };
    let out = handle_handshake_auth(&msg, "abc12", &mut w.clients, &mut w.pools, &w.handlers);
    assert!(matches!(out, HandshakeOutcome::Dropped));
    assert!(is_client_valid(&w.clients, "abc12"));
    assert_eq!(msg_count(&w.pools, "abc12"), 1);
    assert_eq!(*w.log.borrow(), vec!["d:abc12".to_string()]);
}

fn wire(i: Option<String>, f: Option<String>, t: Option<String>) -> WireMessage {
    WireMessage { i, f, t, p: None }
}

#[test]
fn wsm_message_to_the_server_is_accepted() {
    let mut w = world();
    let v = handle_wsm_message(&wire(s("hs001"), s("abc12"), s("s")), "abc12", &mut w.clients, &w.pools, &w.handlers);
    assert!(matches!(v, WsmVerdict::Accepted));
    assert!(w.log.borrow().is_empty());
}

#[test]
fn wsm_message_to_a_registered_client_is_accepted() {
    let mut w = world();
    register_client(&mut w.clients, "zzz99");
    let v = handle_wsm_message(&wire(s("hs001"), s("abc12"), s("zzz99")), "abc12", &mut w.clients, &w.pools, &w.handlers);
    assert!(matches!(v, WsmVerdict::Accepted));
}

#[test]
fn wsm_message_failures() {
    let cases = [
        (wire(None, s("abc12"), s("s")), 0, true),
        (wire(s("hs001"), s("other"), s("s")), 1, false),
        (wire(s("hs001"), None, s("s")), 1, false),
        (wire(s("nope1"), s("abc12"), s("s")), 0, true),
        (wire(s("hs001"), s("abc12"), s("zzz99")), 1, false),
        (wire(s("hs001"), s("abc12"), s("ZZZ99")), 1, false),
        (wire(s("hs001"), s("abc12"), None), 1, false),
    ];
    for (msg, kind, stays) in cases {
        let mut w = world();
        let v = handle_wsm_message(&msg, "abc12", &mut w.clients, &w.pools, &w.handlers);
        match kind {
            0 => assert!(matches!(v, WsmVerdict::Disconnected)),
            _ => assert!(matches!(v, WsmVerdict::DisconnectedAndUnregistered)),
        }
        assert_eq!(is_client_valid(&w.clients, "abc12"), stays);
        assert_eq!(*w.log.borrow(), vec!["d:abc12".to_string()]);
    }
}

#[test]
fn response_from_client_settles_the_message() {
    let mut w = world();
    let msg = answer(s("hs001"), s("s"), s("done"));
    process_response_from_client(&msg, "abc12", &mut w.pools, &w.handlers);
    assert!(is_msg_id_available(&w.pools, "abc12", "hs001"));
    let msg = answer(s("other"), s("x"), None);
    process_response_from_client(&msg, "abc12", &mut w.pools, &w.handlers);
    assert_eq!(
        *w.log.borrow(),
        vec!["r:abc12:hs001:true:done".to_string(), "r:abc12:other:false:".to_string()]
    );
}

#[test]
fn incomplete_responses_are_ignored() {
    for msg in [
        answer(None, s("s"), s("c")),
        answer(s("hs001"), None, s("c")),
        WireMessage { i: s("hs001"), f: None, t: None, p: None },
    ] {
        let mut w = world();
        process_response_from_client(&msg, "abc12", &mut w.pools, &w.handlers);
        assert_eq!(msg_count(&w.pools, "abc12"), 1);
        assert!(w.log.borrow().is_empty());
    }
}

#[test]
fn init_client_connection_records_the_handshake() {
    let mut pools = new_pools();
    wsm::setup(&mut pools);
    let mut clients = new_clients();
    let (msg, client_id) = init_client_connection(&mut pools, &mut clients);
    assert!(client_id.len() == 5);
    assert!(!is_msg_id_available(&pools, "client", &client_id));
    assert!(is_msg_id_available(&pools, "server", &client_id));
    assert!(is_client_valid(&clients, &client_id));
    let v: Value = serde_json::from_str(&msg).unwrap();
    assert_eq!(v["f"], "s");
    assert_eq!(v["t"], Value::String(client_id.clone()));
    assert_eq!(v["y"], "q");
    assert_eq!(v["m"], "wsm@v1/handshake");
    assert_eq!(v["p"], Value::Array(vec![Value::String(client_id.clone())]));
    let msg_id = v["i"].as_str().unwrap().to_string();
    assert_eq!(msg_count(&pools, &client_id), 1);
    assert_eq!(get_msg_json(&pools, &client_id, &msg_id), Some(msg.clone()));
    assert_eq!(get_client_handshake_status(&clients, &client_id), "unauthorized");
}

#[test]
fn server_request_client_records_the_request() {
    let mut pools = new_pools();
    let mut clients = new_clients();
    let mut callbacks = new_callbacks();
    create_pool(&mut pools, "abc12");
    register_client(&mut clients, "abc12");
    let params = vec!["x".to_string()];
    let (json, msg_id) = server_request_client(
        &mut pools, &clients, &mut callbacks, "abc12", "get", "2", "user", &params, "cb1",
    );
    assert_eq!(
        json,
        format!(r#"{{"f":"s","i":"{}","m":"get@v2/user","p":["x"],"t":"abc12","y":"q"}}"#, msg_id)
    );
    assert_eq!(get_msg_json(&pools, "abc12", &msg_id), Some(json.clone()));
    assert_eq!(callbacks.get(&msg_id), Some(&"cb1".to_string()));
}

#[test]
fn pretty_json_reformats_or_refuses() {
    assert_eq!(pretty_json(r#"{"a":[1,2]}"#), Some("{\n  \"a\": [\n    1,\n    2\n  ]\n}".to_string()));
    assert_eq!(pretty_json("{"), None);
}

#[test]
fn text_frames_are_parsed_and_checked() {
    let mut w = world();
    let ok = handle_text_frame(r#"{"i":"hs001","f":"abc12","t":"s","y":"r"}"#, "abc12", &mut w.clients, &w.pools, &w.handlers);
    assert!(matches!(ok, Ok(WsmVerdict::Accepted)));
    let no_id = handle_text_frame(r#"{"i":7,"f":"abc12","t":"s"}"#, "abc12", &mut w.clients, &w.pools, &w.handlers);
    assert!(matches!(no_id, Ok(WsmVerdict::Disconnected)));
    assert!(is_client_valid(&w.clients, "abc12"));
    let bad_to = handle_text_frame(r#"{"i":"hs001","f":"abc12","t":["s"]}"#, "abc12", &mut w.clients, &w.pools, &w.handlers);
    assert!(matches!(bad_to, Ok(WsmVerdict::DisconnectedAndUnregistered)));
    assert!(!is_client_valid(&w.clients, "abc12"));
}

#[test]
fn text_frames_that_are_not_json_are_refused() {
    let mut w = world();
    let r = handle_text_frame("{\"i\":", "abc12", &mut w.clients, &w.pools, &w.handlers);
    match r {
        Err(e) => assert!(!e.is_empty()),
        Ok(_) => panic!("a frame that is not JSON was accepted"),
    }
    assert!(is_client_valid(&w.clients, "abc12"));
    assert!(w.log.borrow().is_empty());
}

#[test]
fn text_frames_are_read_by_key() {
    let mut w = world();
    let swapped = handle_text_frame(r#"{"f":"hs001","i":"abc12","t":"s"}"#, "abc12", &mut w.clients, &w.pools, &w.handlers);
    assert!(matches!(swapped, Ok(WsmVerdict::DisconnectedAndUnregistered)));
    assert!(!is_client_valid(&w.clients, "abc12"));
}

#[test]
fn text_frames_that_are_not_objects_carry_no_id() {
    let mut w = world();
    let r = handle_text_frame(r#"["hs001","abc12","s"]"#, "abc12", &mut w.clients, &w.pools, &w.handlers);
    assert!(matches!(r, Ok(WsmVerdict::Disconnected)));
    assert!(is_client_valid(&w.clients, "abc12"));
    assert_eq!(*w.log.borrow(), vec!["d:abc12".to_string()]);
}

#[test]
fn wire_message_reads_the_payload_object() {
    let v = Json::Object(vec![
        ("i".to_string(), r#""hs001""#.to_string()),
        ("f".to_string(), r#""abc12""#.to_string()),
        ("t".to_string(), "5".to_string()),
        ("p".to_string(), r#"{"r":"s","c":"GOOD","x":1}"#.to_string()),
    ]);
    let m = wire_message(&v);
    assert_eq!(m.i, s("hs001"));
    assert_eq!(m.f, s("abc12"));
    assert_eq!(m.t, None);
    let p = m.p.expect("the payload is an object");
    assert_eq!(p.r, s("s"));
    assert_eq!(p.c, s("GOOD"));
    let not_object = wire_message(&Json::Object(vec![("p".to_string(), "[1]".to_string())]));
    assert!(not_object.p.is_none());
    assert!(not_object.i.is_none());
    let scalar = wire_message(&Json::Str("i".to_string()));
    assert!(scalar.i.is_none() && scalar.f.is_none() && scalar.t.is_none() && scalar.p.is_none());
}

#[test]
fn frames_decide_the_next_step() {
    let mut w = world();
    let pong = handle_frame(FrameEvent::Ping(vec![1, 2, 3]), "abc12", &mut w.clients, &w.pools, &w.handlers);
    assert!(matches!(pong, FrameAction::SendPong(ref d) if *d == vec![1u8, 2, 3]));
    let bin = handle_frame(FrameEvent::Binary, "abc12", &mut w.clients, &w.pools, &w.handlers);
    assert!(matches!(bin, FrameAction::Continue));
    let po = handle_frame(FrameEvent::Pong, "abc12", &mut w.clients, &w.pools, &w.handlers);
    assert!(matches!(po, FrameAction::Continue));
    for ev in [FrameEvent::Close, FrameEvent::Failed, FrameEvent::Ended] {
        let r = handle_frame(ev, "abc12", &mut w.clients, &w.pools, &w.handlers);
        assert!(matches!(r, FrameAction::Stop));
    }
    let ok = handle_frame(
        FrameEvent::Text(r#"{"i":"hs001","f":"abc12","t":"s"}"#.to_string()),
        "abc12", &mut w.clients, &w.pools, &w.handlers,
    );
    assert!(matches!(ok, FrameAction::Continue));
    assert!(is_client_valid(&w.clients, "abc12"));
    let bad = handle_frame(FrameEvent::Text("{\"i\":".to_string()), "abc12", &mut w.clients, &w.pools, &w.handlers);
    match bad {
        FrameAction::Reply(text) => {
            assert!(text.starts_with("Error: Invalid JSON format - "));
            assert!(text.len() > "Error: Invalid JSON format - ".len());
        }
        _ => panic!("a frame that is not JSON was not answered"),
    }
    assert!(is_client_valid(&w.clients, "abc12"));
    assert!(w.log.borrow().is_empty());
}
