use std::cell::RefCell;
use std::rc::Rc;
use wsm::handler::{
    new_handlers, register_auth_handler, register_disconnect_handler,
    register_response_callback_handler, trigger_auth, trigger_disconnect,
    trigger_response_callback, Handlers,
};

type D = Box<dyn Fn(&str)>;
type A = Box<dyn Fn(&str, &str) -> (bool, String)>;
type R = Box<dyn Fn(&str, &str, bool, &str)>;

#[test]
fn triggers_without_handlers_do_nothing() {
    let h: Handlers<D, A, R> = new_handlers();
    trigger_disconnect(&h, "abc12");
    trigger_response_callback(&h, "abc12", "m0001", true, "x");
    assert_eq!(trigger_auth(&h, "abc12", "code"), (false, String::new()));
}

#[test]
fn registered_handlers_are_called() {
    let log: Rc<RefCell<Vec<String>>> = Rc::new(RefCell::new(Vec::new()));
    let mut h: Handlers<D, A, R> = new_handlers();
    let l1 = log.clone();
    register_disconnect_handler(&mut h, Box::new(move |c: &str| l1.borrow_mut().push(format!("d:{}", c))));
    let l2 = log.clone();
    register_auth_handler(
        &mut h,
        Box::new(move |c: &str, k: &str| {
            l2.borrow_mut().push(format!("a:{}:{}", c, k));
            (!k.is_empty(), format!("g-{}", k))
        }),
    );
    let l3 = log.clone();
    register_response_callback_handler(
        &mut h,
        Box::new(move |c: &str, m: &str, s: bool, x: &str| {
            l3.borrow_mut().push(format!("r:{}:{}:{}:{}", c, m, s, x))
        }),
    );
    trigger_disconnect(&h, "abc12");
    assert_eq!(trigger_auth(&h, "abc12", "K1"), (true, "g-K1".to_string()));
    assert_eq!(trigger_auth(&h, "abc12", ""), (false, "g-".to_string()));
    trigger_response_callback(&h, "abc12", "m0001", false, "E");
    assert_eq!(
        *log.borrow(),
        vec![
            "d:abc12".to_string(),
            "a:abc12:K1".to_string(),
            "a:abc12:".to_string(),
            "r:abc12:m0001:false:E".to_string()
        ]
    );
}

#[test]
fn registering_again_replaces_the_handler() {
    let mut h: Handlers<D, A, R> = new_handlers();
    register_auth_handler(&mut h, Box::new(|_c: &str, _k: &str| (false, "one".to_string())));
    register_auth_handler(&mut h, Box::new(|_c: &str, _k: &str| (true, "two".to_string())));
    assert_eq!(trigger_auth(&h, "abc12", "x"), (true, "two".to_string()));
}
