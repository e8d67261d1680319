use wsm::id::gen_id;
use wsm::id::gen_unique_id;
use wsm::pool::{add_msg_id, create_pool, is_msg_id_available, msg_count, new_pools};
use wsm::server::{new_client, new_client_msg_pool};
use wsm::wsa::validate_id;

fn is_id(s: &str) -> bool {
    s.len() == 5 && s.chars().all(|c| c.is_ascii_lowercase() || c.is_ascii_digit())
}

#[test]
fn gen_id_gives_valid_ids() {
    for _ in 0..200 {
        let id = gen_id();
        assert!(is_id(&id));
        assert!(validate_id(&id));
    }
}

#[test]
fn gen_id_varies() {
    let a = gen_id();
    let differs = (0..50).any(|_| gen_id() != a);
    assert!(differs);
}

#[test]
fn gen_unique_id_avoids_taken_ids() {
    let mut pools = new_pools();
    create_pool(&mut pools, "p");
    for _ in 0..300 {
        let id = gen_unique_id(&pools, "p");
        assert!(is_id(&id));
        assert!(is_msg_id_available(&pools, "p", &id));
        add_msg_id(&mut pools, "p", &id);
    }
    assert_eq!(msg_count(&pools, "p"), 300);
}

#[test]
fn gen_unique_id_for_a_missing_pool() {
    let pools = new_pools();
    let id = gen_unique_id(&pools, "nopool");
    assert!(is_id(&id));
}

#[test]
fn new_client_registers_its_id_in_the_client_pool() {
    let mut pools = new_pools();
    create_pool(&mut pools, "client");
    create_pool(&mut pools, "server");
    let a = new_client(&mut pools);
    let b = new_client(&mut pools);
    assert!(is_id(&a) && is_id(&b));
    assert_ne!(a, b);
    assert!(!is_msg_id_available(&pools, "client", &a));
    assert!(!is_msg_id_available(&pools, "client", &b));
    assert_eq!(msg_count(&pools, "client"), 2);
    assert_eq!(msg_count(&pools, "server"), 0);
    new_client_msg_pool(&mut pools, &a);
    add_msg_id(&mut pools, &a, "m0001");
    assert_eq!(msg_count(&pools, &a), 1);
}
