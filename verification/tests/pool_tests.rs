use wsm::pool::{
    add_msg_id, create_pool, delete_pool, get_msg_json, is_msg_id_available, list_msg_id,
    msg_count, new_pools, remove_msg_id, set_msg_json,
};
use wsm::setup;

#[test]
fn setup_creates_server_and_client_pools() {
    let mut pools = new_pools();
    setup(&mut pools);
    add_msg_id(&mut pools, "server", "abc12");
    add_msg_id(&mut pools, "client", "abc12");
    assert_eq!(msg_count(&pools, "server"), 1);
    assert_eq!(msg_count(&pools, "client"), 1);
    assert_eq!(pools.len(), 2);
}

#[test]
fn create_pool_ignores_names_that_are_not_alphanumeric() {
    let mut pools = new_pools();
    create_pool(&mut pools, "a-b");
    create_pool(&mut pools, "x y");
    assert_eq!(pools.len(), 0);
    create_pool(&mut pools, "Ab9");
    assert_eq!(pools.len(), 1);
    create_pool(&mut pools, "");
    assert_eq!(pools.len(), 2);
}

#[test]
fn create_pool_twice_keeps_the_ids() {
    let mut pools = new_pools();
    create_pool(&mut pools, "p");
    add_msg_id(&mut pools, "p", "id1");
    create_pool(&mut pools, "p");
    assert_eq!(msg_count(&pools, "p"), 1);
    assert!(!is_msg_id_available(&pools, "p", "id1"));
}

#[test]
fn add_msg_id_needs_an_existing_pool() {
    let mut pools = new_pools();
    add_msg_id(&mut pools, "nopool", "id1");
    assert_eq!(msg_count(&pools, "nopool"), 0);
    assert!(is_msg_id_available(&pools, "nopool", "id1"));
}

#[test]
fn add_then_remove_msg_id() {
    let mut pools = new_pools();
    create_pool(&mut pools, "p");
    add_msg_id(&mut pools, "p", "id1");
    add_msg_id(&mut pools, "p", "id1");
    assert_eq!(msg_count(&pools, "p"), 1);
    assert!(!is_msg_id_available(&pools, "p", "id1"));
    assert!(is_msg_id_available(&pools, "p", "id2"));
    remove_msg_id(&mut pools, "p", "id1");
    assert_eq!(msg_count(&pools, "p"), 0);
    assert!(is_msg_id_available(&pools, "p", "id1"));
    remove_msg_id(&mut pools, "p", "id1");
    assert_eq!(msg_count(&pools, "p"), 0);
}

#[test]
fn set_msg_json_writes_once() {
    let mut pools = new_pools();
    create_pool(&mut pools, "p");
    set_msg_json(&mut pools, "p", "id1", "{}".to_string());
    assert_eq!(get_msg_json(&pools, "p", "id1"), None);
    add_msg_id(&mut pools, "p", "id1");
    assert_eq!(get_msg_json(&pools, "p", "id1"), None);
    set_msg_json(&mut pools, "p", "id1", "first".to_string());
    assert_eq!(get_msg_json(&pools, "p", "id1"), Some("first".to_string()));
    set_msg_json(&mut pools, "p", "id1", "second".to_string());
    assert_eq!(get_msg_json(&pools, "p", "id1"), Some("first".to_string()));
    assert_eq!(get_msg_json(&pools, "q", "id1"), None);
}

#[test]
fn list_msg_id_lists_each_id_once() {
    let mut pools = new_pools();
    create_pool(&mut pools, "p");
    for id in ["a", "b", "c", "b"] {
        add_msg_id(&mut pools, "p", id);
    }
    let mut ids = list_msg_id(&pools, "p");
    ids.sort();
    assert_eq!(ids, vec!["a".to_string(), "b".to_string(), "c".to_string()]);
    assert_eq!(ids.len(), msg_count(&pools, "p"));
    assert!(list_msg_id(&pools, "missing").is_empty());
}

#[test]
fn delete_pool_frees_every_id() {
    let mut pools = new_pools();
    create_pool(&mut pools, "p");
    create_pool(&mut pools, "q");
    add_msg_id(&mut pools, "p", "a");
    add_msg_id(&mut pools, "q", "a");
    delete_pool(&mut pools, "p");
    assert!(is_msg_id_available(&pools, "p", "a"));
    assert_eq!(msg_count(&pools, "p"), 0);
    assert!(!is_msg_id_available(&pools, "q", "a"));
    delete_pool(&mut pools, "p");
    assert_eq!(pools.len(), 1);
}
