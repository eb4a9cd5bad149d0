use mud_engine::protocol::Address;
use mud_engine::registry::ClientRegistry;
use mud_engine::remote_client::RemoteClient;

fn client(id: u128, name: &str) -> RemoteClient {
    RemoteClient {
        user_id: id,
        addr: Address { ip: [9; 16], port: 9 },
        user_name: name.to_string(),
    }
}

#[test]
fn registry_starts_empty() {
    let r = ClientRegistry::new();
    assert_eq!(r.size(), 0);
    assert!(!r.contains(0));
}

#[test]
fn insert_then_contains_and_size() {
    let mut r = ClientRegistry::new();
    r.insert(client(1, "a"));
    r.insert(client(2, "b"));
    assert_eq!(r.size(), 2);
    assert!(r.contains(1));
    assert!(r.contains(2));
    assert!(!r.contains(3));
}

#[test]
fn insert_with_same_identifier_replaces() {
    let mut r = ClientRegistry::new();
    r.insert(client(7, "old"));
    r.insert(client(7, "new"));
    assert_eq!(r.size(), 1);
    assert!(r.contains(7));
}

#[test]
fn remove_present_shrinks_by_one() {
    let mut r = ClientRegistry::new();
    r.insert(client(1, "a"));
    r.insert(client(2, "b"));
    r.remove(1);
    assert_eq!(r.size(), 1);
    assert!(!r.contains(1));
    assert!(r.contains(2));
}

#[test]
fn remove_absent_is_a_no_op() {
    let mut r = ClientRegistry::new();
    r.insert(client(1, "a"));
    r.remove(99);
    assert_eq!(r.size(), 1);
    assert!(r.contains(1));
}
