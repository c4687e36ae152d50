//! Tests for the peer directory: insert-or-overwrite registration,
//! no-op removal of absent identities, and independence of entries.

use chat_relay::directory::PeerDirectory;

#[test]
fn new_directory_is_empty() {
    let dir: PeerDirectory<u32> = PeerDirectory::new();
    assert!(!dir.contains("alice"));
    assert!(dir.get("alice").is_none());
}

#[test]
fn register_then_lookup() {
    let mut dir: PeerDirectory<u32> = PeerDirectory::new();
    dir.register(String::from("alice"), 7);
    assert!(dir.contains("alice"));
    assert_eq!(dir.get("alice"), Some(&7));
    assert!(!dir.contains("bob"));
}

#[test]
fn unregister_removes_the_entry() {
    let mut dir: PeerDirectory<u32> = PeerDirectory::new();
    dir.register(String::from("alice"), 7);
    dir.unregister("alice");
    assert!(!dir.contains("alice"));
    assert!(dir.get("alice").is_none());
}

#[test]
fn unregister_of_absent_identity_is_a_no_op() {
    let mut dir: PeerDirectory<u32> = PeerDirectory::new();
    dir.register(String::from("alice"), 7);
    dir.unregister("bob");
    assert!(dir.contains("alice"));
    assert_eq!(dir.get("alice"), Some(&7));
}

#[test]
fn same_identity_overwrite_replaces_and_double_removal_is_harmless() {
    let mut dir: PeerDirectory<u32> = PeerDirectory::new();
    dir.register(String::from("bob"), 1);
    dir.register(String::from("bob"), 2);
    assert_eq!(dir.get("bob"), Some(&2));
    dir.unregister("bob");
    assert!(!dir.contains("bob"));
    dir.unregister("bob");
    assert!(!dir.contains("bob"));
}

#[test]
fn removing_one_identity_leaves_the_others_alone() {
    let mut dir: PeerDirectory<u32> = PeerDirectory::new();
    dir.register(String::from("a"), 1);
    dir.register(String::from("b"), 2);
    dir.register(String::from("c"), 3);
    dir.unregister("a");
    assert!(!dir.contains("a"));
    assert_eq!(dir.get("b"), Some(&2));
    assert_eq!(dir.get("c"), Some(&3));
}
