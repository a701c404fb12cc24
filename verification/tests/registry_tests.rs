use textbook_downloader::registry::{CancellationHandle, CancellationRegistry};

#[test]
fn handle_is_one_way() {
    let mut h = CancellationHandle::new();
    assert!(!h.is_cancelled());
    h.cancel();
    assert!(h.is_cancelled());
    h.cancel();
    assert!(h.is_cancelled());
}

#[test]
fn register_cancel_revoke_cycle() {
    let mut reg = CancellationRegistry::new();
    let id = "https://example.test/a".to_string();
    assert!(!reg.is_active(&id));
    reg.register(id.clone(), CancellationHandle::new());
    assert!(reg.is_active(&id));
    assert!(!reg.is_cancelled(&id));
    assert_eq!(reg.cancel(&id), Ok(()));
    assert!(!reg.is_active(&id));
    assert!(reg.is_cancelled(&id));
    // a second cancel reports "not found"
    assert_eq!(reg.cancel(&id), Err(format!("No active download found for: {id}")));
}

#[test]
fn revoke_removes_without_signalling() {
    let mut reg = CancellationRegistry::new();
    let id = "https://example.test/b".to_string();
    reg.register(id.clone(), CancellationHandle::new());
    reg.revoke(&id);
    assert!(!reg.is_active(&id));
    assert!(!reg.is_cancelled(&id));
    assert_eq!(reg.cancel(&id), Err(format!("No active download found for: {id}")));
}

#[test]
fn register_overwrites_prior_entry() {
    let mut reg = CancellationRegistry::new();
    let id = "https://example.test/c".to_string();
    reg.register(id.clone(), CancellationHandle::new());
    assert_eq!(reg.cancel(&id), Ok(()));
    assert!(reg.is_cancelled(&id));
    // a fresh registration arms a new handle
    reg.register(id.clone(), CancellationHandle::new());
    assert!(reg.is_active(&id));
    assert!(!reg.is_cancelled(&id));
}

#[test]
fn registry_keeps_identities_apart() {
    let mut reg = CancellationRegistry::new();
    let a = "https://example.test/a".to_string();
    let b = "https://example.test/b".to_string();
    reg.register(a.clone(), CancellationHandle::new());
    reg.register(b.clone(), CancellationHandle::new());
    assert_eq!(reg.cancel(&a), Ok(()));
    assert!(reg.is_cancelled(&a));
    assert!(!reg.is_cancelled(&b));
    assert!(reg.is_active(&b));
}
