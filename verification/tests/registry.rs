use message_registry::Registry;
use message_registry::RegistryError;
use message_registry::registry::validate_request;

#[test]
fn create_ids_pairwise_distinct() {
    let mut reg = Registry::new();
    assert!(reg.can_create());
    let mut ids: Vec<u64> = Vec::new();
    for k in 0..8 {
        let m = reg.create(format!("key-{}", k), format!("body-{}", k));
        ids.push(m.id);
    }
    for a in 0..ids.len() {
        for b in 0..ids.len() {
            if a != b {
                assert_ne!(ids[a], ids[b]);
            }
        }
    }
}

#[test]
fn create_then_get_matches() {
    let mut reg = Registry::new();
    let m = reg.create("alpha".to_string(), "first body".to_string());
    let got = reg.get(m.id).expect("created record must be found");
    assert_eq!(got.id, m.id);
    assert_eq!(got.key, "alpha");
    assert_eq!(got.body, "first body");
}

#[test]
fn get_on_empty_registry_is_not_found() {
    let reg = Registry::new();
    match reg.get(0) {
        Err(RegistryError::NotFound) => {}
        other => panic!("expected NotFound, got {:?}", other),
    }
}

#[test]
fn update_missing_id_not_found_and_size_unchanged() {
    let mut reg = Registry::new();
    reg.create("a".to_string(), "x".to_string());
    let before = reg.len();
    let r = reg.update(999, "k".to_string(), "v".to_string(), true);
    match r {
        Err(RegistryError::NotFound) => {}
        other => panic!("expected NotFound, got {:?}", other),
    }
    assert_eq!(reg.len(), before);
}

#[test]
fn update_send_failure_keeps_stored_record() {
    let mut reg = Registry::new();
    let m = reg.create("a".to_string(), "first text".to_string());
    let r = reg.update(m.id, "a2".to_string(), "changed".to_string(), false);
    match r {
        Err(RegistryError::UpstreamSendFailed) => {}
        other => panic!("expected UpstreamSendFailed, got {:?}", other),
    }
    let got = reg.get(m.id).expect("record must still exist");
    assert_eq!(got.key, "a");
    assert_eq!(got.body, "first text");
}

#[test]
fn update_success_overwrites_in_place() {
    let mut reg = Registry::new();
    let m = reg.create("a".to_string(), "old".to_string());
    let updated = reg
        .update(m.id, "a2".to_string(), "new".to_string(), true)
        .expect("update of existing id with successful send must succeed");
    assert_eq!(updated.id, m.id);
    assert_eq!(updated.key, "a2");
    assert_eq!(updated.body, "new");
    let got = reg.get(m.id).expect("record must still exist");
    assert_eq!(got.key, "a2");
    assert_eq!(got.body, "new");
    assert_eq!(reg.len(), 1);
}

#[test]
fn delete_then_get_not_found_and_second_delete_not_found() {
    let mut reg = Registry::new();
    let m = reg.create("a".to_string(), "x".to_string());
    assert!(reg.delete(m.id).is_ok());
    match reg.get(m.id) {
        Err(RegistryError::NotFound) => {}
        other => panic!("expected NotFound, got {:?}", other),
    }
    match reg.delete(m.id) {
        Err(RegistryError::NotFound) => {}
        other => panic!("expected NotFound, got {:?}", other),
    }
}

#[test]
fn two_creates_both_retrievable() {
    let mut reg = Registry::new();
    let m1 = reg.create("p".to_string(), "payload one".to_string());
    let m2 = reg.create("q".to_string(), "payload two".to_string());
    assert_ne!(m1.id, m2.id);
    let g1 = reg.get(m1.id).expect("first record must be found");
    let g2 = reg.get(m2.id).expect("second record must be found");
    assert_eq!(g1.body, "payload one");
    assert_eq!(g2.body, "payload two");
}

#[test]
fn validate_request_accepts_complete_payload() {
    let r = validate_request(Some("k".to_string()), Some("b".to_string()));
    let (k, b) = r.expect("complete payload must be accepted");
    assert_eq!(k, "k");
    assert_eq!(b, "b");
}

#[test]
fn validate_request_rejects_missing_field() {
    match validate_request(None, Some("b".to_string())) {
        Err(RegistryError::InvalidInput) => {}
        other => panic!("expected InvalidInput, got {:?}", other),
    }
    match validate_request(Some("k".to_string()), None) {
        Err(RegistryError::InvalidInput) => {}
        other => panic!("expected InvalidInput, got {:?}", other),
    }
}
