use message_registry::RegistryError;
use message_registry::Service;

#[test]
fn scenario_crud_round_trip() {
    let mut svc = Service::new(64);

    let m1 = svc.produce("a".to_string(), "hello".to_string());
    let m2 = svc.produce("b".to_string(), "world".to_string());
    assert_ne!(m1.id, m2.id);

    let got = svc.fetch(m1.id).expect("first record must be found");
    assert_eq!(got.id, m1.id);
    assert_eq!(got.key, "a");
    assert_eq!(got.body, "hello");

    let updated = svc
        .update(m1.id, "a2".to_string(), "bye".to_string(), true)
        .expect("update with successful send must succeed");
    assert_eq!(updated.id, m1.id);
    assert_eq!(updated.key, "a2");
    assert_eq!(updated.body, "bye");

    let got = svc.fetch(m1.id).expect("updated record must be found");
    assert_eq!(got.id, m1.id);
    assert_eq!(got.key, "a2");
    assert_eq!(got.body, "bye");

    assert!(svc.delete(m2.id).is_ok());
    match svc.fetch(m2.id) {
        Err(RegistryError::NotFound) => {}
        other => panic!("expected NotFound, got {:?}", other),
    }
}

#[test]
fn subscriber_sees_creates_and_updates_in_order() {
    let mut svc = Service::new(64);
    let before = svc.produce("k".to_string(), "not seen".to_string());

    let h = svc.subscribe();
    let c = svc.produce("k2".to_string(), "created".to_string());
    svc.update(before.id, "k".to_string(), "updated".to_string(), true)
        .expect("update with successful send must succeed");

    let msgs = svc.drain(h).expect("live handle must drain");
    assert_eq!(msgs.len(), 2);
    assert_eq!(msgs[0].id, c.id);
    assert_eq!(msgs[0].body, "created");
    assert_eq!(msgs[1].id, before.id);
    assert_eq!(msgs[1].body, "updated");
}

#[test]
fn failed_send_publishes_nothing() {
    let mut svc = Service::new(64);
    let m = svc.produce("k".to_string(), "v".to_string());
    let h = svc.subscribe();
    match svc.update(m.id, "k2".to_string(), "v2".to_string(), false) {
        Err(RegistryError::UpstreamSendFailed) => {}
        other => panic!("expected UpstreamSendFailed, got {:?}", other),
    }
    let msgs = svc.drain(h).expect("live handle must drain");
    assert_eq!(msgs.len(), 0);
}

#[test]
fn update_of_missing_id_is_not_found_even_on_failed_send() {
    let mut svc = Service::new(64);
    match svc.update(123, "k".to_string(), "v".to_string(), false) {
        Err(RegistryError::NotFound) => {}
        other => panic!("expected NotFound, got {:?}", other),
    }
}
