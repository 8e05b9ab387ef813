use ego_proc::actor::{DormantStore, InMemoryDormantStore, ReactivateError, SendDataError, WakePolicy};

#[test]
fn in_memory_store_reads_what_was_written() {
    let mut store = InMemoryDormantStore::default();
    assert_eq!(store.get(1).unwrap(), None);
    store.put(1, vec![1, 2, 3]).unwrap();
    store.put(2, vec![9]).unwrap();
    assert_eq!(store.get(1).unwrap(), Some(vec![1, 2, 3]));
    store.put(1, vec![4]).unwrap();
    assert_eq!(store.get(1).unwrap(), Some(vec![4]), "a second write replaces the first");
    store.del(1).unwrap();
    assert_eq!(store.get(1).unwrap(), None);
    assert_eq!(store.get(2).unwrap(), Some(vec![9]), "other ids are untouched");
    store.del(1).unwrap();
}

#[test]
fn wake_policy_defaults_to_wake_on_data() {
    assert_eq!(WakePolicy::default(), WakePolicy::WakeOnData);
}

#[test]
fn reactivate_error_converts_into_send_error() {
    match SendDataError::from(ReactivateError::NoRehydrator) {
        SendDataError::Reactivate(ReactivateError::NoRehydrator) => {}
        other => panic!("expected Reactivate(NoRehydrator), got {other:?}"),
    }
}
