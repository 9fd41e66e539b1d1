use next_error_code::persist::{MemStore, PersistStep, persist_to_mem, record_file_name, register_in};
use next_error_code::registry::register;

#[test]
fn record_file_name_appends_txt() {
    assert_eq!(record_file_name("E123"), "E123.txt");
}

#[test]
fn register_in_stores_message_once() {
    let mut store = MemStore::new();
    let code = register_in(&mut store, "Failed to fetch user %s: %s");
    let file = record_file_name(&code);
    assert_eq!(store.lookup(&file), Some("Failed to fetch user %s: %s".to_owned()));
}

#[test]
fn register_in_twice_is_idempotent() {
    let mut store = MemStore::new();
    let first = register_in(&mut store, "Request failed: %s");
    let after_first = store.lookup(&record_file_name(&first));
    let second = register_in(&mut store, "Request failed: %s");
    assert_eq!(first, second);
    let after_second = store.lookup(&record_file_name(&second));
    assert_eq!(after_first, after_second);
    assert_eq!(after_second, Some("Request failed: %s".to_owned()));
}

#[test]
fn register_in_returns_same_code_as_register() {
    let mut store = MemStore::new();
    let code = register_in(&mut store, "boom");
    assert_eq!(code, register("boom"));
}

#[test]
fn register_in_keeps_distinct_messages_apart() {
    let mut store = MemStore::new();
    let a = register_in(&mut store, "first message");
    let b = register_in(&mut store, "second message");
    assert_ne!(a, b);
    assert_eq!(store.lookup(&record_file_name(&a)), Some("first message".to_owned()));
    assert_eq!(store.lookup(&record_file_name(&b)), Some("second message".to_owned()));
}

#[test]
fn persist_never_overwrites_an_existing_record() {
    let mut store = MemStore::new();
    persist_to_mem(&mut store, "E1.txt", "original content");
    persist_to_mem(&mut store, "E1.txt", "other content");
    assert_eq!(store.lookup("E1.txt"), Some("original content".to_owned()));
}

#[test]
fn lookup_of_missing_record_is_none() {
    let store = MemStore::new();
    assert_eq!(store.lookup("E1.txt"), None);
}

#[test]
fn protocol_happy_path_writes_once() {
    // directory present, record absent, write succeeds
    let s0 = PersistStep::start();
    assert_eq!(s0, PersistStep::ProbeDir);
    let s1 = s0.next(true);
    assert_eq!(s1, PersistStep::ProbeRecord);
    let s2 = s1.next(false);
    assert_eq!(s2, PersistStep::WriteRecord { attempt: 0 });
    let s3 = s2.next(true);
    assert_eq!(s3, PersistStep::Finished);
}

#[test]
fn protocol_existing_record_is_left_alone() {
    let s = PersistStep::ProbeRecord.next(true);
    assert_eq!(s, PersistStep::Finished);
}

#[test]
fn protocol_missing_directory_is_created_first() {
    let s = PersistStep::ProbeDir.next(false);
    assert_eq!(s, PersistStep::EnsureDir);
    assert_eq!(s.next(true), PersistStep::ProbeRecord);
}

#[test]
fn protocol_gives_up_after_three_failed_writes() {
    let w0 = PersistStep::WriteRecord { attempt: 0 };
    let w1 = w0.next(false);
    assert_eq!(w1, PersistStep::WriteRecord { attempt: 1 });
    let w2 = w1.next(false);
    assert_eq!(w2, PersistStep::WriteRecord { attempt: 2 });
    let gave_up = w2.next(false);
    assert_eq!(gave_up, PersistStep::Warn);
    assert_eq!(gave_up.next(true), PersistStep::Finished);
}

#[test]
fn protocol_failed_directory_creation_is_not_fatal() {
    let s = PersistStep::EnsureDir.next(false);
    assert_eq!(s, PersistStep::Warn);
    assert_eq!(s.next(false), PersistStep::Finished);
}
