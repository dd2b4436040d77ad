use mudl::persistence::writer_lock::{is_memory_database, lock_path_for_database_url};

#[test]
fn memory_database_skips_lock_path() {
    assert!(lock_path_for_database_url(":memory:").is_none());
    assert!(is_memory_database("sqlite::memory:"));
}

#[test]
fn lock_path_derived_from_database_file() {
    let path = lock_path_for_database_url("sqlite://mudl.db").expect("lock path");
    assert_eq!(path, "mudl.db.writer.lock");
}
