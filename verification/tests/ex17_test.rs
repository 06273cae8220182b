use rust_ffi_exercises::ex17_wrapping_c::{check, CdbError, Database, CDB_ERR_INVALID, CDB_ERR_NOT_FOUND, CDB_ERR_OVERFLOW};

#[test]
fn test_ex17_open_close() {
    let db = Database::open("test.db").expect("open failed");
    assert_eq!(db.count(), 0);
    drop(db);
}

#[test]
fn test_ex17_open_empty_path_fails() {
    let result = Database::open("");
    assert!(result.is_err());
}

#[test]
fn test_ex17_put_and_get() {
    let mut db = Database::open("test.db").unwrap();
    db.put("language", "Rust").unwrap();
    assert_eq!(db.get("language").unwrap(), "Rust");
}

#[test]
fn test_ex17_get_missing_key() {
    let db = Database::open("test.db").unwrap();
    let err = db.get("nonexistent").unwrap_err();
    assert_eq!(err, CdbError::NotFound);
}

#[test]
fn test_ex17_put_update() {
    let mut db = Database::open("test.db").unwrap();
    db.put("k", "v1").unwrap();
    db.put("k", "v2").unwrap();
    assert_eq!(db.count(), 1);
    assert_eq!(db.get("k").unwrap(), "v2");
}

#[test]
fn test_ex17_delete() {
    let mut db = Database::open("test.db").unwrap();
    db.put("a", "1").unwrap();
    db.put("b", "2").unwrap();
    assert_eq!(db.count(), 2);
    db.delete("a").unwrap();
    assert_eq!(db.count(), 1);
    assert_eq!(db.get("a").unwrap_err(), CdbError::NotFound);
}

#[test]
fn test_ex17_delete_missing() {
    let mut db = Database::open("test.db").unwrap();
    let err = db.delete("nope").unwrap_err();
    assert_eq!(err, CdbError::NotFound);
}

#[test]
fn test_ex17_count() {
    let mut db = Database::open("test.db").unwrap();
    assert_eq!(db.count(), 0);
    db.put("x", "1").unwrap();
    assert_eq!(db.count(), 1);
    db.put("y", "2").unwrap();
    assert_eq!(db.count(), 2);
    db.delete("x").unwrap();
    assert_eq!(db.count(), 1);
}

#[test]
fn test_ex17_multiple_databases() {
    let mut db1 = Database::open("one.db").unwrap();
    let mut db2 = Database::open("two.db").unwrap();
    db1.put("k", "from_db1").unwrap();
    db2.put("k", "from_db2").unwrap();
    assert_eq!(db1.get("k").unwrap(), "from_db1");
    assert_eq!(db2.get("k").unwrap(), "from_db2");
}

#[test]
fn test_ex17_error_display() {
    // Every error has a human-readable message.
    let err = CdbError::NotFound;
    let msg = err.message();
    assert!(!msg.is_empty());
}

#[test]
fn open_empty_path_is_invalid() {
    assert_eq!(Database::open("").err(), Some(CdbError::Invalid));
}

#[test]
fn get_value_too_large_for_buffer() {
    let mut db = Database::open("big.db").unwrap();
    let fits = "x".repeat(255);
    let too_big = "y".repeat(256);
    db.put("fits", &fits).unwrap();
    db.put("big", &too_big).unwrap();
    assert_eq!(db.get("fits").unwrap(), fits);
    assert_eq!(db.get("big").unwrap_err(), CdbError::Overflow);
}

#[test]
fn status_codes_map_to_errors() {
    assert_eq!(check(0), Ok(()));
    assert_eq!(check(CDB_ERR_INVALID), Err(CdbError::Invalid));
    assert_eq!(check(CDB_ERR_NOT_FOUND), Err(CdbError::NotFound));
    assert_eq!(check(CDB_ERR_OVERFLOW), Err(CdbError::Overflow));
    assert_eq!(check(7), Err(CdbError::Unknown));
    assert_eq!(CdbError::from(-2), CdbError::NotFound);
    assert_eq!(CdbError::NotFound.message(), "key not found");
}
