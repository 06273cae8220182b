use rust_ffi_exercises::ex22_lifetimes::{
    raw_db_cursor_next, raw_db_cursor_open, raw_db_cursor_reset, raw_db_insert, raw_db_open, Database,
};

#[test]
fn test_ex22_open_close() {
    let _db = Database::open();
    // Drop runs automatically.
}

#[test]
fn test_ex22_insert_and_cursor() {
    let mut db = Database::open();
    db.insert("name", "Ferris");
    db.insert("lang", "Rust");

    let mut cursor = db.cursor();
    let (k1, v1) = cursor.next().unwrap();
    assert_eq!(k1, "name");
    assert_eq!(v1, "Ferris");

    let (k2, v2) = cursor.next().unwrap();
    assert_eq!(k2, "lang");
    assert_eq!(v2, "Rust");

    assert!(cursor.next().is_none());
}

#[test]
fn test_ex22_cursor_reset() {
    let mut db = Database::open();
    db.insert("a", "1");

    let mut cursor = db.cursor();
    assert!(cursor.next().is_some());
    assert!(cursor.next().is_none());

    cursor.reset();
    assert!(cursor.next().is_some()); // can read again
}

#[test]
fn test_ex22_multiple_cursors() {
    // Multiple cursors can exist simultaneously (shared borrows).
    let mut db = Database::open();
    db.insert("x", "10");

    let mut c1 = db.cursor();
    let mut c2 = db.cursor();

    assert_eq!(c1.next().unwrap().0, "x");
    assert_eq!(c2.next().unwrap().0, "x");
}

#[test]
fn test_ex22_cursor_drops_before_db() {
    let mut db = Database::open();
    db.insert("k", "v");
    {
        let mut cursor = db.cursor();
        assert!(cursor.next().is_some());
        // cursor dropped here
    }
    // db is still usable after cursor is dropped
    db.insert("k2", "v2");
}

#[test]
fn test_ex22_transaction_insert() {
    let mut db = Database::open();
    {
        let mut tx = db.transaction();
        tx.insert("key", "value");
        tx.commit();
    }
    // After transaction, data is visible.
    let mut cursor = db.cursor();
    let (k, v) = cursor.next().unwrap();
    assert_eq!(k, "key");
    assert_eq!(v, "value");
}

#[test]
fn duplicate_keys_are_kept_in_insertion_order() {
    let mut db = Database::open();
    db.insert("k", "1");
    db.insert("k", "2");
    let mut c = db.cursor();
    assert_eq!(c.next().unwrap().1, "1");
    assert_eq!(c.next().unwrap().1, "2");
    assert!(c.next().is_none());
    assert!(c.next().is_none());
}

#[test]
fn raw_cursor_walks_and_resets() {
    let mut db = raw_db_open();
    raw_db_insert(&mut db, "a", "x");
    let mut cur = raw_db_cursor_open(&db);
    assert_eq!(raw_db_cursor_next(&mut cur, &db), Some(("a".to_string(), "x".to_string())));
    assert_eq!(cur.position, 1);
    assert_eq!(raw_db_cursor_next(&mut cur, &db), None);
    assert_eq!(cur.position, 1);
    raw_db_cursor_reset(&mut cur);
    assert_eq!(cur.position, 0);
}
