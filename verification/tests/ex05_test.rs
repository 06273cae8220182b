use rust_ffi_exercises::ex05_opaque::{config_count, config_get, config_new, config_remove, config_set};

#[test]
fn test_ex05_create_and_free() {
    let cfg = config_new();
    assert_eq!(config_count(&cfg), 0);
    drop(cfg);
}

#[test]
fn test_ex05_set_and_get() {
    let mut cfg = config_new();
    config_set(&mut cfg, "name", "Ferris");
    let result = config_get(&cfg, "name");
    assert!(result.is_some());
    assert_eq!(result.unwrap(), "Ferris");
}

#[test]
fn test_ex05_get_missing_key() {
    let cfg = config_new();
    let result = config_get(&cfg, "nonexistent");
    assert!(result.is_none());
}

#[test]
fn test_ex05_remove() {
    let mut cfg = config_new();
    config_set(&mut cfg, "key", "value");
    assert_eq!(config_count(&cfg), 1);
    assert!(config_remove(&mut cfg, "key"));
    assert_eq!(config_count(&cfg), 0);
    assert!(!config_remove(&mut cfg, "key")); // already gone
}

#[test]
fn test_ex05_count() {
    let mut cfg = config_new();
    assert_eq!(config_count(&cfg), 0);
    config_set(&mut cfg, "a", "1");
    assert_eq!(config_count(&cfg), 1);
    config_set(&mut cfg, "b", "2");
    assert_eq!(config_count(&cfg), 2);
}

#[test]
fn test_ex05_overwrite() {
    let mut cfg = config_new();
    config_set(&mut cfg, "key", "first");
    config_set(&mut cfg, "key", "second");
    assert_eq!(config_count(&cfg), 1);
    let result = config_get(&cfg, "key");
    assert_eq!(result.unwrap(), "second");
}

#[test]
fn read_after_set_leaves_other_keys() {
    let mut cfg = config_new();
    config_set(&mut cfg, "a", "1");
    config_set(&mut cfg, "b", "2");
    config_set(&mut cfg, "a", "3");
    assert_eq!(config_get(&cfg, "a").unwrap(), "3");
    assert_eq!(config_get(&cfg, "b").unwrap(), "2");
    assert_eq!(config_count(&cfg), 2);
}

#[test]
fn remove_leaves_other_keys() {
    let mut cfg = config_new();
    config_set(&mut cfg, "a", "1");
    config_set(&mut cfg, "b", "2");
    assert!(config_remove(&mut cfg, "a"));
    assert!(config_get(&cfg, "a").is_none());
    assert_eq!(config_get(&cfg, "b").unwrap(), "2");
    assert_eq!(config_count(&cfg), 1);
}
