use openqr::config::Config;

#[test]
fn default_values() {
    let config = Config::default();
    assert_eq!(config.max_history_items, 100);
    assert_eq!(config.scan_mode, "single");
    assert_eq!(config.notification_type, "toast");
    assert!(!config.close_to_tray);
    assert!(config.allowlist.is_empty());
    assert!(config.blocklist.is_empty());
    assert_eq!(config.prefix.mode, "none");
    assert_eq!(config.suffix.mode, "enter");
}

#[test]
fn default_storage_is_flat_file() {
    let config = Config::default();
    assert_eq!(config.history_storage_method, "json");
    assert!(config.prefix.value.is_none());
    assert!(config.suffix.value.is_none());
}
