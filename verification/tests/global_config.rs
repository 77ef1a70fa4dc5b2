use peas::global_config::GlobalPeasConfig;

#[test]
fn test_default_has_updates_enabled() {
    let config = GlobalPeasConfig::default();
    assert!(config.updates.enabled);
}

#[test]
fn test_from_str_valid_disabled() {
    let config = GlobalPeasConfig::parse("[updates]\nenabled = false\n");
    assert!(!config.updates.enabled);
}

#[test]
fn test_from_str_valid_enabled() {
    let config = GlobalPeasConfig::parse("[updates]\nenabled = true\n");
    assert!(config.updates.enabled);
}

#[test]
fn test_from_str_empty_returns_default() {
    let config = GlobalPeasConfig::parse("");
    assert!(config.updates.enabled);
}

#[test]
fn test_from_str_malformed_returns_default() {
    let config = GlobalPeasConfig::parse("{{{{not valid toml}}}}");
    assert!(config.updates.enabled);
}

#[test]
fn test_from_str_missing_updates_section() {
    let config = GlobalPeasConfig::parse("[something_else]\nkey = \"value\"\n");
    assert!(config.updates.enabled);
}

#[test]
fn global_config_wrong_type_keeps_default() {
    let config = GlobalPeasConfig::parse("[updates]\nenabled = \"no\"\n");
    assert!(config.updates.enabled);
}

#[test]
fn setting_decides_update_checks() {
    assert!(!GlobalPeasConfig::from_setting(Some(false)).updates.enabled);
    assert!(GlobalPeasConfig::from_setting(Some(true)).updates.enabled);
    assert!(GlobalPeasConfig::from_setting(None).updates.enabled);
}
