use dns_hearth::config::{AppConfig, ConfigManager, PartialConfig};

#[test]
fn test_default_config() {
    let config = AppConfig::default();
    assert_eq!(config.database_url, "sqlite:fluxdns.db?mode=rwc");
    assert_eq!(config.log_level, "warn");
    assert_eq!(config.log_path, "logs");
    assert_eq!(config.log_max_size, 10 * 1024 * 1024);
    assert_eq!(config.log_retention_days, 30);
}

#[test]
fn test_merge_config() {
    let mut config = AppConfig::default();
    let partial = PartialConfig {
        database_url: Some("sqlite:merged.db".to_string()),
        ..Default::default()
    };

    ConfigManager::merge_config(&mut config, partial);

    assert_eq!(config.database_url, "sqlite:merged.db");
    assert_eq!(config.log_level, "warn");
}

#[test]
fn test_env_priority_over_file() {
    let file_config = PartialConfig {
        database_url: Some("sqlite:file.db".to_string()),
        ..Default::default()
    };

    let env_config = PartialConfig {
        ..Default::default()
    };

    let manager = ConfigManager::from_configs(Some(file_config), Some(env_config));
    let config = manager.get();

    assert_eq!(config.database_url, "sqlite:file.db");
}

#[test]
fn environment_wins_over_file_and_file_over_default() {
    let file = PartialConfig {
        database_url: Some("sqlite:file.db".to_string()),
        log_level: Some("info".to_string()),
        ..Default::default()
    };
    let env = PartialConfig {
        log_level: Some("debug".to_string()),
        log_retention_days: Some(7),
        ..Default::default()
    };
    let c = ConfigManager::from_configs(Some(file), Some(env)).get();
    assert_eq!(c.database_url, "sqlite:file.db");
    assert_eq!(c.log_level, "debug");
    assert_eq!(c.log_retention_days, 7);
    assert_eq!(c.log_path, "logs");
    let d = ConfigManager::from_configs(None, None).get();
    assert_eq!(d.database_url, "sqlite:fluxdns.db?mode=rwc");
}

#[test]
fn merging_nothing_changes_nothing_and_twice_is_once() {
    let mut c = AppConfig::default();
    ConfigManager::merge_config(&mut c, PartialConfig::default());
    assert_eq!(c.database_url, "sqlite:fluxdns.db?mode=rwc");
    let p = || PartialConfig { log_max_size: Some(5), ..Default::default() };
    ConfigManager::merge_config(&mut c, p());
    let once = c.clone();
    ConfigManager::merge_config(&mut c, p());
    assert_eq!(c.log_max_size, once.log_max_size);
    assert_eq!(c.log_max_size, 5);
}

#[test]
fn environment_values_are_parsed() {
    let p = ConfigManager::partial_from_env_values(
        Some("sqlite:env.db".to_string()),
        None,
        Some("trace".to_string()),
        Some("2048".to_string()),
        Some("x7".to_string()),
    );
    assert_eq!(p.database_url.as_deref(), Some("sqlite:env.db"));
    assert_eq!(p.log_path, None);
    assert_eq!(p.log_level.as_deref(), Some("trace"));
    assert_eq!(p.log_max_size, Some(2048));
    assert_eq!(p.log_retention_days, None);
    let q = ConfigManager::partial_from_env_values(None, None, None, Some("+18446744073709551615".to_string()), Some("4294967296".to_string()));
    assert_eq!(q.log_max_size, Some(u64::MAX));
    assert_eq!(q.log_retention_days, None);
    let r = ConfigManager::partial_from_env_values(None, None, None, Some("18446744073709551616".to_string()), Some(" 3".to_string()));
    assert_eq!(r.log_max_size, None);
    assert_eq!(r.log_retention_days, None);
}

#[test]
fn data_dir_moves_database_and_logs() {
    let m = ConfigManager::from_configs(None, None).with_data_dir("/Users/a/Library/Application Support/com.lhstack.dns-hearth");
    let c = m.get();
    assert_eq!(
        c.database_url,
        "sqlite:/Users/a/Library/Application Support/com.lhstack.dns-hearth/dns-hearth.db?mode=rwc"
    );
    assert_eq!(c.log_path, "/Users/a/Library/Application Support/com.lhstack.dns-hearth/logs");
    let c = ConfigManager::from_configs(None, None).with_data_dir("/data/").get();
    assert_eq!(c.database_url, "sqlite:/data/dns-hearth.db?mode=rwc");
    assert_eq!(c.log_path, "/data/logs");
    assert_eq!(c.log_level, "warn");
}
