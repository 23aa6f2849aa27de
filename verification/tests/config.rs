use std::path::Path;

use oxban::config::{
    config_or_default, default_config_text, log_file_path, AppConfig, AppSection, LoggingSection,
    OrderingSection, StorageSection, UiSection,
};

#[test]
fn defaults_match_documentation() {
    let cfg = AppConfig::default();
    assert_eq!(cfg.app.name, "Oxban");
    assert_eq!(cfg.app.default_board_name, "My Board");
    assert!(cfg.app.seed_default_columns);
    assert_eq!(cfg.app.default_columns, vec!["To do", "Doing", "Done"]);
    assert_eq!(cfg.ui.start_route, "/");
    assert!(cfg.ui.enable_animations);
    assert!(!cfg.ui.dense_mode);
    assert_eq!(cfg.storage.sqlite_filename, "oxban.sqlite3");
    assert_eq!(cfg.storage.journal_mode, "WAL");
    assert_eq!(cfg.storage.synchronous, "NORMAL");
    assert!(cfg.storage.foreign_keys);
    assert_eq!(cfg.ordering, OrderingSection { step: 1_000_000, min_gap: 4 });
    assert_eq!(cfg.logging.level, "info");
    assert!(!cfg.logging.json);
    assert!(cfg.logging.write_to_file);
    assert_eq!(cfg.logging.log_dirname, "logs");
    assert_eq!(cfg.logging.max_log_files, 10);
}

#[test]
fn section_defaults_are_the_config_defaults() {
    let cfg = AppConfig::default();
    assert_eq!(AppSection::default().name, cfg.app.name);
    assert_eq!(UiSection::default().start_route, cfg.ui.start_route);
    assert_eq!(StorageSection::default().sqlite_filename, cfg.storage.sqlite_filename);
    assert_eq!(OrderingSection::default(), cfg.ordering);
    assert_eq!(LoggingSection::default().level, cfg.logging.level);
}

#[test]
fn unparsable_config_falls_back_to_defaults() {
    let cfg = config_or_default(None);
    assert_eq!(cfg.app.default_board_name, "My Board");
    let mut custom = AppConfig::default();
    custom.ordering.step = 10;
    assert_eq!(config_or_default(Some(custom)).ordering.step, 10);
}

#[test]
fn default_config_text_holds_the_defaults() {
    let value: toml::Value = toml::from_str(default_config_text()).unwrap();
    let cfg = AppConfig::default();
    assert_eq!(value["app"]["name"].as_str(), Some(cfg.app.name.as_str()));
    assert_eq!(value["app"]["default_board_name"].as_str(), Some("My Board"));
    assert_eq!(value["app"]["seed_default_columns"].as_bool(), Some(true));
    let columns: Vec<&str> = value["app"]["default_columns"]
        .as_array()
        .unwrap()
        .iter()
        .map(|v| v.as_str().unwrap())
        .collect();
    assert_eq!(columns, cfg.app.default_columns);
    assert_eq!(value["ui"]["start_route"].as_str(), Some("/"));
    assert_eq!(value["storage"]["sqlite_filename"].as_str(), Some("oxban.sqlite3"));
    assert_eq!(value["storage"]["journal_mode"].as_str(), Some("WAL"));
    assert_eq!(value["storage"]["synchronous"].as_str(), Some("NORMAL"));
    assert_eq!(value["storage"]["foreign_keys"].as_bool(), Some(true));
    assert_eq!(value["ordering"]["step"].as_integer(), Some(cfg.ordering.step));
    assert_eq!(value["ordering"]["min_gap"].as_integer(), Some(cfg.ordering.min_gap));
    assert_eq!(value["logging"]["level"].as_str(), Some("info"));
    assert_eq!(value["logging"]["write_to_file"].as_bool(), Some(true));
    assert_eq!(value["logging"]["log_dirname"].as_str(), Some("logs"));
    assert_eq!(value["logging"]["max_log_files"].as_integer(), Some(10));
}

#[test]
fn log_file_lives_in_the_log_directory() {
    let path = log_file_path(Path::new("/home/me/.config/oxban"), "logs");
    assert_eq!(path, Path::new("/home/me/.config/oxban/logs/oxban.log"));
}
