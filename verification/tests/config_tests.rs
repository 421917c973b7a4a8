use mudibot::config::{Config, ConfigError, Credentials, PermissionGroup};

#[test]
fn borrow_creds() {
    let config = Config::default();

    assert_eq!(config.get_creds(), &config.credentials);
}

#[test]
fn borrow_prefix() {
    let config = Config::default();

    assert_eq!(config.get_prefix(), config.server_specific.prefix.as_str());
}

#[test]
fn borrow_locale() {
    let config = Config::default();

    assert_eq!(config.get_locale(), config.server_specific.locale.as_str());
}

#[test]
fn create_new_config() {
    let (config, file) = Config::new(None).unwrap();
    assert_eq!(config, Config::default());
    let written = file.unwrap();
    assert_eq!(written, Config::write_config_file(&Config::default()));
}

#[test]
fn read_config() {
    let toml_string = Config::write_config_file(&Config::default());
    let (config, file) = Config::new(Some(toml_string.as_str())).unwrap();
    assert_eq!(config, Config::default());
    assert!(file.is_none());
}

#[test]
fn default_round_trip() {
    let written = Config::write_config_file(&Config::default());
    let read = Config::read_config_file(written.as_str()).unwrap();
    assert_eq!(read, Config::default());
}

#[test]
fn full_round_trip() {
    let mut config = Config::default();
    config.credentials = Credentials {
        bot_token: Some("SECRET-REDACTED".to_string()),
        youtube_api_key: None,
        giphy_api_key: Some("1234".to_string()),
    };
    config.global.superusers = Some(vec![3, 1, 4, 1, 5]);
    config.global.xp_cooldown = 12345;
    config.global.activity = None;
    config.global.metrics.activated = true;
    config.global.metrics.exporter_port = 9999;
    config.server_specific.prefix = "!!".to_string();
    config.server_specific.locale = "fr".to_string();
    config.server_specific.permission_groups.push(PermissionGroup {
        name: "Extra".to_string(),
        perm_lvl: 9,
        max_custom_cmds: 42,
    });
    let written = Config::write_config_file(&config);
    let read = Config::read_config_file(written.as_str()).unwrap();
    assert_eq!(read, config);
}

#[test]
fn unknown_field_rejected() {
    let mut written = Config::write_config_file(&Config::default());
    written.push_str("surprise = 1\n");
    assert!(matches!(
        Config::read_config_file(written.as_str()),
        Err(ConfigError::Deserialize(_))
    ));
}

#[test]
fn missing_field_rejected() {
    let text = "[credentials]\n[global]\ncurrent_status = \"x\"\n";
    assert!(matches!(
        Config::read_config_file(text),
        Err(ConfigError::Deserialize(_))
    ));
}

#[test]
fn change_activity_updates_and_persists() {
    let mut config = Config::default();
    let file = config.change_activity(Some("streaming".to_string()));
    assert_eq!(config.get_activity(), Some(&"streaming".to_string()));
    let read = Config::read_config_file(file.as_str()).unwrap();
    assert_eq!(read, config);
    let file2 = config.change_activity(None);
    assert_eq!(config.get_activity(), None);
    let read2 = Config::read_config_file(file2.as_str()).unwrap();
    assert_eq!(read2, config);
}

#[test]
fn non_canonical_file_rejected() {
    let written = Config::write_config_file(&Config::default());
    let reordered = written.replace(
        "current_status = \"Type $help\"\npath_database = \"./storage/data.db\"\n",
        "path_database = \"./storage/data.db\"\ncurrent_status = \"Type $help\"\n",
    );
    assert_ne!(written, reordered);
    assert!(matches!(
        Config::read_config_file(reordered.as_str()),
        Err(ConfigError::Deserialize(_))
    ));
}

#[test]
fn empty_prefix_rejected() {
    let mut config = Config::default();
    config.server_specific.prefix = String::new();
    let written = Config::write_config_file(&config);
    assert!(matches!(
        Config::read_config_file(written.as_str()),
        Err(ConfigError::Deserialize(_))
    ));
}
