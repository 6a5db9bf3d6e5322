use shotlite::config::{config_toml_for_write, Config, ConfigError};

#[test]
fn default_config_has_an_output_dir() {
    let config = Config::default();

    assert!(!config.output_dir.is_empty());
}

#[test]
fn config_toml_uses_output_dir_key() {
    let config = Config { output_dir: "shots".to_string() };

    let text = config.to_toml().unwrap();

    assert!(text.contains("output_dir"));
    assert!(text.contains("shots"));
}

#[test]
fn config_toml_round_trips_output_dir() {
    let config = Config { output_dir: "custom-shots".to_string() };

    let text = config.to_toml().unwrap();
    let parsed: toml::Table = toml::from_str(&text).unwrap();

    assert_eq!(parsed["output_dir"].as_str(), Some("custom-shots"));
}

#[test]
fn written_settings_keep_unrelated_fields() {
    let existing = "\noutput_dir = \"old\"\ntheme = \"plain\"\n\n[future]\nenabled = true\n";
    let config = Config { output_dir: "new shots".to_string() };

    let text = config_toml_for_write(&config, "config.toml", Some(existing)).unwrap();
    let value: toml::Table = toml::from_str(&text).unwrap();

    assert_eq!(value["output_dir"].as_str(), Some("new shots"));
    assert_eq!(value["theme"].as_str(), Some("plain"));
    assert_eq!(value["future"]["enabled"].as_bool(), Some(true));
}

#[test]
fn written_settings_without_a_file_hold_only_the_output_dir() {
    let config = Config { output_dir: "shots".to_string() };

    let text = config_toml_for_write(&config, "config.toml", None).unwrap();

    assert_eq!(text, config.to_toml().unwrap());
}

#[test]
fn malformed_settings_are_not_overwritten() {
    let config = Config { output_dir: "shots".to_string() };

    let error = config_toml_for_write(&config, "dir/config.toml", Some("output_dir = [")).unwrap_err();

    assert!(matches!(error, ConfigError::Parse { .. }));
    let message = error.message();
    assert!(message.starts_with("failed to parse dir/config.toml: "));
}

#[test]
fn config_error_messages() {
    assert_eq!(ConfigError::MissingConfigDir.message(), "could not determine the user config directory");
    assert_eq!(
        ConfigError::Write { path: "c.toml".to_string(), reason: "denied".to_string() }.message(),
        "failed to write c.toml: denied"
    );
    assert_eq!(ConfigError::Encode("bad".to_string()).message(), "failed to encode config: bad");
}

#[test]
fn written_settings_keep_non_string_values() {
    let existing = "count = 3\nflag = false\n";
    let config = Config { output_dir: "d".to_string() };

    let text = config_toml_for_write(&config, "config.toml", Some(existing)).unwrap();
    let value: toml::Table = toml::from_str(&text).unwrap();

    assert_eq!(value["count"].as_integer(), Some(3));
    assert_eq!(value["flag"].as_bool(), Some(false));
    assert_eq!(value["output_dir"].as_str(), Some("d"));
}

#[test]
fn written_settings_keep_nested_tables() {
    let existing = "\noutput_dir = \"old\"\ntheme = \"plain\"\n\n[future]\nenabled = true\n";
    let config = Config { output_dir: "new shots".to_string() };

    let text = config_toml_for_write(&config, "config.toml", Some(existing)).unwrap();
    let value: toml::Table = toml::from_str(&text).unwrap();

    assert_eq!(value["theme"].as_str(), Some("plain"));
    assert_eq!(value["future"]["enabled"].as_bool(), Some(true));
    assert_eq!(value["output_dir"].as_str(), Some("new shots"));
}
