use adbrowse::cli::Cli;
use adbrowse::config::{config_path, default_true, Config, DefaultsConfig, TransferConfig};

#[test]
fn default_config() {
    let config = Config::default();
    assert!(config.defaults.android_path.is_none());
    assert!(config.transfer.use_tar_streaming);
    assert!(config.bookmarks.is_empty());
}

#[test]
fn default_parts() {
    let d = DefaultsConfig::default();
    assert!(d.android_path.is_none() && d.local_path.is_none() && d.serial.is_none());
    assert!(TransferConfig::default().use_tar_streaming);
    assert!(default_true());
}

#[test]
fn config_path_under_config_dir() {
    assert_eq!(config_path(Some("/home/u/.config".to_string())), "/home/u/.config/abdrose/config.toml");
    assert_eq!(config_path(None), "./abdrose/config.toml");
}

#[test]
fn start_paths_from_command_line() {
    let cli = Cli {
        android_path: None,
        local_path: None,
        serial: None,
        log_file: None,
    };
    assert_eq!(cli.start_android_path(), "/sdcard");
    assert_eq!(cli.start_local_path(Some("/work".to_string())), "/work");
    assert_eq!(cli.start_local_path(None), ".");
    let cli = Cli {
        android_path: Some("/sdcard/Download".to_string()),
        local_path: Some("/home/user".to_string()),
        serial: Some("abc123".to_string()),
        log_file: None,
    };
    assert_eq!(cli.start_android_path(), "/sdcard/Download");
    assert_eq!(cli.start_local_path(Some("/work".to_string())), "/home/user");
}
