use ldui::config::{config_path_in, image_cache_dir, update_config_with_api_key, Config};

#[test]
fn first_run_has_the_default_forum_and_no_key() {
    let config = Config::default();
    assert_eq!(config.discourse.url, "https://linux.do");
    assert_eq!(config.discourse.api_key, "");
    assert!(!config.has_valid_api_key());
}

#[test]
fn any_key_counts_as_set() {
    let mut config = Config::default();
    config.discourse.api_key = " ".to_string();
    assert!(config.has_valid_api_key());
    config.discourse.api_key = "0123456789abcdef".to_string();
    assert!(config.has_valid_api_key());
    config.discourse.api_key.clear();
    assert!(!config.has_valid_api_key());
}

#[test]
fn key_and_forum_are_put_into_the_settings() {
    let mut config = Config::default();
    update_config_with_api_key(&mut config, "secret", "https://forum.example");
    assert_eq!(config.discourse.url, "https://forum.example");
    assert_eq!(config.discourse.api_key, "secret");
    assert!(config.has_valid_api_key());
    update_config_with_api_key(&mut config, "", "");
    assert_eq!(config.discourse.url, "");
    assert!(!config.has_valid_api_key());
}

#[test]
fn copies_hold_the_same_settings() {
    let mut config = Config::default();
    update_config_with_api_key(&mut config, "k", "u");
    let copy = config.clone();
    assert_eq!(copy.discourse.url, "u");
    assert_eq!(copy.discourse.api_key, "k");
}

#[test]
fn files_lie_below_the_directories_of_the_user() {
    assert_eq!(config_path_in("/home/u/.config"), "/home/u/.config/ldui/config.toml");
    assert_eq!(image_cache_dir(Some("/home/u/.cache")), "/home/u/.cache/ldui/images");
    assert_eq!(image_cache_dir(None), "./.cache/ldui/images");
}
