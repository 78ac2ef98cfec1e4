use headlines::{HeadlinesConfig, Msg, Palette};

#[test]
fn store_starts_without_key_and_dark() {
    let config = HeadlinesConfig::new();
    assert_eq!(config.api_key(), "");
    assert!(config.dark_mode());
    assert!(!config.is_initialized());
    assert_eq!(config.palette(), Palette::Dark);
    assert_eq!(HeadlinesConfig::default(), config);
}

#[test]
fn first_key_is_announced_once() {
    let mut config = HeadlinesConfig::new();
    assert_eq!(config.set_api_key("k"), Some(Msg::ApiKeySet("k".to_string())));
    assert!(config.is_initialized());
    assert_eq!(config.api_key(), "k");
    assert_eq!(config.set_api_key("k"), None);
    assert_eq!(config.set_api_key("other"), None);
    assert_eq!(config.api_key(), "other");
    assert!(config.is_initialized());
}

#[test]
fn empty_key_is_turned_down() {
    let mut config = HeadlinesConfig::new();
    assert_eq!(config.set_api_key(""), None);
    assert!(!config.is_initialized());
    assert_eq!(config.set_api_key("k"), Some(Msg::ApiKeySet("k".to_string())));
    assert_eq!(config.set_api_key(""), None);
    assert_eq!(config.api_key(), "k");
    assert!(config.is_initialized());
}

#[test]
fn key_given_at_start_is_not_announced() {
    let mut config = HeadlinesConfig::with_key("demo".to_string());
    assert!(config.is_initialized());
    assert!(config.dark_mode());
    assert_eq!(config.set_api_key("next"), None);
    assert_eq!(config.api_key(), "next");
    let mut blank = HeadlinesConfig::with_key(String::new());
    assert!(!blank.is_initialized());
    assert_eq!(blank.set_api_key("k"), Some(Msg::ApiKeySet("k".to_string())));
}

#[test]
fn toggling_twice_n_times_gives_the_first_palette() {
    for n in 0..6 {
        let mut config = HeadlinesConfig::new();
        let first = config.palette();
        for _ in 0..(2 * n) {
            config.toggle_dark_mode();
        }
        assert_eq!(config.palette(), first);
        assert!(config.dark_mode());
    }
}

#[test]
fn one_toggle_changes_the_palette() {
    let mut config = HeadlinesConfig::new();
    config.toggle_dark_mode();
    assert_eq!(config.palette(), Palette::Light);
    assert!(!config.dark_mode());
    config.toggle_dark_mode();
    assert_eq!(config.palette(), Palette::Dark);
}

#[test]
fn theme_can_be_set() {
    let mut config = HeadlinesConfig::with_key("k".to_string());
    config.set_dark_mode(false);
    assert_eq!(config.palette(), Palette::Light);
    config.set_dark_mode(false);
    assert_eq!(config.palette(), Palette::Light);
    config.set_dark_mode(true);
    assert_eq!(config.palette(), Palette::Dark);
    assert_eq!(config.api_key(), "k");
}

#[test]
fn config_clone_is_equal() {
    let mut config = HeadlinesConfig::with_key("k".to_string());
    config.toggle_dark_mode();
    let copy = config.clone();
    assert_eq!(copy, config);
    assert_eq!(copy.api_key(), "k");
    assert!(!copy.dark_mode());
    let msg = Msg::ApiKeySet("k".to_string());
    assert_eq!(msg.clone(), msg);
}
