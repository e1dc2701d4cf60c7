use tmux_pane_border::config::{BorderStyle, Config, Settings};

#[test]
fn defaults() {
    for config in [Config::default(), Config::load(None)] {
        assert_eq!(config.border.style, BorderStyle::Rounded);
        assert_eq!(config.border.active_color, "#61afef");
        assert_eq!(config.border.inactive_color, "#5c6370");
        assert!(!config.behavior.dim_inactive);
    }
}

#[test]
fn every_option_is_optional() {
    let config = Config::load(Some(Settings {
        style: None,
        active_color: Some("#000000".to_string()),
        inactive_color: None,
        dim_inactive: None,
    }));
    assert_eq!(config.border.style, BorderStyle::Rounded);
    assert_eq!(config.border.active_color, "#000000");
    assert_eq!(config.border.inactive_color, "#5c6370");
    assert!(!config.behavior.dim_inactive);
}

#[test]
fn every_option_counts() {
    let config = Config::load(Some(Settings {
        style: Some(BorderStyle::Ascii),
        active_color: Some("#000001".to_string()),
        inactive_color: Some("#000002".to_string()),
        dim_inactive: Some(true),
    }));
    assert_eq!(config.border.style, BorderStyle::Ascii);
    assert_eq!(config.border.active_color, "#000001");
    assert_eq!(config.border.inactive_color, "#000002");
    assert!(config.behavior.dim_inactive);
}
