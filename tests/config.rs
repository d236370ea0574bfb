use stop_sync::config::{is_blank, settings_from_values, ConfigError, Setting};

fn some(s: &str) -> Option<String> {
    Some(s.to_string())
}

#[test]
fn defaults_provider_url() {
    let s = settings_from_values(some("http://api"), some("t"), None, some("k")).unwrap();
    assert_eq!(s.map_box_url, "https://api.mapbox.com");
    assert_eq!(s.api_url, "http://api");
    assert_eq!(s.api_token, "t");
    assert_eq!(s.map_box_token, "k");
}

#[test]
fn missing_settings_are_errors() {
    assert_eq!(
        settings_from_values(None, some("t"), None, some("k")).err(),
        Some(ConfigError::MissingEnvVar(Setting::ApiUrl))
    );
    assert_eq!(
        settings_from_values(some("u"), None, None, some("k")).err(),
        Some(ConfigError::MissingEnvVar(Setting::ApiToken))
    );
    assert_eq!(
        settings_from_values(some("u"), some("t"), None, None).err(),
        Some(ConfigError::MissingEnvVar(Setting::MapBoxToken))
    );
}

#[test]
fn blank_settings_are_errors() {
    assert_eq!(
        settings_from_values(some("  "), some("t"), None, some("k")).err(),
        Some(ConfigError::InvalidValue(Setting::ApiUrl))
    );
    assert_eq!(
        settings_from_values(some("u"), some(""), None, some("k")).err(),
        Some(ConfigError::InvalidValue(Setting::ApiToken))
    );
    assert_eq!(
        settings_from_values(some("u"), some("t"), some("\t\n"), some("k")).err(),
        Some(ConfigError::InvalidValue(Setting::MapBoxUrl))
    );
    assert_eq!(
        settings_from_values(some("u"), some("t"), some("m"), some("\u{3000}")).err(),
        Some(ConfigError::InvalidValue(Setting::MapBoxToken))
    );
}

#[test]
fn blank_agrees_with_trim() {
    for s in ["", " ", "\u{a0}\u{2003}", " a ", "x", "\u{200b}", "\r\n\u{85}"] {
        assert_eq!(is_blank(s), s.trim().is_empty(), "{:?}", s);
    }
}
