//! Validation of the service settings read at start-up.
use vstd::prelude::*;

verus! {

/// Base URL of the geocoding provider when none is configured.
pub const DEFAULT_MAP_BOX_URL: &'static str = "https://api.mapbox.com";

/// A setting the pipeline needs.
#[derive(Debug, Clone, Copy, PartialEq, Eq, Structural)]
pub enum Setting {
    ApiUrl,
    ApiToken,
    MapBoxUrl,
    MapBoxToken,
}

/// Why the settings cannot be used.
#[derive(Debug, Clone, Copy, PartialEq, Eq, Structural)]
pub enum ConfigError {
    MissingEnvVar(Setting),
    InvalidValue(Setting),
}

/// The settings, all present and non-blank.
#[derive(Debug, Clone)]
pub struct Settings {
    pub api_url: String,
    pub api_token: String,
    pub map_box_url: String,
    pub map_box_token: String,
}

/// A character of the Unicode White_Space property.
pub open spec fn white_space(c: char) -> bool {
    ('\u{9}' <= c && c <= '\u{d}') || c == ' ' || c == '\u{85}' || c == '\u{a0}' || c
        == '\u{1680}' || ('\u{2000}' <= c && c <= '\u{200a}') || c == '\u{2028}' || c
        == '\u{2029}' || c == '\u{202f}' || c == '\u{205f}' || c == '\u{3000}'
}

/// Nothing but white space: what trimming leaves empty.
pub open spec fn blank(s: Seq<char>) -> bool {
    forall|i: int| 0 <= i < s.len() ==> white_space(#[trigger] s[i])
}

fn is_white_space(c: char) -> (r: bool)
    ensures
        r == white_space(c),
{
    ('\u{9}' <= c && c <= '\u{d}') || c == ' ' || c == '\u{85}' || c == '\u{a0}' || c
        == '\u{1680}' || ('\u{2000}' <= c && c <= '\u{200a}') || c == '\u{2028}' || c
        == '\u{2029}' || c == '\u{202f}' || c == '\u{205f}' || c == '\u{3000}'
}

/// Whether `s` holds nothing but white space.
pub fn is_blank(s: &str) -> (r: bool)
    ensures
        r == blank(s@),
{
    let n = s.unicode_len();
    let mut i: usize = 0;
    while i < n
        invariant
            n == s@.len(),
            i <= n,
            forall|j: int| 0 <= j < i ==> white_space(#[trigger] s@[j]),
        decreases n - i,
    {
        if !is_white_space(s.get_char(i)) {
            return false;
        }
        i = i + 1;
    }
    true
}

/// The settings from the values found for them, `None` where a value is
/// absent. The provider URL falls back to `DEFAULT_MAP_BOX_URL`. An absent
/// required value, then a blank one, is reported, each in the order
/// API URL, API token, provider URL, provider token.
pub fn settings_from_values(
    api_url: Option<String>,
    api_token: Option<String>,
    map_box_url: Option<String>,
    map_box_token: Option<String>,
) -> (r: Result<Settings, ConfigError>)
    ensures
        api_url is None ==> r == Err::<Settings, ConfigError>(
            ConfigError::MissingEnvVar(Setting::ApiUrl),
        ),
        api_url is Some && api_token is None ==> r == Err::<Settings, ConfigError>(
            ConfigError::MissingEnvVar(Setting::ApiToken),
        ),
        api_url is Some && api_token is Some && map_box_token is None ==> r == Err::<
            Settings,
            ConfigError,
        >(ConfigError::MissingEnvVar(Setting::MapBoxToken)),
        api_url is Some && api_token is Some && map_box_token is Some ==> {
            let u = api_url.unwrap()@;
            let t = api_token.unwrap()@;
            let m = match map_box_url {
                Some(v) => v@,
                None => DEFAULT_MAP_BOX_URL@,
            };
            let k = map_box_token.unwrap()@;
            &&& blank(u) ==> r == Err::<Settings, ConfigError>(
                ConfigError::InvalidValue(Setting::ApiUrl),
            )
            &&& !blank(u) && blank(t) ==> r == Err::<Settings, ConfigError>(
                ConfigError::InvalidValue(Setting::ApiToken),
            )
            &&& !blank(u) && !blank(t) && blank(m) ==> r == Err::<Settings, ConfigError>(
                ConfigError::InvalidValue(Setting::MapBoxUrl),
            )
            &&& !blank(u) && !blank(t) && !blank(m) && blank(k) ==> r == Err::<
                Settings,
                ConfigError,
            >(ConfigError::InvalidValue(Setting::MapBoxToken))
            &&& !blank(u) && !blank(t) && !blank(m) && !blank(k) ==> (r matches Ok(s)
                && s.api_url@ == u && s.api_token@ == t && s.map_box_url@ == m
                && s.map_box_token@ == k)
        },
{
    let api_url = match api_url {
        Some(v) => v,
        None => return Err(ConfigError::MissingEnvVar(Setting::ApiUrl)),
    };
    let api_token = match api_token {
        Some(v) => v,
        None => return Err(ConfigError::MissingEnvVar(Setting::ApiToken)),
    };
    let map_box_url = match map_box_url {
        Some(v) => v,
        None => String::from_str(DEFAULT_MAP_BOX_URL),
    };
    let map_box_token = match map_box_token {
        Some(v) => v,
        None => return Err(ConfigError::MissingEnvVar(Setting::MapBoxToken)),
    };
    if is_blank(api_url.as_str()) {
        return Err(ConfigError::InvalidValue(Setting::ApiUrl));
    }
    if is_blank(api_token.as_str()) {
        return Err(ConfigError::InvalidValue(Setting::ApiToken));
    }
    if is_blank(map_box_url.as_str()) {
        return Err(ConfigError::InvalidValue(Setting::MapBoxUrl));
    }
    if is_blank(map_box_token.as_str()) {
        return Err(ConfigError::InvalidValue(Setting::MapBoxToken));
    }
    Ok(Settings { api_url, api_token, map_box_url, map_box_token })
}

} // verus!
