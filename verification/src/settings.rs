//! The application's settings, and what is decided about them here: which
//! setting is a secret and where it goes, and how the stored rows make up
//! the settings.

use vstd::prelude::*;
use crate::text::str_eq;

verus! {

/// The application's settings.
#[derive(Debug)]
pub struct AppSettings {
    pub anthropic_api_key: Option<String>,
    pub theme: String,
    pub auto_analyze: bool,
}

impl Default for AppSettings {
    fn default() -> (s: AppSettings)
        ensures
            s.anthropic_api_key is None,
            s.theme@ == "system"@,
            s.auto_analyze,
    {
        AppSettings { anthropic_api_key: None, theme: "system".to_owned(), auto_analyze: true }
    }
}

/// Where a setting is written.
#[derive(Debug, Clone, Copy, PartialEq, Eq, Structural)]
pub enum SettingRoute {
    /// The secret is kept in the credential store.
    StoreSecret,
    /// The secret is removed from the credential store.
    DeleteSecret,
    /// The setting is kept as a row of the settings table.
    StoreRow,
}

/// The setting of this name is a secret.
pub open spec fn is_secret(key: Seq<char>) -> bool {
    key == "anthropic_api_key"@
}

/// Where a setting goes: a secret to the credential store, where an empty
/// value removes it; anything else to the settings table.
pub open spec fn route_of(key: Seq<char>, value: Seq<char>) -> SettingRoute {
    if is_secret(key) {
        if value.len() == 0 {
            SettingRoute::DeleteSecret
        } else {
            SettingRoute::StoreSecret
        }
    } else {
        SettingRoute::StoreRow
    }
}

/// Whether the setting of this name is kept in the credential store.
pub fn is_secret_key(key: &str) -> (r: bool)
    ensures
        r == is_secret(key@),
{
    str_eq(key, "anthropic_api_key")
}

/// Where a setting is written.
pub fn setting_route(key: &str, value: &str) -> (route: SettingRoute)
    ensures
        route == route_of(key@, value@),
{
    if is_secret_key(key) {
        if value.is_empty() {
            SettingRoute::DeleteSecret
        } else {
            SettingRoute::StoreSecret
        }
    } else {
        SettingRoute::StoreRow
    }
}

/// Whether a key that is still stored in plain text is to be moved to the
/// credential store: only where it is not empty.
pub fn wants_migration(plaintext_key: &str) -> (r: bool)
    ensures
        r == (plaintext_key@.len() > 0),
{
    !plaintext_key.is_empty()
}

/// Takes one stored row into the settings: the theme as it is, the
/// automatic analysis as on exactly for the value `true`; any other row
/// changes nothing.
pub fn apply_setting(settings: AppSettings, key: &str, value: String) -> (s: AppSettings)
    ensures
        s.anthropic_api_key == settings.anthropic_api_key,
        s.theme == if key@ == "theme"@ {
            value
        } else {
            settings.theme
        },
        s.auto_analyze == if key@ == "theme"@ {
            settings.auto_analyze
        } else if key@ == "auto_analyze"@ {
            value@ == "true"@
        } else {
            settings.auto_analyze
        },
{
    if str_eq(key, "theme") {
        AppSettings {
            anthropic_api_key: settings.anthropic_api_key,
            theme: value,
            auto_analyze: settings.auto_analyze,
        }
    } else if str_eq(key, "auto_analyze") {
        AppSettings {
            anthropic_api_key: settings.anthropic_api_key,
            theme: settings.theme,
            auto_analyze: str_eq(value.as_str(), "true"),
        }
    } else {
        settings
    }
}

} // verus!
