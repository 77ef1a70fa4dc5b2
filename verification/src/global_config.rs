//! The user-wide configuration: whether update checks run.
use vstd::prelude::*;

verus! {

/// The `[updates]` section.
#[derive(Debug)]
pub struct UpdatesConfig {
    pub enabled: bool,
}

impl Default for UpdatesConfig {
    fn default() -> (r: UpdatesConfig)
        ensures
            r.enabled,
    {
        UpdatesConfig { enabled: true }
    }
}

/// The user-wide configuration.
#[derive(Debug)]
pub struct GlobalPeasConfig {
    pub updates: UpdatesConfig,
}

impl Default for GlobalPeasConfig {
    fn default() -> (r: GlobalPeasConfig)
        ensures
            r.updates.enabled,
    {
        GlobalPeasConfig { updates: UpdatesConfig::default() }
    }
}

/// The boolean a TOML document sets at `[section] key`, if it parses and
/// sets one there.
pub uninterp spec fn spec_toml_bool(content: Seq<char>, section: Seq<char>, key: Seq<char>) -> Option<bool>;

/// `toml::from_str::<toml::Table>` and a lookup of `[section] key` as a
/// boolean. Trusted: the result is named by `spec_toml_bool`.
#[verifier::external_body]
fn toml_bool(content: &str, section: &str, key: &str) -> (r: Option<bool>)
    ensures
        r == spec_toml_bool(content@, section@, key@),
{
    let table: toml::Table = toml::from_str(content).ok()?;
    table.get(section)?.get(key)?.as_bool()
}

impl GlobalPeasConfig {
    /// Reads the configuration from TOML text; anything that does not set
    /// `[updates] enabled = false` leaves update checks on, as the defaults
    /// do for text that does not parse.
    pub fn parse(content: &str) -> (r: GlobalPeasConfig)
        ensures
            r.updates.enabled == (spec_toml_bool(content@, "updates"@, "enabled"@) != Some(false)),
    {
        GlobalPeasConfig::from_setting(toml_bool(content, "updates", "enabled"))
    }

    /// The configuration from the value `[updates] enabled` is set to, if
    /// any: update checks stay on unless it is `false`.
    pub fn from_setting(enabled: Option<bool>) -> (r: GlobalPeasConfig)
        ensures
            r.updates.enabled == (enabled != Some(false)),
    {
        let on = match enabled {
            Some(b) => b,
            None => true,
        };
        GlobalPeasConfig { updates: UpdatesConfig { enabled: on } }
    }
}

} // verus!
