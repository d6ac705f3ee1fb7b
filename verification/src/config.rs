//! The user's configuration: one recognised option, the speech rate.

use crate::sound::DEFAULT_RATE_WPM;
use vstd::prelude::*;

verus! {

/// The integer that the TOML text `contents` holds under `key` at its top
/// level; `None` when the text is no valid TOML, has no such key, or holds
/// something other than an integer there.
pub uninterp spec fn toml_integer(contents: Seq<char>, key: Seq<char>) -> Option<i64>;

/// Parses `contents` with `toml::Value::from_str`, looks `key` up with
/// `toml::Value::get` and reads the entry as `toml::Value::as_integer` does.
/// Trusted: the result is the integer named by `toml_integer`.
#[verifier::external_body]
fn integer_entry(contents: &str, key: &str) -> (entry: Option<i64>)
    ensures
        entry == toml_integer(contents@, key@),
{
    match contents.parse::<toml::Value>() {
        Ok(config) => match config.get(key) {
            Some(toml::Value::Integer(value)) => Some(*value),
            _ => None,
        },
        Err(_) => None,
    }
}

/// The speech rate for a configured entry: the entry if there is one, the
/// default otherwise.
pub open spec fn rate_for(entry: Option<i64>) -> i64 {
    match entry {
        Some(rate) => rate,
        None => DEFAULT_RATE_WPM,
    }
}

/// The speech rate that a configuration file asks for: `contents` is the
/// text of the file, `None` when there is no file.
pub open spec fn configured_rate(contents: Option<Seq<char>>) -> i64 {
    match contents {
        Some(text) => rate_for(toml_integer(text, "rate_wpm"@)),
        None => DEFAULT_RATE_WPM,
    }
}

/// The speech rate for a configured entry.
pub fn rate_or_default(entry: Option<i64>) -> (rate: i64)
    ensures
        rate == rate_for(entry),
{
    match entry {
        Some(rate) => rate,
        None => DEFAULT_RATE_WPM,
    }
}

/// The settings read from the user's configuration file.
pub struct ConfigManager {
    rate_wpm: Option<i64>,
}

impl ConfigManager {
    /// The configured speech rate, if the file names one.
    pub closed spec fn entry(&self) -> Option<i64> {
        self.rate_wpm
    }

    /// The settings that the text of a configuration file gives; `None`
    /// stands for a missing file. A file that cannot be read as TOML, or
    /// that names no integer rate, configures nothing.
    pub fn new(contents: Option<&str>) -> (config: ConfigManager)
        ensures
            rate_for(config.entry()) == configured_rate(
                match contents {
                    Some(text) => Some(text@),
                    None => None,
                },
            ),
    {
        match contents {
            Some(text) => ConfigManager { rate_wpm: integer_entry(text, "rate_wpm") },
            None => ConfigManager { rate_wpm: None },
        }
    }

    /// The speech rate in words per minute: the configured one, or the
    /// default.
    pub fn get_rate_wpm(&self) -> (rate: i64)
        ensures
            rate == rate_for(self.entry()),
    {
        rate_or_default(self.rate_wpm)
    }
}

} // verus!
