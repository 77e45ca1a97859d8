//! Scenario configuration: the YAML document's shape, borrowed from the
//! buffer it was read from.

use vstd::prelude::*;

verus! {

/// One HTTP step inside a scenario (e.g. "POST /login", "GET /dashboard").
/// All string fields point into the configuration buffer.
#[derive(Debug)]
pub struct Step<'a> {
    /// HTTP method: "GET", "POST", etc.
    pub method: &'a str,
    /// Full URL to request.
    pub url: &'a str,
    /// Optional JSON body as a raw string.
    pub body: Option<&'a str>,
    /// Optional list of "Key: Value" header strings.
    pub headers: Vec<&'a str>,
}

/// A named scenario: a sequence of steps that each virtual user replays.
#[derive(Debug)]
pub struct Scenario<'a> {
    pub name: &'a str,
    pub steps: Vec<Step<'a>>,
}

/// Top-level configuration: all scenarios.
#[derive(Debug)]
pub struct Config<'a> {
    pub scenarios: Vec<Scenario<'a>>,
}

/// Why a parsed configuration cannot drive a load test.
#[derive(Debug, PartialEq, Eq, Structural)]
pub enum ConfigError {
    /// The document holds no scenario at all.
    NoScenarios,
}

/// A configuration is usable when it names at least one scenario.
pub fn check_config(config: &Config) -> (r: Result<(), ConfigError>)
    ensures
        r is Ok <==> config.scenarios@.len() > 0,
        r is Err ==> r == Err::<(), ConfigError>(ConfigError::NoScenarios),
{
    if config.scenarios.len() == 0 {
        Err(ConfigError::NoScenarios)
    } else {
        Ok(())
    }
}

} // verus!
