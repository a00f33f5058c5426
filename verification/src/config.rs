//! The launcher's persisted configuration.

use vstd::prelude::*;

verus! {

/// What the configuration file says.
#[derive(Debug, Clone, PartialEq, Eq)]
pub struct Config {
    /// The modpack to launch without asking: its id, or `vanilla` for the
    /// unmodified game. Absent where the user is to choose.
    pub auto_launch: Option<String>,
}

impl Default for Config {
    fn default() -> (r: Config)
        ensures
            r.auto_launch is None,
    {
        Config { auto_launch: None }
    }
}

/// The configuration to run with: the one that was read, or the default one
/// where reading it failed.
pub fn get_config(loaded: Result<Config, String>) -> (r: Config)
    ensures
        match loaded {
            Ok(config) => r == config,
            Err(_) => r.auto_launch is None,
        },
{
    match loaded {
        Ok(config) => config,
        Err(_) => Config::default(),
    }
}

} // verus!
