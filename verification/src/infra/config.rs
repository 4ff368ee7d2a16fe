use vstd::prelude::*;
use crate::config::Config;
use crate::domain::config::ConfigManager;

verus! {

/// Holds the settings that the program loaded at start.
pub struct ConfigManagerImpl {
    config: Config,
}

impl ConfigManagerImpl {
    pub closed spec fn spec_config(&self) -> Config {
        self.config
    }

    pub fn new(config: Config) -> (r: Self)
        ensures
            r.spec_config() == config,
    {
        ConfigManagerImpl { config }
    }
}

impl ConfigManager for ConfigManagerImpl {
    /// A copy of the settings it holds, the same at every call.
    fn get_config(&self) -> (r: Config)
        ensures
            r == self.spec_config(),
    {
        self.config.duplicate()
    }
}

} // verus!
