use vstd::prelude::*;
use crate::config::Config;

verus! {

/// Gives the settings of the running instance.
pub trait ConfigManager {
    fn get_config(&self) -> Config;
}

/// Has a configuration manager.
pub trait UsesConfigManager {
    type ConfigManager: ConfigManager;

    fn uses_config_manager(&self) -> &Self::ConfigManager;
}

} // verus!
