//! The settings kept in the configuration file.
use vstd::prelude::*;
use vstd::string::*;

verus! {

/// The name the program goes by.
pub open spec fn app_name() -> Seq<char> {
    "tyde"@
}

/// Settings of the program itself.
#[derive(Debug)]
pub struct AppConfig {
    pub name: String,
}

impl Default for AppConfig {
    /// The program's own name.
    fn default() -> (r: AppConfig)
        ensures
            r.name@ == app_name(),
    {
        AppConfig { name: String::from_str("tyde") }
    }
}

/// The content of the configuration file.
#[derive(Debug)]
pub struct ConfigData {
    pub app: AppConfig,
}

impl Default for ConfigData {
    /// The settings written to a new configuration file.
    fn default() -> (r: ConfigData)
        ensures
            r.app.name@ == app_name(),
    {
        ConfigData { app: AppConfig::default() }
    }
}

} // verus!
