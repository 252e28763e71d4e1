//! The application configuration: where the brain directory lives and how
//! it is stored. Loading a configuration file is the caller's business; the
//! values live here.

use vstd::prelude::*;
use crate::errors::ExtractError;

verus! {

/// The application configuration.
#[derive(Debug, PartialEq)]
pub struct Config {
    /// The path the configuration was loaded from, once known.
    pub config_path: Option<String>,
    pub directory: Directory,
}

/// Settings of the storage directory.
#[derive(Debug, PartialEq)]
pub struct Directory {
    pub compressed: bool,
    pub path: String,
}

impl Config {
    /// Records the path the configuration was loaded from.
    pub fn add_config_path(&mut self, s: &str) -> (r: Result<(), ExtractError>)
        ensures
            r is Ok,
            final(self).config_path matches Some(cp) && cp@ == s@,
            final(self).directory == old(self).directory,
    {
        self.config_path = Some(s.to_owned());
        Ok(())
    }
}

impl Default for Config {
    /// The stock configuration: `Bot.toml` beside the program, an
    /// uncompressed brain under `./brain/`.
    fn default() -> (r: Self)
        ensures
            r.config_path matches Some(cp) && cp@ == "Bot.toml"@,
            r.directory.compressed == false,
            r.directory.path@ == "./brain/"@,
    {
        Config {
            config_path: Some("Bot.toml".to_owned()),
            directory: Directory { compressed: false, path: "./brain/".to_owned() },
        }
    }
}

} // verus!
