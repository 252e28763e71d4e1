//! The in-memory store of raw messages awaiting digestion, and the running
//! application state around it.

use vstd::prelude::*;
use vstd::string::*;
use crate::config::Config;
use crate::email::Email;
use crate::errors::ExtractError;

verus! {

/// The messages read from the storage directory, in the order found.
#[derive(Debug)]
pub struct Brain {
    pub emails: Vec<Email>,
}

impl Brain {
    /// An empty brain.
    pub fn new() -> (r: Self)
        ensures
            r.emails@.len() == 0,
    {
        Brain { emails: Vec::new() }
    }
}

/// The running application state: the configuration and the brain. The
/// caller fills the brain with the messages it reads from storage.
#[derive(Debug)]
pub struct Context {
    pub config: Config,
    pub brain: Brain,
}

impl Context {
    /// Takes ownership of a fresh configuration; the brain starts empty.
    pub fn initialize(config: Config) -> (r: Result<Context, ExtractError>)
        ensures
            r matches Ok(c) && c.config == config && c.brain.emails@.len() == 0,
    {
        Ok(Context { config, brain: Brain::new() })
    }

    /// The path of the history directory: `hx` under the configured storage
    /// directory.
    pub fn hx_path(&self) -> (r: String)
        ensures
            r@ == hx_path_spec(self.config.directory.path@),
    {
        let p = self.config.directory.path.as_str();
        let n = p.unicode_len();
        let mut r = self.config.directory.path.clone();
        if n > 0 && p.get_char(n - 1) == '/' {
            r.append("hx");
        } else {
            r.append("/hx");
        }
        r
    }
}

/// The configured storage path with `hx` joined onto it, adding a separator
/// unless the path already ends in one.
pub open spec fn hx_path_spec(p: Seq<char>) -> Seq<char> {
    if p.len() > 0 && p.last() == '/' {
        p + "hx"@
    } else {
        p + "/hx"@
    }
}

} // verus!
