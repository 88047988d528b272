//! The terminal's configuration record.
use vstd::prelude::*;
use std::collections::HashMap;

verus! {

/// A user profile.
#[derive(Debug)]
pub struct Profile {
    pub name: String,
    pub active: bool,
}

/// The default chain, RPC endpoints by chain, and the user's profiles.
#[derive(Debug)]
pub struct Config {
    pub default_chain: String,
    pub rpc_endpoints: HashMap<String, String>,
    pub profiles: Vec<Profile>,
}

impl Default for Config {
    fn default() -> (r: Config)
        ensures
            r.default_chain@.len() == 0,
            r.rpc_endpoints@ == Map::<String, String>::empty(),
            r.profiles@.len() == 0,
    {
        Config { default_chain: String::new(), rpc_endpoints: HashMap::new(), profiles: Vec::new() }
    }
}

impl Config {
    /// The configuration in effect: nothing is read from disk yet, so it is
    /// the empty default.
    pub fn load() -> (r: Config)
        ensures
            r.default_chain@.len() == 0,
            r.rpc_endpoints@ == Map::<String, String>::empty(),
            r.profiles@.len() == 0,
    {
        Config::default()
    }
}

} // verus!
