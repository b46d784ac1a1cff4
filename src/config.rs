use vstd::prelude::*;

verus! {

/// One rule: when `regex` newly matches the screen, run `command` through a
/// shell, at most once per `cooldown_ms` milliseconds when that is set.
#[derive(Debug, Clone)]
pub struct Hook {
    pub name: String,
    pub regex: String,
    pub command: String,
    pub cooldown_ms: Option<u64>,
}

/// The hook definitions, in the order in which they are evaluated.
#[derive(Debug)]
pub struct Config {
    pub hooks: Vec<Hook>,
}

impl Config {
    /// The configuration with no hooks: the wrapper only passes bytes through.
    pub fn empty() -> (r: Config)
        ensures
            r.hooks@.len() == 0,
    {
        Config { hooks: Vec::new() }
    }
}

} // verus!
