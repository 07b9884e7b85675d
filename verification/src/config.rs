//! Process-level configuration: who this participant is, which remote the
//! session synchronizes through, and the optional command hooks.

pub mod mob;

use vstd::prelude::*;
use vstd::string::StringExecFns;

verus! {

/// Commands run around the lifecycle steps; each is optional.
#[derive(Clone, Debug)]
pub struct Hooks {
    pub before_start: Option<String>,
    pub after_start: Option<String>,
    pub after_timer: Option<String>,
    pub before_next: Option<String>,
    pub after_next: Option<String>,
    pub before_done: Option<String>,
    pub after_done: Option<String>,
}

impl Hooks {
    /// Hooks with only the after-timer command set.
    pub fn new(after_timer: Option<String>) -> (r: Hooks)
        ensures
            r.after_timer == after_timer,
            r.before_start is None,
            r.after_start is None,
            r.before_next is None,
            r.after_next is None,
            r.before_done is None,
            r.after_done is None,
    {
        Hooks {
            before_start: None,
            after_start: None,
            after_timer,
            before_next: None,
            after_next: None,
            before_done: None,
            after_done: None,
        }
    }
}

/// The participant's configuration.
#[derive(Clone, Debug)]
pub struct Config {
    pub name: String,
    pub remote: String,
    pub hooks: Hooks,
}

impl Default for Config {
    fn default() -> (r: Config)
        ensures
            r.name@ == Seq::<char>::empty(),
            r.remote@ == "origin"@,
    {
        Config { name: String::new(), remote: String::from_str("origin"), hooks: Hooks::new(None) }
    }
}

} // verus!
