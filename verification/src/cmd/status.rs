//! Showing where the session stands.

use vstd::prelude::*;
use crate::config::Config;
use crate::session::session::get_driver_spec;
use crate::session::session_store::Store;
use crate::session::Session;

verus! {

/// Command-line choices for showing status.
#[derive(Clone, Debug)]
pub struct StatusOpts {
    /// Show the raw record instead of the friendly summary.
    pub raw: bool,
}

pub struct Status<'a, S: Store> {
    pub store: &'a S,
    pub config: Config,
    pub opts: StatusOpts,
}

impl<'a, S: Store> Status<'a, S> {
    pub fn new(opts: StatusOpts, store: &'a S, config: Config) -> (r: Status<'a, S>)
        ensures
            r.config == config,
            r.opts == opts,
    {
        Status { opts, store, config }
    }

    /// The store this command reads from.
    pub fn store(&self) -> (r: &'a S) {
        self.store
    }

    /// Whose name the summary should point at in the driver list.
    pub fn current_driver(&self, session: &Session) -> (r: Option<String>)
        ensures
            r.deep_view() == get_driver_spec(session@),
    {
        session.get_driver()
    }
}

} // verus!
