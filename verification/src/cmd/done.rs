//! Ending the session: land the session branch on the base branch, clean the
//! branches up, and record the stop.

use vstd::prelude::*;
use crate::config::Config;
use crate::git::Git;
use crate::session::session_store::{backend_error, Error, Store};
use crate::session::session::{step_spec, EventSpec};
use crate::session::{Session, State};
use crate::session::state::StateSpec;
use crate::text::str_eq;

verus! {

/// What the lifecycle state allows the command to do; the caller prompts
/// where a prompt is owed.
#[derive(Clone, Debug)]
pub enum DoneDecision {
    /// No session is running.
    NoSession,
    /// Finish right away: the turn is this participant's, or nobody's.
    Finish,
    /// Somebody else is working; finishing needs their consent foregone.
    AskTakeOver(String),
}

/// What finishing the session is allowed to do in each state: finish during
/// one's own turn or while waiting, never silently during another's.
pub fn done_decision(state: &State, me: &str) -> (r: DoneDecision)
    ensures
        match state@ {
            StateSpec::Stopped => r is NoSession,
            StateSpec::Working { driver } => if driver == me@ {
                r is Finish
            } else {
                r matches DoneDecision::AskTakeOver(d) && d@ == driver
            },
            StateSpec::WaitingForNext { .. } => r is Finish,
        },
{
    match state {
        State::Stopped => DoneDecision::NoSession,
        State::Working { driver } => {
            if str_eq(driver.as_str(), me) {
                DoneDecision::Finish
            } else {
                DoneDecision::AskTakeOver(driver.clone())
            }
        },
        State::WaitingForNext { .. } => DoneDecision::Finish,
    }
}

pub struct Done<'a, G: Git, S: Store> {
    pub git: &'a G,
    pub store: &'a S,
    pub config: Config,
}

impl<'a, G: Git, S: Store> Done<'a, G, S> {
    pub fn new(git: &'a G, store: &'a S, config: Config) -> (r: Done<'a, G, S>)
        ensures
            r.config == config,
    {
        Done { git, store, config }
    }

    /// Is the session branch the one checked out?
    pub fn on_branch(&self, branch: &str) -> (r: Result<bool, Error>) {
        match self.git.current_branch() {
            Ok(Some(name)) => Ok(str_eq(name.as_str(), branch)),
            Ok(None) => Ok(false),
            Err(m) => Err(backend_error(m)),
        }
    }

    /// The merge itself: commit outstanding work, push, squash the session
    /// branch onto the base branch, drop the session branch, and record the
    /// session as stopped. `Ok(Some(record))` returns what was saved: the
    /// input with only the state set to `Stopped`. `Ok(None)` means nothing
    /// was done because the tree is dirty away from the session branch.
    /// Finishing must be allowed from the record's state; the caller decides
    /// that with [`done_decision`] first.
    pub fn done(&self, session: Session) -> (r: Result<Option<Session>, Error>)
        requires
            step_spec(session@.state, EventSpec::Done) is Some,
        ensures
            match r {
                Ok(Some(s)) => {
                    &&& s@.state is Stopped
                    &&& s@.drivers == session@.drivers
                    &&& s@.branches == session@.branches
                    &&& s@.settings == session@.settings
                },
                Ok(None) => true,
                Err(_) => true,
            },
    {
        let clean = match self.git.tree_is_clean() {
            Ok(b) => b,
            Err(m) => {
                return Err(backend_error(m));
            },
        };
        if !clean {
            match self.on_branch(session.branches.branch.as_str()) {
                Ok(true) => {},
                Ok(false) => {
                    return Ok(None);
                },
                Err(e) => {
                    return Err(e);
                },
            }
            let message = session.commit_message();
            if let Err(m) = self.git.run(&["add", "--all"]) {
                return Err(backend_error(m));
            }
            if let Err(m) = self.git.run(
                &["commit", "--message", message.as_str(), "--no-verify"],
            ) {
                return Err(backend_error(m));
            }
        }
        let remote_branches = session.branches.with_remote(self.config.remote.as_str());
        if let Err(m) = self.git.run(
            &[
                "push",
                "--no-verify",
                self.config.remote.as_str(),
                session.branches.branch.as_str(),
            ],
        ) {
            return Err(backend_error(m));
        }
        if let Err(m) = self.git.run(&["fetch", "--all", "--prune"]) {
            return Err(backend_error(m));
        }
        if let Err(m) = self.git.run(&["checkout", session.branches.base_branch.as_str()]) {
            return Err(backend_error(m));
        }
        if let Err(m) = self.git.run(
            &["merge", remote_branches.base_branch.as_str(), "--ff-only"],
        ) {
            return Err(backend_error(m));
        }
        if let Err(m) = self.git.run(
            &["merge", "--squash", "--ff", session.branches.branch.as_str()],
        ) {
            return Err(backend_error(m));
        }
        if let Err(m) = self.git.run(&["branch", "-D", session.branches.branch.as_str()]) {
            return Err(backend_error(m));
        }
        if let Err(m) = self.git.run(
            &[
                "push",
                "--no-verify",
                self.config.remote.as_str(),
                "--delete",
                session.branches.branch.as_str(),
            ],
        ) {
            return Err(backend_error(m));
        }
        let stopped = session.finish();
        let receipt = stopped.duplicate();
        match self.store.save(stopped) {
            Ok(()) => Ok(Some(receipt)),
            Err(e) => Err(e),
        }
    }
}

} // verus!
