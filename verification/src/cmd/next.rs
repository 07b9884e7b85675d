//! Finishing a turn: commit and push what was done, hand the turn to the
//! next member of the rotation, and record the hand-off.

use vstd::prelude::*;
use crate::config::Config;
use crate::git::Git;
use crate::session::drivers::rotation_next;
use crate::session::session_store::{backend_error, Error, Store};
use crate::session::{Session, State};
use crate::session::state::StateSpec;
use crate::text::str_eq;

verus! {

fn clone_opt_name(o: &Option<String>) -> (r: Option<String>)
    ensures
        r.deep_view() == o.deep_view(),
{
    match o {
        Some(s) => Some(s.clone()),
        None => None,
    }
}

/// What running the command came to; the caller does the telling.
#[derive(Clone, Debug)]
pub enum NextOutcome {
    /// No session is running.
    NoSession,
    /// Somebody else holds the turn.
    NotYourTurn(String),
    /// The turn already ended; waiting for the named member, or anyone.
    Waiting(Option<String>),
    /// The record says this participant drives, but the rotation does not
    /// hold them: a caller invariant was broken upstream.
    NotInRotation,
    /// The turn was handed off to the named member, or to anyone.
    TurnEnded(Option<String>),
}

pub struct Next<'a, G: Git, S: Store> {
    pub git: &'a G,
    pub store: &'a S,
    pub config: Config,
}

impl<'a, G: Git, S: Store> Next<'a, G, S> {
    pub fn new(git: &'a G, store: &'a S, config: Config) -> (r: Next<'a, G, S>)
        ensures
            r.config == config,
    {
        Next { git, store, config }
    }

    /// The hand-off itself: commit and push outstanding work, then step the
    /// record from `Working` to waiting for the rotation's next member.
    pub fn next(&self, session: Session) -> (r: Result<(Session, Option<String>), Error>)
        requires
            session@.drivers.len() >= 2 ==> session@.drivers.contains(self.config.name@),
        ensures
            match r {
                Ok((ns, nd)) => {
                    &&& ns@.state == (StateSpec::WaitingForNext {
                        next: rotation_next(session@.drivers, self.config.name@),
                    })
                    &&& ns@.drivers == session@.drivers
                    &&& ns@.branches == session@.branches
                    &&& ns@.settings == session@.settings
                    &&& nd.deep_view() == rotation_next(session@.drivers, self.config.name@)
                },
                Err(_) => true,
            },
    {
        let clean = match self.git.tree_is_clean() {
            Ok(b) => b,
            Err(m) => {
                return Err(backend_error(m));
            },
        };
        if !clean {
            let message = session.commit_message();
            if let Err(m) = self.git.run(&["add", "--all"]) {
                return Err(backend_error(m));
            }
            if let Err(m) = self.git.run(
                &["commit", "--message", message.as_str(), "--no-verify"],
            ) {
                return Err(backend_error(m));
            }
            if let Err(m) = self.git.run(
                &[
                    "push",
                    "--no-verify",
                    self.config.remote.as_str(),
                    session.branches.branch.as_str(),
                ],
            ) {
                return Err(backend_error(m));
            }
        }
        let nd = session.drivers.next(self.config.name.as_str());
        let nd2 = clone_opt_name(&nd);
        let ns = Session { state: State::WaitingForNext { next: nd2 }, ..session };
        Ok((ns, nd))
    }

    /// What the loaded record leads to, performed: each state maps to its
    /// one outcome, and where it is this participant's turn the hand-off is
    /// carried out and saved.
    pub fn handle(&self, session: Session) -> (r: Result<NextOutcome, Error>)
        ensures
            match r {
                Ok(o) => match session@.state {
                    StateSpec::Stopped => o is NoSession,
                    StateSpec::WaitingForNext { next } => o matches NextOutcome::Waiting(n)
                        && n.deep_view() == next,
                    StateSpec::Working { driver } => if driver != self.config.name@ {
                        o matches NextOutcome::NotYourTurn(d) && d@ == driver
                    } else if session@.drivers.len() >= 2 && !session@.drivers.contains(
                        self.config.name@,
                    ) {
                        o is NotInRotation
                    } else {
                        o matches NextOutcome::TurnEnded(nd) && nd.deep_view() == rotation_next(
                            session@.drivers,
                            self.config.name@,
                        )
                    },
                },
                Err(_) => true,
            },
    {
        let me = self.config.name.as_str();
        match &session.state {
            State::Stopped => Ok(NextOutcome::NoSession),
            State::WaitingForNext { next } => Ok(NextOutcome::Waiting(clone_opt_name(next))),
            State::Working { driver } => {
                if !str_eq(driver.as_str(), me) {
                    return Ok(NextOutcome::NotYourTurn(driver.clone()));
                }
                if session.drivers.len() >= 2 && !session.drivers.contains(me) {
                    return Ok(NextOutcome::NotInRotation);
                }
                let (ns, nd) = match self.next(session) {
                    Ok(p) => p,
                    Err(e) => {
                        return Err(e);
                    },
                };
                match self.store.save(ns) {
                    Ok(()) => Ok(NextOutcome::TurnEnded(nd)),
                    Err(e) => Err(e),
                }
            },
        }
    }

    /// Loads the session and hands it to [`Next::handle`], which carries the
    /// command's whole contract; this is the plumbing around it.
    pub fn run(&self) -> (r: Result<NextOutcome, Error>) {
        match self.store.load() {
            Ok(session) => self.handle(session),
            Err(e) => Err(e),
        }
    }
}

} // verus!
