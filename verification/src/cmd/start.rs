//! Taking a turn: join the rotation right after whoever drove last, become
//! the working driver, and record it.

use vstd::prelude::*;
use crate::config::Config;
use crate::git::Git;
use crate::session::branches::Branches;
use crate::session::drivers::{
    lemma_insert_member, rotation_insert, rotation_next,
};
use crate::session::session::get_driver_spec;
use crate::session::session_store::{backend_error, Error, Store};
use crate::session::settings::Settings;
use crate::session::state::StateSpec;
use crate::session::{Session, State};
use crate::text::str_eq;

verus! {

/// Command-line choices for starting a turn.
#[derive(Clone, Debug)]
pub struct StartOpts {
    /// How long this work session should last, in minutes.
    pub minutes: Option<i64>,
}

/// What the lifecycle state allows; prompting is the caller's part.
#[derive(Clone, Debug)]
pub enum StartDecision {
    /// No session yet: set one up and start it.
    StartNew,
    /// It is already this participant's turn.
    AlreadyDriving,
    /// The named driver has not finished; retrying or taking the turn over
    /// risks their work.
    AskRetryOrTake(String),
    /// Free to start.
    Begin,
    /// The named member is expected next; a member of the rotation may take
    /// the turn over instead.
    AskTakeOver(String),
}

/// Which way a start may proceed from the loaded session.
pub fn start_decision(session: &Session, me: &str) -> (r: StartDecision)
    ensures
        match session@.state {
            StateSpec::Stopped => r is StartNew,
            StateSpec::Working { driver } => if driver == me@ {
                r is AlreadyDriving
            } else {
                r matches StartDecision::AskRetryOrTake(d) && d@ == driver
            },
            StateSpec::WaitingForNext { next } => match next {
                None => r is Begin,
                Some(n) => if n == me@ {
                    r is Begin
                } else if session@.drivers.contains(me@) {
                    r matches StartDecision::AskTakeOver(d) && d@ == n
                } else {
                    r is Begin
                },
            },
        },
{
    match &session.state {
        State::Stopped => StartDecision::StartNew,
        State::Working { driver } => {
            if str_eq(driver.as_str(), me) {
                StartDecision::AlreadyDriving
            } else {
                StartDecision::AskRetryOrTake(driver.clone())
            }
        },
        State::WaitingForNext { next } => match next {
            None => StartDecision::Begin,
            Some(n) => {
                if str_eq(n.as_str(), me) {
                    StartDecision::Begin
                } else if session.drivers.contains(me) {
                    StartDecision::AskTakeOver(n.clone())
                } else {
                    StartDecision::Begin
                }
            },
        },
    }
}

/// The session after `me` takes the turn: `me` joins the rotation right
/// after whoever was driving (or expected next), and holds the turn. The
/// second component is who the rotation expects after `me`.
pub fn take_turn(session: Session, me: &str) -> (r: (Session, Option<String>))
    ensures
        r.0@.state == (StateSpec::Working { driver: me@ }),
        r.0@.drivers == rotation_insert(session@.drivers, get_driver_spec(session@), me@),
        r.0@.branches == session@.branches,
        r.0@.settings == session@.settings,
        r.1.deep_view() == rotation_next(
            rotation_insert(session@.drivers, get_driver_spec(session@), me@),
            me@,
        ),
{
    let previous = session.get_driver();
    let drivers = session.drivers;
    let drivers = drivers.insert(previous, me);
    proof {
        lemma_insert_member(session@.drivers, get_driver_spec(session@), me@);
    }
    let next = drivers.next(me);
    let s = Session {
        state: State::Working { driver: crate::text::str_owned(me) },
        drivers,
        branches: session.branches,
        settings: session.settings,
    };
    (s, next)
}

/// The session after `me` takes a turn over from `from`, removing `from`
/// from the rotation: the record then waits for `me` to start.
pub fn remove_and_expect(session: Session, from: &str, me: &str) -> (r: Session)
    requires
        session@.drivers.contains(from@),
    ensures
        r@.drivers == crate::session::drivers::rotation_remove(session@.drivers, from@),
        r@.state == (StateSpec::WaitingForNext { next: Some(me@) }),
        r@.branches == session@.branches,
        r@.settings == session@.settings,
{
    let drivers = session.drivers;
    let drivers = drivers.remove(from);
    Session {
        drivers,
        state: State::WaitingForNext { next: Some(crate::text::str_owned(me)) },
        branches: session.branches,
        settings: session.settings,
    }
}

pub struct Start<'a, G: Git, S: Store> {
    pub git: &'a G,
    pub store: &'a S,
    pub opts: StartOpts,
    pub config: Config,
}

impl<'a, G: Git, S: Store> Start<'a, G, S> {
    pub fn new(git: &'a G, store: &'a S, opts: StartOpts, config: Config) -> (r: Start<
        'a,
        G,
        S,
    >)
        ensures
            r.config == config,
            r.opts == opts,
    {
        Start { git, store, opts, config }
    }

    /// How long the coming turn should last: the command-line override, the
    /// configured work duration, or the default.
    pub fn minutes(&self, session: &Session) -> (r: i64)
        ensures
            r as int == (match self.opts.minutes {
                Some(m) => m as int,
                None => match session@.settings {
                    Some(st) => st.work_duration,
                    None => 10,
                },
            }),
    {
        match self.opts.minutes {
            Some(m) => m,
            None => match &session.settings {
                Some(st) => st.work_duration,
                None => 10,
            },
        }
    }

    /// Starts this participant's turn on an already-running session: switch
    /// onto the session branch, take the turn, save. Returns who is expected
    /// next and how many minutes the turn should last.
    pub fn start(&self, session: Session) -> (r: Result<(Option<String>, i64), Error>)
        ensures
            match r {
                Ok((nd, minutes)) => {
                    &&& nd.deep_view() == rotation_next(
                        rotation_insert(
                            session@.drivers,
                            get_driver_spec(session@),
                            self.config.name@,
                        ),
                        self.config.name@,
                    )
                    &&& minutes as int == (match self.opts.minutes {
                        Some(m) => m as int,
                        None => match session@.settings {
                            Some(st) => st.work_duration,
                            None => 10,
                        },
                    })
                },
                Err(_) => true,
            },
    {
        if let Err(m) = self.git.run(&["fetch", "--all", "--prune"]) {
            return Err(backend_error(m));
        }
        let remote_branches = session.branches.with_remote(self.config.remote.as_str());
        if let Err(m) = self.git.run(
            &[
                "switch",
                "--force-create",
                session.branches.branch.as_str(),
                remote_branches.branch.as_str(),
            ],
        ) {
            return Err(backend_error(m));
        }
        let minutes = self.minutes(&session);
        let (next_session, next_driver) = take_turn(session, self.config.name.as_str());
        match self.store.save(next_session) {
            Ok(()) => Ok((next_driver, minutes)),
            Err(e) => Err(e),
        }
    }

    /// Starts the first turn of a fresh session, once the caller has asked
    /// for settings and branches and prepared the branches in the working
    /// copy. Saves the record and returns who is expected next and the
    /// turn's length.
    pub fn start_new(&self, session: Session, settings: Settings, branches: Branches) -> (r:
        Result<(Option<String>, i64), Error>)
        ensures
            match r {
                Ok((nd, minutes)) => {
                    &&& nd.deep_view() == rotation_next(
                        rotation_insert(
                            session@.drivers,
                            get_driver_spec(session@),
                            self.config.name@,
                        ),
                        self.config.name@,
                    )
                    &&& minutes as int == (match self.opts.minutes {
                        Some(m) => m as int,
                        None => settings@.work_duration,
                    })
                },
                Err(_) => true,
            },
    {
        let with_config = Session {
            settings: Some(settings),
            branches,
            drivers: session.drivers,
            state: session.state,
        };
        let minutes = self.minutes(&with_config);
        let ghost pre = with_config@;
        let (next_session, next_driver) = take_turn(with_config, self.config.name.as_str());
        proof {
            assert(pre.drivers == session@.drivers);
            assert(get_driver_spec(pre) == get_driver_spec(session@));
        }
        match self.store.save(next_session) {
            Ok(()) => Ok((next_driver, minutes)),
            Err(e) => Err(e),
        }
    }
}

} // verus!
