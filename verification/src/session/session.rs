//! The session record under the current schema, its migration from the oldest
//! schema, and the typed lifecycle transitions.

use vstd::prelude::*;
use super::branches::{Branches, BranchesSpec};
use super::drivers::Drivers;
use super::session_v0::{SessionV0, SessionV0Spec};
use super::settings::{Settings, SettingsSpec};
use super::state::{State, StateSpec};
use super::state_v0::StateV0Spec;
use super::state_v0::StateV0;

verus! {

/// Ghost image of [`Session`].
pub struct SessionSpec {
    pub drivers: Seq<Seq<char>>,
    pub branches: BranchesSpec,
    pub settings: Option<SettingsSpec>,
    pub state: StateSpec,
}

/// The whole coordination record: rotation, branches, optional settings, and
/// the lifecycle state. Mutated only by replacing the record as a whole.
#[derive(Clone, Debug)]
pub struct Session {
    pub drivers: Drivers,
    pub branches: Branches,
    pub settings: Option<Settings>,
    pub state: State,
}

impl View for Session {
    type V = SessionSpec;

    open spec fn view(&self) -> SessionSpec {
        SessionSpec {
            drivers: self.drivers@,
            branches: self.branches@,
            settings: match &self.settings {
                Some(s) => Some(s@),
                None => None,
            },
            state: self.state@,
        }
    }
}

/// The fresh record used when nothing was ever stored: stopped, nobody in the
/// rotation, default branch names, no settings.
pub open spec fn default_session_spec() -> SessionSpec {
    SessionSpec {
        drivers: Seq::empty(),
        branches: BranchesSpec { branch: "mob-session"@, base_branch: "main"@ },
        settings: None,
        state: StateSpec::Stopped,
    }
}

/// The one deterministic mapping from the oldest schema to the current one:
/// every field both schemas share is kept; the last-break timestamp, the
/// break and lunch settings, and the `is_break` flag are dropped by decision.
pub open spec fn migrate_v0_spec(v: SessionV0Spec) -> SessionSpec {
    SessionSpec {
        drivers: v.drivers,
        branches: v.branches,
        settings: match v.settings {
            Some(s) => Some(
                SettingsSpec { commit_message: s.commit_message, work_duration: s.work_duration },
            ),
            None => None,
        },
        state: match v.state {
            StateV0Spec::Stopped => StateSpec::Stopped,
            StateV0Spec::Working { driver } => StateSpec::Working { driver },
            StateV0Spec::WaitingForNext { next, is_break: _ } => StateSpec::WaitingForNext { next },
        },
    }
}

/// Whose turn the record points at: the working driver, or the expected next
/// driver, or nobody.
pub open spec fn get_driver_spec(s: SessionSpec) -> Option<Seq<char>> {
    match s.state {
        StateSpec::Stopped => None,
        StateSpec::Working { driver } => Some(driver),
        StateSpec::WaitingForNext { next } => next,
    }
}

/// An externally triggered change of lifecycle state.
#[derive(Clone, Debug)]
pub enum Event {
    /// Someone takes the turn.
    Start { driver: String },
    /// The current driver finishes a turn; `next` names who should follow.
    Next { next: Option<String> },
    /// The session ends.
    Done,
}

/// Ghost image of [`Event`].
pub enum EventSpec {
    Start { driver: Seq<char> },
    Next { next: Option<Seq<char>> },
    Done,
}

impl View for Event {
    type V = EventSpec;

    open spec fn view(&self) -> EventSpec {
        match self {
            Event::Start { driver } => EventSpec::Start { driver: driver@ },
            Event::Next { next } => EventSpec::Next {
                next: match next {
                    Some(n) => Some(n@),
                    None => None,
                },
            },
            Event::Done => EventSpec::Done,
        }
    }
}

/// The lifecycle state machine: the state a valid (state, event) pair steps
/// to, and `None` for every other pair.
pub open spec fn step_spec(state: StateSpec, event: EventSpec) -> Option<StateSpec> {
    match (state, event) {
        (StateSpec::Stopped, EventSpec::Start { driver }) => Some(StateSpec::Working { driver }),
        (StateSpec::WaitingForNext { .. }, EventSpec::Start { driver }) => Some(
            StateSpec::Working { driver },
        ),
        (StateSpec::Working { .. }, EventSpec::Next { next }) => Some(
            StateSpec::WaitingForNext { next },
        ),
        (StateSpec::Working { .. }, EventSpec::Done) => Some(StateSpec::Stopped),
        (StateSpec::WaitingForNext { .. }, EventSpec::Done) => Some(StateSpec::Stopped),
        _ => None,
    }
}

/// An invalid (state, event) pair was asked for; the record is unchanged.
#[derive(Clone, Debug)]
pub struct InvalidTransition {}

impl Session {
    pub fn get_driver(&self) -> (r: Option<String>)
        ensures
            r.deep_view() == get_driver_spec(self@),
    {
        match &self.state {
            State::Working { driver } => Some(driver.clone()),
            State::WaitingForNext { next } => match next {
                Some(n) => Some(n.clone()),
                None => None,
            },
            State::Stopped => None,
        }
    }

    /// The record with the session ended: the state set to `Stopped`,
    /// everything else kept.
    pub fn finish(self) -> (r: Session)
        ensures
            r@.state is Stopped,
            r@.drivers == self@.drivers,
            r@.branches == self@.branches,
            r@.settings == self@.settings,
    {
        Session { state: State::Stopped, ..self }
    }

    /// A fresh record with the same view, built field by field.
    pub fn duplicate(&self) -> (r: Session)
        ensures
            r@ == self@,
    {
        Session {
            drivers: self.drivers.duplicate(),
            branches: self.branches.duplicate(),
            settings: match &self.settings {
                Some(s) => Some(s.duplicate()),
                None => None,
            },
            state: self.state.duplicate(),
        }
    }

    /// Steps the lifecycle state by `event`. Only the transitions the state
    /// machine allows go through; every other pair is a typed error, and the
    /// record comes back unchanged.
    pub fn next(self, event: Event) -> (r: Result<Session, InvalidTransition>)
        ensures
            match r {
                Ok(s) => {
                    &&& step_spec(self@.state, event@) == Some(s@.state)
                    &&& s@.drivers == self@.drivers
                    &&& s@.branches == self@.branches
                    &&& s@.settings == self@.settings
                },
                Err(_) => step_spec(self@.state, event@) is None,
            },
    {
        let valid = match (&self.state, &event) {
            (State::Stopped, Event::Start { .. }) => true,
            (State::WaitingForNext { .. }, Event::Start { .. }) => true,
            (State::Working { .. }, Event::Next { .. }) => true,
            (State::Working { .. }, Event::Done) => true,
            (State::WaitingForNext { .. }, Event::Done) => true,
            _ => false,
        };
        if !valid {
            return Err(InvalidTransition {});
        }
        let state = match event {
            Event::Start { driver } => State::Working { driver },
            Event::Next { next } => State::WaitingForNext { next },
            Event::Done => State::Stopped,
        };
        Ok(Session { state, ..self })
    }

    /// The commit message used for synchronization commits: the configured
    /// one, or the default message while no settings were ever configured.
    pub fn commit_message(&self) -> (r: String)
        ensures
            match self@.settings {
                Some(st) => r@ == st.commit_message,
                None => r@ == "mob sync [skip ci]"@,
            },
    {
        match &self.settings {
            Some(s) => s.commit_message.clone(),
            None => Settings::default().commit_message,
        }
    }

    /// Migration from the oldest schema: total over every `SessionV0` value.
    pub fn from_v0(v0: SessionV0) -> (r: Session)
        ensures
            r@ == migrate_v0_spec(v0@),
    {
        Session {
            drivers: v0.drivers,
            branches: v0.branches,
            settings: match v0.settings {
                Some(s) => Some(
                    Settings { commit_message: s.commit_message, work_duration: s.work_duration },
                ),
                None => None,
            },
            state: match v0.state {
                StateV0::Stopped => State::Stopped,
                StateV0::Working { driver } => State::Working { driver },
                StateV0::WaitingForNext { next, is_break: _ } => State::WaitingForNext { next },
            },
        }
    }
}

impl Default for Session {
    fn default() -> (r: Session)
        ensures
            r@ == default_session_spec(),
    {
        let r = Session {
            drivers: Drivers::empty(),
            branches: Branches::default(),
            settings: None,
            state: State::Stopped,
        };
        proof {
            assert(r@.drivers =~= default_session_spec().drivers);
        }
        r
    }
}

} // verus!
