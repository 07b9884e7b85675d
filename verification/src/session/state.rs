//! The session lifecycle state under the current schema.

use vstd::prelude::*;

verus! {

/// Ghost image of [`State`].
pub enum StateSpec {
    Stopped,
    Working { driver: Seq<char> },
    WaitingForNext { next: Option<Seq<char>> },
}

/// Exactly one of: no session, a driver holding the turn, or a finished turn
/// waiting for `next` (or anyone, when `next` is `None`) to take over.
#[derive(Clone, Debug)]
pub enum State {
    Stopped,
    Working { driver: String },
    WaitingForNext { next: Option<String> },
}

impl State {
    /// A fresh state with the same view.
    pub fn duplicate(&self) -> (r: State)
        ensures
            r@ == self@,
    {
        match self {
            State::Stopped => State::Stopped,
            State::Working { driver } => State::Working { driver: driver.clone() },
            State::WaitingForNext { next } => State::WaitingForNext {
                next: match next {
                    Some(n) => Some(n.clone()),
                    None => None,
                },
            },
        }
    }
}

impl View for State {
    type V = StateSpec;

    open spec fn view(&self) -> StateSpec {
        match self {
            State::Stopped => StateSpec::Stopped,
            State::Working { driver } => StateSpec::Working { driver: driver@ },
            State::WaitingForNext { next } => StateSpec::WaitingForNext {
                next: match next {
                    Some(n) => Some(n@),
                    None => None,
                },
            },
        }
    }
}

} // verus!
