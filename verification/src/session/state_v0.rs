//! The session lifecycle state as the oldest schema stored it.

use vstd::prelude::*;

verus! {

/// Ghost image of [`StateV0`].
pub enum StateV0Spec {
    Stopped,
    Working { driver: Seq<char> },
    WaitingForNext { next: Option<Seq<char>>, is_break: bool },
}

/// The oldest lifecycle state: like the current one, but a finished turn also
/// recorded whether the pause was a scheduled break. Migration folds both
/// forms into the current `WaitingForNext`.
#[derive(Clone, Debug)]
pub enum StateV0 {
    Stopped,
    Working { driver: String },
    WaitingForNext { next: Option<String>, is_break: bool },
}

impl View for StateV0 {
    type V = StateV0Spec;

    open spec fn view(&self) -> StateV0Spec {
        match self {
            StateV0::Stopped => StateV0Spec::Stopped,
            StateV0::Working { driver } => StateV0Spec::Working { driver: driver@ },
            StateV0::WaitingForNext { next, is_break } => StateV0Spec::WaitingForNext {
                next: match next {
                    Some(n) => Some(n@),
                    None => None,
                },
                is_break: *is_break,
            },
        }
    }
}

} // verus!
