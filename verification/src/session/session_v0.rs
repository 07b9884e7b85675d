//! The whole session record as the oldest schema stored it.

use vstd::prelude::*;
use super::branches::{Branches, BranchesSpec};
use super::drivers::Drivers;
use super::settings_v0::{SettingsV0, SettingsV0Spec};
use super::state_v0::{StateV0, StateV0Spec};

verus! {

/// Ghost image of [`SessionV0`].
pub struct SessionV0Spec {
    pub last_break: Seq<char>,
    pub drivers: Seq<Seq<char>>,
    pub branches: BranchesSpec,
    pub settings: Option<SettingsV0Spec>,
    pub state: StateV0Spec,
}

/// The oldest session record: today's fields plus the timestamp of the last
/// break, which later schemas dropped. The timestamp is carried as the text
/// the record stored, never interpreted.
#[derive(Clone, Debug)]
pub struct SessionV0 {
    pub last_break: String,
    pub drivers: Drivers,
    pub branches: Branches,
    pub settings: Option<SettingsV0>,
    pub state: StateV0,
}

impl View for SessionV0 {
    type V = SessionV0Spec;

    open spec fn view(&self) -> SessionV0Spec {
        SessionV0Spec {
            last_break: self.last_break@,
            drivers: self.drivers@,
            branches: self.branches@,
            settings: match &self.settings {
                Some(s) => Some(s@),
                None => None,
            },
            state: self.state@,
        }
    }
}

} // verus!
