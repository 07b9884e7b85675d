//! Session-scoped configuration, persisted with the session record.

use vstd::prelude::*;
use vstd::string::StringExecFns;

verus! {

/// Ghost image of [`Settings`].
pub struct SettingsSpec {
    pub commit_message: Seq<char>,
    pub work_duration: int,
}

/// Work-interval settings under the current schema: the commit message used
/// for synchronization commits and the length of a turn in minutes.
#[derive(Clone, Debug)]
pub struct Settings {
    pub commit_message: String,
    pub work_duration: i64,
}

impl View for Settings {
    type V = SettingsSpec;

    open spec fn view(&self) -> SettingsSpec {
        SettingsSpec {
            commit_message: self.commit_message@,
            work_duration: self.work_duration as int,
        }
    }
}

impl Settings {
    /// Fresh settings with the same view.
    pub fn duplicate(&self) -> (r: Settings)
        ensures
            r@ == self@,
    {
        Settings {
            commit_message: self.commit_message.clone(),
            work_duration: self.work_duration,
        }
    }
}

impl Default for Settings {
    fn default() -> (r: Settings)
        ensures
            r@.commit_message == "mob sync [skip ci]"@,
            r@.work_duration == 10,
    {
        Settings { commit_message: String::from_str("mob sync [skip ci]"), work_duration: 10 }
    }
}

} // verus!
