//! The oldest settings schema, kept so historical records stay readable.

use vstd::prelude::*;

verus! {

/// Ghost image of [`SettingsV0`].
pub struct SettingsV0Spec {
    pub commit_message: Seq<char>,
    pub work_duration: int,
    pub break_duration: int,
    pub break_interval: int,
    pub lunch_start: Seq<char>,
    pub lunch_end: Seq<char>,
}

/// Settings as the oldest schema stored them, break and lunch parameters
/// included. Migration keeps the fields the current schema still has and
/// drops the rest.
#[derive(Clone, Debug)]
pub struct SettingsV0 {
    pub commit_message: String,
    pub work_duration: i64,
    pub break_duration: i64,
    pub break_interval: i64,
    pub lunch_start: String,
    pub lunch_end: String,
}

impl View for SettingsV0 {
    type V = SettingsV0Spec;

    open spec fn view(&self) -> SettingsV0Spec {
        SettingsV0Spec {
            commit_message: self.commit_message@,
            work_duration: self.work_duration as int,
            break_duration: self.break_duration as int,
            break_interval: self.break_interval as int,
            lunch_start: self.lunch_start@,
            lunch_end: self.lunch_end@,
        }
    }
}

} // verus!
