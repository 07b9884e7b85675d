//! The versioned envelope: a session record tagged with the schema it was
//! written under, and the chain that brings any historical shape up to date.

use vstd::prelude::*;
use super::session::{migrate_v0_spec, Session, SessionSpec};
use super::session_v0::{SessionV0, SessionV0Spec};

verus! {

/// The part of a record read during the version probe: the tag alone,
/// whatever else the record holds.
#[derive(Clone, Debug)]
pub struct Versioned {
    pub version: Option<String>,
}

/// Ghost image of [`VersionedSession`].
pub enum VersionedSessionSpec {
    V0(SessionV0Spec),
    V1(SessionSpec),
}

/// A session record together with the schema version it follows.
#[derive(Clone, Debug)]
pub enum VersionedSession {
    V0(SessionV0),
    V1(Session),
}

impl View for VersionedSession {
    type V = VersionedSessionSpec;

    open spec fn view(&self) -> VersionedSessionSpec {
        match self {
            VersionedSession::V0(s) => VersionedSessionSpec::V0(s@),
            VersionedSession::V1(s) => VersionedSessionSpec::V1(s@),
        }
    }
}

/// Where the migration chain ends: every historical shape mapped forward to
/// the current schema.
pub open spec fn latest_spec(v: VersionedSessionSpec) -> SessionSpec {
    match v {
        VersionedSessionSpec::V0(s0) => migrate_v0_spec(s0),
        VersionedSessionSpec::V1(s) => s,
    }
}

impl VersionedSession {
    /// Runs the migration chain to its end. Total: every envelope value
    /// yields a session under the current schema.
    pub fn latest(self) -> (r: Session)
        ensures
            r@ == latest_spec(self@),
    {
        match self {
            VersionedSession::V0(s0) => Session::from_v0(s0),
            VersionedSession::V1(s) => s,
        }
    }
}

} // verus!
