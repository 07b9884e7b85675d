//! The commit-log collaborator: a branch-addressed record exchanged through
//! a shared remote, with push rejection as the only conflict signal.

use vstd::prelude::*;

verus! {

/// How the collaborator can fail.
#[derive(Clone, Debug)]
pub enum Error {
    /// The medium itself failed; the message is surfaced verbatim.
    Unknown(String),
    /// A concurrent writer advanced the record past what this writer last
    /// observed; the write was rejected, nothing was overwritten.
    Conflict,
    /// No record was ever written under the coordination key.
    Missing,
}

/// The byte store the session record lives in. Reading always fetches the
/// most recent remote copy first; writing is accepted only when no other
/// writer advanced the record in between; cleaning removes the record and
/// its coordination branch. All of it happens outside the library.
pub trait Store {
    fn load(&self) -> Result<String, Error>;

    fn save(&self, data: &str) -> Result<(), Error>;

    fn clean(&self) -> Result<(), Error>;
}

} // verus!
