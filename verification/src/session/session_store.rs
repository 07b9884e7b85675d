//! The persistence facade: decodes and encodes the versioned envelope,
//! delegates the raw record to the commit-log collaborator, and maps its
//! failure modes into store-level outcomes.

use vstd::prelude::*;
use crate::git::store as git_store;
use super::codec::{
    decode_session, decode_spec, encode_session, encode_spec, DecodeError, DecodedSpec,
};
use super::session::{default_session_spec, Session};

verus! {

/// How loading or saving the session record can fail.
#[derive(Clone, Debug)]
pub enum Error {
    /// The collaborator failed; a conflict on save means another writer won.
    Git(git_store::Error),
    /// Bytes exist but parse under no known schema; the record must be
    /// discarded and recreated.
    Format,
    /// The record comes from a schema newer than this build knows.
    NewerVersion(String),
}

/// The store the coordination commands talk to.
pub trait Store {
    fn load(&self) -> Result<Session, Error>;

    fn save(&self, session: Session) -> Result<(), Error>;

    fn clean(&self) -> Result<(), Error>;
}

/// Reads a record's text into a session, every outcome pinned to the text:
/// a session exactly when the layered probe yields one, otherwise the
/// matching error.
pub fn get_session(data: &str) -> (r: Result<Session, Error>)
    ensures
        match r {
            Ok(s) => decode_spec(data@) == DecodedSpec::Sess(s@),
            Err(Error::Format) => decode_spec(data@) == DecodedSpec::Fmt,
            Err(Error::NewerVersion(tag)) => decode_spec(data@) == DecodedSpec::Newer(tag@),
            Err(Error::Git(_)) => false,
        },
{
    match decode_session(data) {
        Ok(s) => Ok(s),
        Err(DecodeError::Format) => Err(Error::Format),
        Err(DecodeError::NewerVersion(tag)) => Err(Error::NewerVersion(tag)),
    }
}

/// What a load means once the collaborator has answered: a missing record is
/// the fresh default session, present bytes go through the layered probe,
/// and any other collaborator failure is surfaced as such.
pub fn load_outcome(fetched: Result<String, git_store::Error>) -> (r: Result<Session, Error>)
    ensures
        match fetched {
            Ok(data) => match r {
                Ok(s) => decode_spec(data@) == DecodedSpec::Sess(s@),
                Err(Error::Format) => decode_spec(data@) == DecodedSpec::Fmt,
                Err(Error::NewerVersion(tag)) => decode_spec(data@) == DecodedSpec::Newer(tag@),
                Err(Error::Git(_)) => false,
            },
            Err(git_store::Error::Missing) => match r {
                Ok(s) => s@ == default_session_spec(),
                Err(_) => false,
            },
            Err(e) => r == Result::<Session, Error>::Err(Error::Git(e)),
        },
{
    match fetched {
        Ok(data) => get_session(data.as_str()),
        Err(git_store::Error::Missing) => Ok(Session::default()),
        Err(e) => Err(Error::Git(e)),
    }
}

/// What a save means once the collaborator has answered: success passes
/// through, and every rejection — a conflict above all — is surfaced
/// unchanged, never swallowed.
pub fn save_outcome(written: Result<(), git_store::Error>) -> (r: Result<(), Error>)
    ensures
        match written {
            Ok(()) => r is Ok,
            Err(e) => r == Result::<(), Error>::Err(Error::Git(e)),
        },
{
    match written {
        Ok(()) => Ok(()),
        Err(e) => Err(Error::Git(e)),
    }
}

/// What a clean means once the collaborator has answered: success passes
/// through, a failure is surfaced as the collaborator's.
pub fn clean_outcome(removed: Result<(), git_store::Error>) -> (r: Result<(), Error>)
    ensures
        match removed {
            Ok(()) => r is Ok,
            Err(e) => r == Result::<(), Error>::Err(Error::Git(e)),
        },
{
    match removed {
        Ok(()) => Ok(()),
        Err(e) => Err(Error::Git(e)),
    }
}

/// A collaborator failure carrying the collaborator's own words.
pub fn backend_error(message: String) -> (r: Error)
    ensures
        r matches Error::Git(git_store::Error::Unknown(m)) && m@ == message@,
{
    Error::Git(git_store::Error::Unknown(message))
}

/// The persistence facade over a commit-log collaborator.
pub struct SessionStore<'a, S: git_store::Store> {
    store: &'a S,
}

impl<'a, S: git_store::Store> SessionStore<'a, S> {
    pub fn new(store: &'a S) -> (r: SessionStore<'a, S>) {
        SessionStore { store }
    }
}

impl<'a, S: git_store::Store> Store for SessionStore<'a, S> {
    /// Fetches the latest record and reads it; a never-written record is the
    /// default session, not an error.
    fn load(&self) -> Result<Session, Error> {
        load_outcome(self.store.load())
    }

    /// Writes the session under the current schema version. When another
    /// writer already advanced the record, the collaborator rejects the
    /// write and the conflict is surfaced to the caller, who may re-load,
    /// reapply, and save again.
    fn save(&self, session: Session) -> Result<(), Error> {
        let text = encode_session(&session);
        proof {
            assert(text@ == encode_spec(session@));
        }
        save_outcome(self.store.save(text.as_str()))
    }

    /// Removes the record and its coordination branch.
    fn clean(&self) -> Result<(), Error> {
        clean_outcome(self.store.clean())
    }
}

} // verus!
