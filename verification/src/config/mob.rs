//! Repository-local configuration, as stored beside the working copy.

use vstd::prelude::*;
use crate::session::branches::with_remote_spec;
use vstd::string::StringExecFns;

verus! {

/// The repository's own coordination parameters.
#[derive(Clone, Debug)]
pub struct Config {
    pub break_duration: i64,
    pub lunch_start: String,
    pub mob_branch: String,
    pub base_branch: String,
    pub remote: String,
}

fn joined(remote: &str, name: &str) -> (r: String)
    ensures
        r@ == with_remote_spec(remote@, name@),
{
    let mut r = String::from_str(remote);
    r.append("/");
    r.append(name);
    proof {
        reveal_strlit("/");
        assert(r@ =~= with_remote_spec(remote@, name@));
    }
    r
}

impl Config {
    /// The session branch as the remote names it.
    pub fn remote_mob_branch(&self) -> (r: String)
        ensures
            r@ == with_remote_spec(self.remote@, self.mob_branch@),
    {
        joined(self.remote.as_str(), self.mob_branch.as_str())
    }

    /// The base branch as the remote names it.
    pub fn remote_base_branch(&self) -> (r: String)
        ensures
            r@ == with_remote_spec(self.remote@, self.base_branch@),
    {
        joined(self.remote.as_str(), self.base_branch.as_str())
    }
}

} // verus!
