//! The two branch names a session works with: the integration ("base") branch
//! and the working ("session") branch.

use vstd::prelude::*;
use vstd::string::StringExecFns;

verus! {

/// Ghost image of [`Branches`].
pub struct BranchesSpec {
    pub branch: Seq<char>,
    pub base_branch: Seq<char>,
}

#[derive(Clone, Debug)]
pub struct Branches {
    pub branch: String,
    pub base_branch: String,
}

impl View for Branches {
    type V = BranchesSpec;

    open spec fn view(&self) -> BranchesSpec {
        BranchesSpec { branch: self.branch@, base_branch: self.base_branch@ }
    }
}

/// `remote/name`, the remote-qualified form of a branch name.
pub open spec fn with_remote_spec(remote: Seq<char>, name: Seq<char>) -> Seq<char> {
    remote + seq!['/'] + name
}

fn qualify(remote: &str, name: &str) -> (r: String)
    ensures
        r@ == with_remote_spec(remote@, name@),
{
    let mut r = String::from_str(remote);
    r.append("/");
    r.append(name);
    proof {
        reveal_strlit("/");
        assert(r@ =~= with_remote_spec(remote@, name@));
    }
    r
}

impl Branches {
    /// A fresh pair with the same view.
    pub fn duplicate(&self) -> (r: Branches)
        ensures
            r@ == self@,
    {
        Branches { branch: self.branch.clone(), base_branch: self.base_branch.clone() }
    }

    /// Both branch names qualified with `remote`.
    pub fn with_remote(&self, remote: &str) -> (r: Branches)
        ensures
            r@.branch == with_remote_spec(remote@, self@.branch),
            r@.base_branch == with_remote_spec(remote@, self@.base_branch),
    {
        Branches {
            branch: qualify(remote, self.branch.as_str()),
            base_branch: qualify(remote, self.base_branch.as_str()),
        }
    }
}

impl Default for Branches {
    fn default() -> (r: Branches)
        ensures
            r@.branch == "mob-session"@,
            r@.base_branch == "main"@,
    {
        Branches {
            branch: String::from_str("mob-session"),
            base_branch: String::from_str("main"),
        }
    }
}

} // verus!
