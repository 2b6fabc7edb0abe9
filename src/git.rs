use vstd::prelude::*;

verus! {

/// The changes between two states of a repository.
pub struct Diff {
    pub deltas: Vec<FileDelta>,
}

/// One piece of a diff, as patch text.
pub struct FileDelta {
    pub value: String,
}

impl FileDelta {
    pub fn from(value: String) -> (r: Self)
        ensures
            r.value == value,
    {
        Self { value }
    }
}

/// Which two states of the repository to compare.
pub enum DiffOptions {
    Branches { from: String, to: String },
}

/// The reference of `branch` as fetched from the `origin` remote.
pub fn remote_branch_ref(branch: &str) -> (r: String)
    ensures
        r@ == "refs/remotes/origin/"@ + branch@,
{
    let mut out = String::from_str("refs/remotes/origin/");
    out.append(branch);
    out
}

} // verus!
