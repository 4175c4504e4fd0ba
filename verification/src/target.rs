use vstd::prelude::*;

use crate::project::Project;

verus! {

/// One logical transfer: which bucket, which object key inside it, and
/// which local file. The key is a slash-delimited virtual path and is
/// never empty.
#[derive(Debug)]
pub struct TransferTarget {
    pub bucket_name: String,
    pub object_key: String,
    pub local_path: String,
}

impl TransferTarget {
    /// The target's invariant: the object key is never empty.
    pub open spec fn wf(&self) -> bool {
        self.object_key@.len() > 0
    }

    /// A target for one transfer; the object key must not be empty.
    pub fn new(bucket_name: String, object_key: String, local_path: String) -> (t: TransferTarget)
        requires
            object_key@.len() > 0,
        ensures
            t.wf(),
            t.bucket_name@ == bucket_name@,
            t.object_key@ == object_key@,
            t.local_path@ == local_path@,
    {
        TransferTarget { bucket_name, object_key, local_path }
    }
}

/// The shell's navigation state: which project the console currently works
/// on. Listing directories and testing paths is the shell's own business;
/// the selection itself travels with this record.
#[derive(Debug)]
pub struct Router {
    pub current_project: Project,
}

/// The user the shell acts for, as the system names them.
#[derive(Debug)]
pub struct User {
    name: String,
}

impl User {
    /// A user with the given system name.
    pub fn new(name: String) -> (u: User)
        ensures
            u.name() == name@,
    {
        User { name }
    }

    /// The user's system name.
    pub closed spec fn name(&self) -> Seq<char> {
        self.name@
    }

    /// The user's system name, for display.
    pub fn user_name(&self) -> (r: String)
        ensures
            r@ == self.name(),
    {
        self.name.clone()
    }
}

} // verus!
