//! The lockfile: the concrete version each dependency resolved to.

use vstd::prelude::*;
use crate::deps::{inserted, removed, Dependencies};

verus! {

/// Resolved versions by package name.
pub struct Lockfile {
    pub dependencies: Dependencies,
}

impl Lockfile {
    /// A lockfile with no entry, as when none exists yet.
    pub fn new() -> (r: Self)
        ensures
            r.dependencies.wf(),
            r.dependencies@.len() == 0,
    {
        Lockfile { dependencies: Dependencies::new() }
    }
}

/// Records that `pkg` resolved to `version`.
pub fn add_dependency(lock: &mut Lockfile, pkg: &str, version: &str)
    requires
        old(lock).dependencies.wf(),
    ensures
        final(lock).dependencies.wf(),
        final(lock).dependencies@ == inserted(old(lock).dependencies@, pkg@, version@),
{
    lock.dependencies.insert(pkg, version);
}

/// Forgets the resolved version of `pkg`.
pub fn remove_dependency(lock: &mut Lockfile, pkg: &str)
    requires
        old(lock).dependencies.wf(),
    ensures
        final(lock).dependencies.wf(),
        final(lock).dependencies@ == removed(old(lock).dependencies@, pkg@),
{
    lock.dependencies.remove(pkg);
}

/// The resolved versions, by package name.
pub fn read_dependencies(lock: &Lockfile) -> (r: Dependencies)
    requires
        lock.dependencies.wf(),
    ensures
        r.wf(),
        r@ == lock.dependencies@,
{
    lock.dependencies.copy()
}

} // verus!
