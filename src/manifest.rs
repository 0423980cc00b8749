//! The project manifest: name, version, declared dependency ranges, scripts.

use vstd::prelude::*;
use crate::deps::{inserted, removed, Dependencies};
use crate::text::owned;

verus! {

/// A project's declared metadata.
pub struct Manifest {
    pub name: String,
    pub version: String,
    pub description: Option<String>,
    pub author: Option<String>,
    pub dependencies: Dependencies,
    pub dev_dependencies: Dependencies,
    pub scripts: Dependencies,
}

impl Manifest {
    /// Every table has unique keys.
    pub open spec fn wf(&self) -> bool {
        self.dependencies.wf() && self.dev_dependencies.wf() && self.scripts.wf()
    }

    /// The manifest of a project without one: every field empty.
    pub fn empty() -> (r: Self)
        ensures
            r.wf(),
            r.name@.len() == 0,
            r.version@.len() == 0,
            r.description is None,
            r.author is None,
            r.dependencies@.len() == 0,
            r.dev_dependencies@.len() == 0,
            r.scripts@.len() == 0,
    {
        Manifest {
            name: String::new(),
            version: String::new(),
            description: None,
            author: None,
            dependencies: Dependencies::new(),
            dev_dependencies: Dependencies::new(),
            scripts: Dependencies::new(),
        }
    }
}

/// A fresh manifest for a project called `name`, at version `0.1.0`.
pub fn init(name: &str) -> (r: Manifest)
    ensures
        r.wf(),
        r.name@ == name@,
        r.version@ == "0.1.0"@,
        r.description matches Some(d) && d@ == "Package created with a package manager"@,
        r.author is None,
        r.dependencies@.len() == 0,
        r.dev_dependencies@.len() == 0,
        r.scripts@.len() == 0,
{
    Manifest {
        name: owned(name),
        version: owned("0.1.0"),
        description: Some(owned("Package created with a package manager")),
        author: None,
        dependencies: Dependencies::new(),
        dev_dependencies: Dependencies::new(),
        scripts: Dependencies::new(),
    }
}

/// Declares `pkg` with requirement `version`, among the development
/// dependencies when `is_dev` holds, otherwise among the dependencies.
pub fn add_dependency(manifest: &mut Manifest, pkg: &str, version: &str, is_dev: bool)
    requires
        old(manifest).wf(),
    ensures
        final(manifest).wf(),
        final(manifest).name == old(manifest).name,
        final(manifest).version == old(manifest).version,
        final(manifest).description == old(manifest).description,
        final(manifest).author == old(manifest).author,
        final(manifest).scripts@ == old(manifest).scripts@,
        is_dev ==> final(manifest).dev_dependencies@ == inserted(
            old(manifest).dev_dependencies@,
            pkg@,
            version@,
        ) && final(manifest).dependencies@ == old(manifest).dependencies@,
        !is_dev ==> final(manifest).dependencies@ == inserted(
            old(manifest).dependencies@,
            pkg@,
            version@,
        ) && final(manifest).dev_dependencies@ == old(manifest).dev_dependencies@,
{
    if is_dev {
        manifest.dev_dependencies.insert(pkg, version);
    } else {
        manifest.dependencies.insert(pkg, version);
    }
}

/// Drops `pkg` from the development dependencies when `is_dev` holds,
/// otherwise from the dependencies.
pub fn remove_dependency(manifest: &mut Manifest, pkg: &str, is_dev: bool)
    requires
        old(manifest).wf(),
    ensures
        final(manifest).wf(),
        final(manifest).name == old(manifest).name,
        final(manifest).version == old(manifest).version,
        final(manifest).description == old(manifest).description,
        final(manifest).author == old(manifest).author,
        final(manifest).scripts@ == old(manifest).scripts@,
        is_dev ==> final(manifest).dev_dependencies@ == removed(old(manifest).dev_dependencies@, pkg@)
            && final(manifest).dependencies@ == old(manifest).dependencies@,
        !is_dev ==> final(manifest).dependencies@ == removed(old(manifest).dependencies@, pkg@)
            && final(manifest).dev_dependencies@ == old(manifest).dev_dependencies@,
{
    if is_dev {
        manifest.dev_dependencies.remove(pkg);
    } else {
        manifest.dependencies.remove(pkg);
    }
}

} // verus!
