//! `remove`: removing a dependency from the manifest.

use vstd::prelude::*;
use crate::manifest::{Manifest, dependency_views, lists_dependency, without_dependency};

verus! {

/// Removes the dependency `name` from the manifest, if it is listed, and tells whether it
/// was. The caller then removes the package from the lock file when it was.
pub fn execute(manifest: &mut Manifest, name: &str) -> (r: bool)
    ensures
        r == lists_dependency(dependency_views(old(manifest).dependencies@), name@),
        final(manifest).package == old(manifest).package,
        r ==> dependency_views(final(manifest).dependencies@) == without_dependency(
            dependency_views(old(manifest).dependencies@),
            name@,
        ),
        !r ==> final(manifest).dependencies@ == old(manifest).dependencies@,
{
    if !manifest.has_dependency(name) {
        return false;
    }
    manifest.remove_dependency(name);
    true
}

} // verus!
