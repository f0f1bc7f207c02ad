//! `build`: building the project.

use vstd::prelude::*;
use crate::lockfile::{LockedPackage, Lockfile, without_package};
use crate::text::{join_path, path_join, str_eq, string_views};

verus! {

/// The build profile: `release` or `debug`.
pub fn profile(release: bool) -> (r: &'static str)
    ensures
        r@ == (if release { "release"@ } else { "debug"@ }),
{
    if release { "release" } else { "debug" }
}

/// The build directory of a profile: `.cake/build/<profile>`.
pub fn build_dir(release: bool) -> (r: String)
    ensures
        r@ == path_join(path_join(".cake"@, "build"@), if release { "release"@ } else { "debug"@ }),
{
    let base = join_path(".cake", "build");
    join_path(base.as_str(), profile(release))
}

/// The names of the packages of the lock file other than the project's own, in order: the
/// libraries the project links against.
pub fn link_dependencies(lockfile: &Lockfile, root: &str) -> (r: Vec<String>)
    ensures
        string_views(r@) == without_package(lockfile.package@, root@).map_values(|p: LockedPackage| p.name@),
{
    let ghost pkgs = lockfile.package@;
    let ghost keep = crate::lockfile::not_named(root@);
    let n = lockfile.package.len();
    let mut r: Vec<String> = Vec::new();
    let mut i: usize = 0;
    while i < n
        invariant
            n == pkgs.len(),
            pkgs == lockfile.package@,
            keep == crate::lockfile::not_named(root@),
            i <= n,
            string_views(r@) == pkgs.take(i as int).filter(keep).map_values(|p: LockedPackage| p.name@),
        decreases n - i,
    {
        let ghost before = pkgs.take(i as int).filter(keep);
        let ghost r0 = r@;
        proof {
            assert(pkgs.take(i + 1) =~= pkgs.take(i as int).push(pkgs[i as int]));
            crate::seqs::lemma_filter_push(pkgs.take(i as int), pkgs[i as int], keep);
        }
        let p = &lockfile.package[i];
        if !str_eq(p.name.as_str(), root) {
            r.push(p.name.clone());
            proof {
                assert(string_views(r@) =~= string_views(r0).push(p.name@));
                assert(before.push(*p).map_values(|p: LockedPackage| p.name@) =~= before.map_values(
                    |p: LockedPackage| p.name@,
                ).push(p.name@));
            }
        }
        i = i + 1;
    }
    assert(pkgs.take(n as int) =~= pkgs);
    r
}

} // verus!
