//! Fetching the dependencies of a project into `.cake/packages`.

use vstd::prelude::*;
use vstd::string::StringExecFns;
use crate::error::CakeError;
use crate::lockfile::{LockedPackage, Lockfile};
use crate::text::{join_path, path_join, str_eq};

verus! {

/// Where the dependencies are checked out, relative to the project.
pub const PACKAGE_DIR: &'static str = ".cake/packages";

/// The directory of the checked-out dependency `name`.
pub fn package_path(name: &str) -> (r: String)
    ensures
        r@ == path_join(PACKAGE_DIR@, name@),
{
    join_path(PACKAGE_DIR, name)
}

/// The include directory of the checked-out dependency `name`.
pub fn include_dir(name: &str) -> (r: String)
    ensures
        r@ == path_join(path_join(PACKAGE_DIR@, name@), "include"@),
{
    let p = package_path(name);
    join_path(p.as_str(), "include")
}

/// The positions of the packages to prepare: every package of the lock file except the root
/// package, which is built in place.
pub open spec fn prepared_positions(packages: Seq<LockedPackage>, root: Seq<char>) -> Seq<usize> {
    lock_positions(packages.len()).filter(not_the_root(packages, root))
}

/// The positions `0, 1, ..., n - 1` of a lock file of `n` packages.
pub open spec fn lock_positions(n: nat) -> Seq<usize> {
    Seq::new(n, |i: int| i as usize)
}

/// Holds of the positions whose package is not named `root`.
pub open spec fn not_the_root(packages: Seq<LockedPackage>, root: Seq<char>) -> spec_fn(usize) -> bool {
    |i: usize| packages[i as int].name@ != root
}

/// The positions, in the lock file, of the packages other than `root`, in order.
pub fn packages_to_prepare(lockfile: &Lockfile, root: &str) -> (r: Vec<usize>)
    ensures
        r@ == prepared_positions(lockfile.package@, root@),
{
    let ghost pkgs = lockfile.package@;
    let ghost all = lock_positions(pkgs.len());
    let ghost keep = not_the_root(pkgs, root@);
    let n = lockfile.package.len();
    let mut r: Vec<usize> = Vec::new();
    let mut i: usize = 0;
    while i < n
        invariant
            n == pkgs.len(),
            pkgs == lockfile.package@,
            all == lock_positions(pkgs.len()),
            keep == not_the_root(pkgs, root@),
            i <= n,
            r@ == all.take(i as int).filter(keep),
        decreases n - i,
    {
        proof {
            assert(all.take(i + 1) =~= all.take(i as int).push(i));
            crate::seqs::lemma_filter_push(all.take(i as int), i, keep);
        }
        if !str_eq(lockfile.package[i].name.as_str(), root) {
            r.push(i);
        }
        i = i + 1;
    }
    assert(all.take(n as int) =~= all);
    r
}

/// The positions kept from the first `m` positions, in order: strictly increasing and
/// each below `m`.
proof fn lemma_positions_increasing(packages: Seq<LockedPackage>, root: Seq<char>, m: int)
    requires
        0 <= m <= packages.len() <= usize::MAX,
    ensures
        ({
            let f = lock_positions(packages.len()).take(m).filter(not_the_root(packages, root));
            &&& forall|k: int| 0 <= k < f.len() ==> (f[k] as int) < m
            &&& forall|k: int, l: int| 0 <= k < l < f.len() ==> f[k] < f[l]
        }),
    decreases m,
{
    let all = lock_positions(packages.len());
    let keep = not_the_root(packages, root);
    if m == 0 {
        assert(all.take(0).filter(keep) =~= Seq::<usize>::empty()) by {
            assert(all.take(0) =~= Seq::<usize>::empty());
            reveal_with_fuel(Seq::<_>::filter, 1);
        }
    } else {
        lemma_positions_increasing(packages, root, m - 1);
        assert(all.take(m) =~= all.take(m - 1).push((m - 1) as usize));
        crate::seqs::lemma_filter_push(all.take(m - 1), (m - 1) as usize, keep);
    }
}

/// The packages prepared for a build are exactly the packages of the lock file other than
/// the root: a position is in the result if and only if the package there is not named
/// `root`; the positions come in increasing order, each once, and each stands in the lock
/// file.
pub proof fn law_prepared_positions_skip_only_the_root(packages: Seq<LockedPackage>, root: Seq<char>)
    requires
        packages.len() <= usize::MAX,
    ensures
        forall|i: int|
            0 <= i < packages.len() ==> (prepared_positions(packages, root).contains(i as usize)
                <==> packages[i].name@ != root),
        forall|k: int|
            0 <= k < prepared_positions(packages, root).len() ==> (prepared_positions(packages, root)[k] as int)
                < packages.len(),
        forall|k: int, l: int|
            0 <= k < l < prepared_positions(packages, root).len() ==> prepared_positions(packages, root)[k]
                < prepared_positions(packages, root)[l],
{
    let all = lock_positions(packages.len());
    let keep = not_the_root(packages, root);
    let f = prepared_positions(packages, root);
    lemma_positions_increasing(packages, root, packages.len() as int);
    assert(all.take(packages.len() as int) =~= all);
    assert forall|i: int| 0 <= i < packages.len() implies (f.contains(i as usize) <==> packages[i].name@ != root) by {
        assert(all[i] == i as usize);
        if packages[i].name@ != root {
            crate::seqs::lemma_filter_keeps(all, keep, i);
        }
        if f.contains(i as usize) {
            let k = choose|k: int| 0 <= k < f.len() && f[k] == i as usize;
            crate::seqs::lemma_filter_member(all, keep, k);
        }
    }
}

/// The tag that names a version: `v` and the version.
pub fn version_tag(version: &str) -> (r: String)
    ensures
        r@ == "v"@ + version@,
{
    let mut s = String::from_str("v");
    s.append(version);
    s
}

/// A step of fetching a dependency.
#[derive(Debug, PartialEq, Eq)]
pub enum CloneStep {
    /// `git clone` of the repository.
    Clone,
    /// `git checkout v<version>`.
    CheckoutTag,
    /// `git checkout <version>`.
    CheckoutVersion,
}

/// What to do after a step of fetching a dependency.
#[derive(Debug, PartialEq, Eq)]
pub enum CloneAction {
    /// Run this step next.
    Run(CloneStep),
    /// The dependency is checked out at its version.
    Done,
    /// Fetching failed.
    Fail(CakeError),
}

/// The next action once `step` has run, given whether it succeeded: a failed clone fails;
/// after it the tag `v<version>` is tried, then the bare version, and if neither can be
/// checked out, the version is not found.
pub fn after_clone_step(step: CloneStep, succeeded: bool, repository: &str, version: &str) -> (r: CloneAction)
    ensures
        step == CloneStep::Clone && succeeded ==> r == CloneAction::Run(CloneStep::CheckoutTag),
        step == CloneStep::Clone && !succeeded ==> (r matches CloneAction::Fail(CakeError::CloneFailed(s)) && s@ == repository@),
        step == CloneStep::CheckoutTag && succeeded ==> r == CloneAction::Done,
        step == CloneStep::CheckoutTag && !succeeded ==> r == CloneAction::Run(CloneStep::CheckoutVersion),
        step == CloneStep::CheckoutVersion && succeeded ==> r == CloneAction::Done,
        step == CloneStep::CheckoutVersion && !succeeded ==> (r matches CloneAction::Fail(CakeError::VersionNotFound(s)) && s@ == version@),
{
    match step {
        CloneStep::Clone => if succeeded {
            CloneAction::Run(CloneStep::CheckoutTag)
        } else {
            CloneAction::Fail(CakeError::CloneFailed(String::from_str(repository)))
        },
        CloneStep::CheckoutTag => if succeeded {
            CloneAction::Done
        } else {
            CloneAction::Run(CloneStep::CheckoutVersion)
        },
        CloneStep::CheckoutVersion => if succeeded {
            CloneAction::Done
        } else {
            CloneAction::Fail(CakeError::VersionNotFound(String::from_str(version)))
        },
    }
}

} // verus!
