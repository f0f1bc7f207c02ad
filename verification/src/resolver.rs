//! Resolution of a package and, transitively, its dependencies into the lock file.
//!
//! Resolution alternates fetching manifests from the registry with decisions on what they
//! hold. The decisions stand here as a state machine: `next_request` names the next package
//! to fetch, and `apply_manifest` records what its manifest says. The caller fetches.

use vstd::prelude::*;
use crate::lockfile::{LockedPackage, Lockfile, has_package, with_package};
use crate::manifest::{DependencyView, dependency_views};
use crate::text::{opt_view, str_eq, string_views};

verus! {

/// The `[package]` table of a registry manifest.
#[derive(Debug)]
pub struct CakePackage {
    pub name: String,
    pub version: String,
    pub repository: String,
}

/// A registry manifest: a package and its dependencies, each a name and a version.
#[derive(Debug)]
pub struct CakeManifest {
    pub package: CakePackage,
    pub dependencies: Vec<(String, String)>,
}

/// A package to resolve, with the version asked for, if any.
pub type Request = (String, Option<String>);

/// The characters of a request.
pub open spec fn request_view(r: Request) -> (Seq<char>, Option<Seq<char>>) {
    (r.0@, opt_view(r.1))
}

/// The version to lock: the one asked for, unless none or `latest` was asked for, in which
/// case the registry's.
pub open spec fn spec_resolved_version(requested: Option<Seq<char>>, latest: Seq<char>) -> Seq<char> {
    match requested {
        Some(v) => if v != "latest"@ { v } else { latest },
        None => latest,
    }
}

/// The requests that a manifest's dependencies make, in the order in which they are pushed on
/// the stack of pending requests: the last dependency first, so that the first is resolved first.
pub open spec fn dependency_requests(deps: Seq<DependencyView>) -> Seq<(Seq<char>, Option<Seq<char>>)> {
    Seq::new(deps.len(), |i: int| (deps[deps.len() - 1 - i].0, Some(deps[deps.len() - 1 - i].1)))
}

/// Pops pending requests (the last is on top) until one names a package not yet visited:
/// the stack that remains, and that request, if any.
pub open spec fn next_step(
    visited: Seq<Seq<char>>,
    pending: Seq<(Seq<char>, Option<Seq<char>>)>,
) -> (Seq<(Seq<char>, Option<Seq<char>>)>, Option<(Seq<char>, Option<Seq<char>>)>)
    decreases pending.len(),
{
    if pending.len() == 0 {
        (pending, None)
    } else if visited.contains(pending.last().0) {
        next_step(visited, pending.drop_last())
    } else {
        (pending.drop_last(), Some(pending.last()))
    }
}

/// The request that `next_step` hands out names a package not yet visited, and was pending.
pub proof fn law_next_request_is_unvisited(
    visited: Seq<Seq<char>>,
    pending: Seq<(Seq<char>, Option<Seq<char>>)>,
)
    ensures
        next_step(visited, pending).1 matches Some(r) ==> !visited.contains(r.0) && pending.contains(r),
        next_step(visited, pending).0.len() < pending.len() || pending.len() == 0,
    decreases pending.len(),
{
    if pending.len() > 0 {
        law_next_request_is_unvisited(visited, pending.drop_last());
        if visited.contains(pending.last().0) {
            if next_step(visited, pending.drop_last()).1 is Some {
                let r = next_step(visited, pending).1->0;
                let i = choose|i: int| 0 <= i < pending.drop_last().len() && pending.drop_last()[i] == r;
                assert(pending[i] == r);
            }
        } else {
            assert(pending[pending.len() - 1] == pending.last());
        }
    }
}

/// A package is fetched at most once: once `next_step` has handed out a request, its name is
/// visited, and as the visited names only grow, no later step hands out that name again.
pub proof fn law_fetched_at_most_once(
    visited: Seq<Seq<char>>,
    pending: Seq<(Seq<char>, Option<Seq<char>>)>,
    later_visited: Seq<Seq<char>>,
    later_pending: Seq<(Seq<char>, Option<Seq<char>>)>,
)
    requires
        next_step(visited, pending).1 is Some,
        forall|x: Seq<char>| visited.push((next_step(visited, pending).1->0).0).contains(x) ==> later_visited.contains(x),
    ensures
        next_step(later_visited, later_pending).1 matches Some(r) ==> r.0 != (next_step(visited, pending).1->0).0,
{
    let name = (next_step(visited, pending).1->0).0;
    assert(visited.push(name)[visited.len() as int] == name);
    assert(visited.push(name).contains(name));
    law_next_request_is_unvisited(later_visited, later_pending);
}

/// The decision state of a resolution: the packages already visited, and the stack of
/// requests still to look at.
pub struct Resolver {
    visited: Vec<String>,
    pending: Vec<Request>,
}

impl Resolver {
    /// The names of the packages visited so far, in visiting order.
    pub closed spec fn visited_names(&self) -> Seq<Seq<char>> {
        string_views(self.visited@)
    }

    /// The pending requests; the last is looked at first.
    pub closed spec fn pending_requests(&self) -> Seq<(Seq<char>, Option<Seq<char>>)> {
        self.pending@.map_values(|r: Request| request_view(r))
    }

    /// A resolver that has visited nothing.
    pub fn new() -> (r: Resolver)
        ensures
            r.visited_names().len() == 0,
            r.pending_requests().len() == 0,
    {
        Resolver { visited: Vec::new(), pending: Vec::new() }
    }

    /// Starts the resolution of `name`, at `version` if one is asked for. Packages visited
    /// by earlier resolutions stay visited.
    pub fn start(&mut self, name: &str, version: Option<&str>)
        ensures
            final(self).visited_names() == old(self).visited_names(),
            final(self).pending_requests() == seq![(name@, match version { Some(v) => Some(v@), None => None })],
    {
        let v = match version {
            Some(v) => Some(String::from_str(v)),
            None => None,
        };
        self.pending = Vec::new();
        self.pending.push((String::from_str(name), v));
        assert(self.pending_requests() =~= seq![(name@, match version { Some(v) => Some(v@), None => None })]);
    }

    /// Whether `name` has been visited.
    pub fn visited(&self, name: &str) -> (r: bool)
        ensures
            r == self.visited_names().contains(name@),
    {
        let mut i: usize = 0;
        while i < self.visited.len()
            invariant
                i <= self.visited@.len(),
                forall|j: int| 0 <= j < i ==> (#[trigger] self.visited@[j])@ != name@,
            decreases self.visited@.len() - i,
        {
            if str_eq(self.visited[i].as_str(), name) {
                assert(self.visited_names()[i as int] == name@);
                return true;
            }
            i = i + 1;
        }
        proof {
            if self.visited_names().contains(name@) {
                let j = choose|j: int| 0 <= j < self.visited_names().len() && self.visited_names()[j] == name@;
                assert(self.visited@[j]@ == name@);
            }
        }
        false
    }

    /// The next package to fetch: pending requests for packages already visited are dropped,
    /// and the first other one is handed out and its package marked visited.
    pub fn next_request(&mut self) -> (r: Option<Request>)
        ensures
            ({
                let (rest, next) = next_step(old(self).visited_names(), old(self).pending_requests());
                &&& final(self).pending_requests() == rest
                &&& match r {
                    Some(req) => next == Some(request_view(req)) && final(self).visited_names()
                        == old(self).visited_names().push(req.0@),
                    None => next is None && final(self).visited_names() == old(self).visited_names(),
                }
            }),
        decreases old(self).pending_requests().len(),
    {
        let ghost start_visited = self.visited_names();
        let ghost start_pending = self.pending_requests();
        match self.pending.pop() {
            None => {
                proof {
                    assert(start_pending.len() == 0);
                }
                None
            },
            Some(req) => {
                proof {
                    assert(self.pending_requests() =~= start_pending.drop_last());
                    assert(start_pending.last() == request_view(req));
                }
                if self.visited(req.0.as_str()) {
                    self.next_request()
                } else {
                    let ghost v0 = self.visited@;
                    self.visited.push(req.0.clone());
                    proof {
                        assert(self.visited_names() =~= string_views(v0).push(req.0@));
                    }
                    Some(req)
                }
            },
        }
    }

    /// Records what the manifest of the requested package says: unless the lock file already
    /// holds a package of the requested name, it gets the manifest's package at the resolved
    /// version; the manifest's dependencies become pending, the first on top.
    pub fn apply_manifest(
        &mut self,
        name: &str,
        version: Option<&str>,
        manifest: &CakeManifest,
        lockfile: &mut Lockfile,
    )
        ensures
            final(self).visited_names() == old(self).visited_names(),
            final(self).pending_requests() == old(self).pending_requests() + dependency_requests(
                dependency_views(manifest.dependencies@),
            ),
            final(lockfile).version == old(lockfile).version,
            has_package(old(lockfile).package@, name@) ==> final(lockfile).package@ == old(lockfile).package@,
            !has_package(old(lockfile).package@, name@) ==> ({
                let added = final(lockfile).package@.last();
                &&& final(lockfile).package@ == with_package(old(lockfile).package@, added)
                &&& added.name == manifest.package.name
                &&& added.repository == manifest.package.repository
                &&& added.version@ == spec_resolved_version(
                    match version { Some(v) => Some(v@), None => None },
                    manifest.package.version@,
                )
            }),
    {
        let resolved = resolved_version(version, manifest.package.version.as_str());
        if !lockfile.contains(name) {
            let package = LockedPackage {
                name: manifest.package.name.clone(),
                version: resolved,
                repository: manifest.package.repository.clone(),
            };
            lockfile.add_package(package);
        }
        let ghost p0 = self.pending_requests();
        let deps = &manifest.dependencies;
        let n = deps.len();
        let mut k: usize = n;
        while k > 0
            invariant
                n == deps@.len(),
                k <= n,
                self.visited_names() == old(self).visited_names(),
                self.pending_requests() == p0 + dependency_requests(dependency_views(deps@)).take((n - k) as int),
            decreases k,
        {
            k = k - 1;
            let ghost before = self.pending_requests();
            let dep_name = deps[k].0.clone();
            let dep_version = deps[k].1.clone();
            self.pending.push((dep_name, Some(dep_version)));
            proof {
                assert(self.pending_requests() =~= before.push((deps@[k as int].0@, Some(deps@[k as int].1@))));
                assert(dependency_requests(dependency_views(deps@)).take((n - k) as int) =~= dependency_requests(dependency_views(deps@)).take(
                    (n - k - 1) as int,
                ).push((deps@[k as int].0@, Some(deps@[k as int].1@))));
            }
        }
        assert(dependency_requests(dependency_views(deps@)).take(n as int) =~= dependency_requests(dependency_views(deps@)));
    }
}

/// The version to lock for a request: the one asked for, unless none or `latest` was asked
/// for, in which case `latest`.
pub fn resolved_version(requested: Option<&str>, latest: &str) -> (r: String)
    ensures
        r@ == spec_resolved_version(
            match requested { Some(v) => Some(v@), None => None },
            latest@,
        ),
{
    match requested {
        Some(v) => {
            if !str_eq(v, "latest") {
                String::from_str(v)
            } else {
                String::from_str(latest)
            }
        },
        None => String::from_str(latest),
    }
}

} // verus!
