//! Whole resolutions: what repeating `next_request` and `apply_manifest` until nothing is
//! pending comes to, for a registry that does not change during the resolution.

use vstd::prelude::*;
use crate::lockfile::{LockedPackage, has_package, with_package};
use crate::manifest::DependencyView;
use crate::resolver::{dependency_requests, law_next_request_is_unvisited, next_step};

verus! {

/// A pending request: a package name and the version asked for, if any.
pub type RequestView = (Seq<char>, Option<Seq<char>>);

/// The registry as a resolution sees it: for each package it serves, the dependencies that its
/// manifest lists. Its manifests are assumed to name the package they are served for.
pub type Registry = Map<Seq<char>, Seq<DependencyView>>;

/// Every dependency of every package of the registry is served by the registry too.
pub open spec fn registry_closed(reg: Registry) -> bool {
    forall|n: Seq<char>, i: int| #![trigger reg[n][i]]
        reg.dom().contains(n) && 0 <= i < reg[n].len() ==> reg.dom().contains(reg[n][i].0)
}

/// `b` is a dependency of the registry's package `a`.
pub open spec fn depends(reg: Registry, a: Seq<char>, b: Seq<char>) -> bool {
    reg.dom().contains(a) && exists|i: int| 0 <= i < reg[a].len() && reg[a][i].0 == b
}

/// Every dependency of a name in `names` that the registry serves is in `names` too.
pub open spec fn closed_under_dependencies(reg: Registry, names: Seq<Seq<char>>) -> bool {
    forall|a: Seq<char>, b: Seq<char>| #[trigger] depends(reg, a, b) && names.contains(a) ==> names.contains(b)
}

/// Some pending request names `name`.
pub open spec fn pending_names(pending: Seq<RequestView>, name: Seq<char>) -> bool {
    exists|j: int| 0 <= j < pending.len() && pending[j].0 == name
}

/// The names locked once a package of the requested name has been fetched: unchanged when
/// the name is locked already, the name appended otherwise (what `apply_manifest` does to the
/// names of the lock file, by `law_apply_locks_request`).
pub open spec fn lock_name(locked: Seq<Seq<char>>, name: Seq<char>) -> Seq<Seq<char>> {
    if locked.contains(name) { locked } else { locked.push(name) }
}

/// A resolution run with at most `fuel` fetches: each round, `next_step` hands out the next
/// request; its package is fetched from the registry, marked visited and locked, and its
/// dependencies become pending. The result is the names visited and the names of the lock file,
/// in order, once nothing is pending; nothing when a fetch finds no package or the fuel runs out.
pub open spec fn resolution_run(
    reg: Registry,
    visited: Seq<Seq<char>>,
    pending: Seq<RequestView>,
    locked: Seq<Seq<char>>,
    fuel: nat,
) -> Option<(Seq<Seq<char>>, Seq<Seq<char>>)>
    decreases fuel,
{
    let step = next_step(visited, pending);
    match step.1 {
        None => Some((visited, locked)),
        Some(r) => if fuel == 0 || !reg.dom().contains(r.0) {
            None
        } else {
            resolution_run(
                reg,
                visited.push(r.0),
                step.0 + dependency_requests(reg[r.0]),
                lock_name(locked, r.0),
                (fuel - 1) as nat,
            )
        },
    }
}

/// The names of the packages of a lock file, in order.
pub open spec fn package_names(packages: Seq<LockedPackage>) -> Seq<Seq<char>> {
    packages.map_values(|p: LockedPackage| p.name@)
}

/// What one `apply_manifest` does to the lock file, for a manifest that names the requested
/// package: the lock file before is a prefix of the one after, and its names change as
/// `lock_name` says; in particular a package of that name is locked afterwards.
pub proof fn law_apply_locks_request(
    before: Seq<LockedPackage>,
    after: Seq<LockedPackage>,
    name: Seq<char>,
    added: LockedPackage,
)
    requires
        has_package(before, name) ==> after == before,
        !has_package(before, name) ==> after == with_package(before, added) && added.name@ == name,
    ensures
        after.take(before.len() as int) == before,
        package_names(after) == lock_name(package_names(before), name),
        has_package(after, name),
{
    if has_package(before, name) {
        let i = choose|i: int| 0 <= i < before.len() && (#[trigger] before[i]).name@ == name;
        assert(package_names(before)[i] == name);
        assert(after.take(before.len() as int) =~= before);
    } else {
        crate::lockfile::law_remove_absent_package_is_identity(before, name);
        assert(after =~= before.push(added));
        assert(after.take(before.len() as int) =~= before);
        assert(!package_names(before).contains(name)) by {
            if package_names(before).contains(name) {
                let i = choose|i: int| 0 <= i < package_names(before).len() && package_names(before)[i] == name;
                assert(before[i].name@ == name);
            }
        }
        assert(package_names(after) =~= package_names(before).push(name));
        assert(after[before.len() as int] == added);
    }
}

proof fn lemma_next_step_none(visited: Seq<Seq<char>>, pending: Seq<RequestView>)
    requires
        next_step(visited, pending).1 is None,
    ensures
        forall|j: int| 0 <= j < pending.len() ==> visited.contains(#[trigger] pending[j].0),
    decreases pending.len(),
{
    if pending.len() > 0 {
        lemma_next_step_none(visited, pending.drop_last());
        assert forall|j: int| 0 <= j < pending.len() implies visited.contains(#[trigger] pending[j].0) by {
            if j < pending.len() - 1 {
                assert(pending[j] == pending.drop_last()[j]);
            }
        }
    }
}

proof fn lemma_next_step_some(visited: Seq<Seq<char>>, pending: Seq<RequestView>)
    requires
        next_step(visited, pending).1 is Some,
    ensures
        ({
            let (rest, r) = (next_step(visited, pending).0, next_step(visited, pending).1->0);
            &&& forall|j: int| 0 <= j < rest.len() ==> pending.contains(#[trigger] rest[j])
            &&& forall|j: int| 0 <= j < pending.len() ==>
                rest.contains(#[trigger] pending[j]) || pending[j].0 == r.0 || visited.contains(pending[j].0)
        }),
    decreases pending.len(),
{
    let p0 = pending.drop_last();
    if visited.contains(pending.last().0) {
        lemma_next_step_some(visited, p0);
        let rest = next_step(visited, pending).0;
        assert forall|j: int| 0 <= j < rest.len() implies pending.contains(#[trigger] rest[j]) by {
            let k = choose|k: int| 0 <= k < p0.len() && p0[k] == rest[j];
            assert(pending[k] == p0[k]);
        }
        assert forall|j: int| 0 <= j < pending.len() implies rest.contains(#[trigger] pending[j])
            || pending[j].0 == (next_step(visited, pending).1->0).0 || visited.contains(pending[j].0) by {
            if j < pending.len() - 1 {
                assert(pending[j] == p0[j]);
            }
        }
    } else {
        let rest = p0;
        assert forall|j: int| 0 <= j < rest.len() implies pending.contains(#[trigger] rest[j]) by {
            assert(pending[j] == rest[j]);
        }
        assert forall|j: int| 0 <= j < pending.len() implies rest.contains(#[trigger] pending[j])
            || pending[j].0 == (next_step(visited, pending).1->0).0 || visited.contains(pending[j].0) by {
            if j < pending.len() - 1 {
                assert(pending[j] == rest[j]);
            }
        }
    }
}

proof fn lemma_requests_name_dependencies(deps: Seq<DependencyView>, b: Seq<char>)
    requires
        exists|i: int| 0 <= i < deps.len() && deps[i].0 == b,
    ensures
        pending_names(dependency_requests(deps), b),
{
    let i = choose|i: int| 0 <= i < deps.len() && deps[i].0 == b;
    let q = dependency_requests(deps);
    assert(q[deps.len() - 1 - i].0 == b);
}

/// The invariant of a run from `root`: the root and every dependency of a visited package are
/// visited or pending.
pub open spec fn run_invariant(reg: Registry, root: Seq<char>, visited: Seq<Seq<char>>, pending: Seq<RequestView>) -> bool {
    &&& (visited.contains(root) || pending_names(pending, root))
    &&& forall|a: Seq<char>, b: Seq<char>|
        #[trigger] depends(reg, a, b) && visited.contains(a) ==> visited.contains(b) || pending_names(pending, b)
}

proof fn lemma_run_complete(
    reg: Registry,
    root: Seq<char>,
    visited: Seq<Seq<char>>,
    pending: Seq<RequestView>,
    locked: Seq<Seq<char>>,
    fuel: nat,
)
    requires
        run_invariant(reg, root, visited, pending),
        visited.no_duplicates(),
        resolution_run(reg, visited, pending, locked, fuel) is Some,
    ensures
        ({
            let (w, l) = resolution_run(reg, visited, pending, locked, fuel)->0;
            &&& w.contains(root)
            &&& closed_under_dependencies(reg, w)
            &&& w.no_duplicates()
            &&& forall|x: Seq<char>| visited.contains(x) ==> w.contains(x)
            &&& forall|x: Seq<char>| #[trigger] w.contains(x) ==> visited.contains(x) || l.contains(x)
            &&& l.len() >= locked.len()
            &&& l.take(locked.len() as int) == locked
            &&& forall|x: Seq<char>| #[trigger] l.contains(x) ==> locked.contains(x) || w.contains(x)
        }),
    decreases fuel,
{
    let step = next_step(visited, pending);
    if step.1 is None {
        assert(locked.take(locked.len() as int) =~= locked);
        lemma_next_step_none(visited, pending);
        assert forall|a: Seq<char>, b: Seq<char>| #[trigger] depends(reg, a, b) && visited.contains(a) implies visited.contains(b) by {
            if pending_names(pending, b) {
                let j = choose|j: int| 0 <= j < pending.len() && pending[j].0 == b;
                assert(visited.contains(pending[j].0));
            }
        }
        if pending_names(pending, root) {
            let j = choose|j: int| 0 <= j < pending.len() && pending[j].0 == root;
            assert(visited.contains(pending[j].0));
        }
    } else {
        let r = step.1->0;
        let rest = step.0;
        law_next_request_is_unvisited(visited, pending);
        lemma_next_step_some(visited, pending);
        let v2 = visited.push(r.0);
        let p2 = rest + dependency_requests(reg[r.0]);
        assert(v2.contains(r.0)) by {
            assert(v2[visited.len() as int] == r.0);
        }
        assert forall|x: Seq<char>| visited.contains(x) implies v2.contains(x) by {
            let k = choose|k: int| 0 <= k < visited.len() && visited[k] == x;
            assert(v2[k] == x);
        }
        assert forall|x: Seq<char>| pending_names(pending, x) implies v2.contains(x) || pending_names(p2, x) by {
            let j = choose|j: int| 0 <= j < pending.len() && pending[j].0 == x;
            if rest.contains(pending[j]) {
                let k = choose|k: int| 0 <= k < rest.len() && rest[k] == pending[j];
                assert(p2[k] == rest[k]);
            }
        }
        assert forall|a: Seq<char>, b: Seq<char>| #[trigger] depends(reg, a, b) && v2.contains(a)
            implies v2.contains(b) || pending_names(p2, b) by {
            if a == r.0 {
                lemma_requests_name_dependencies(reg[r.0], b);
                let q = dependency_requests(reg[r.0]);
                let j = choose|j: int| 0 <= j < q.len() && q[j].0 == b;
                assert(p2[rest.len() + j] == q[j]);
            } else {
                let k = choose|k: int| 0 <= k < v2.len() && v2[k] == a;
                assert(visited[k] == a);
            }
        }
        assert(v2.no_duplicates()) by {
            assert forall|i: int, j: int| 0 <= i < v2.len() && 0 <= j < v2.len() && i != j implies v2[i] != v2[j] by {
                if i == visited.len() {
                    assert(v2[j] == visited[j]);
                    assert(visited.contains(visited[j]));
                } else if j == visited.len() {
                    assert(v2[i] == visited[i]);
                    assert(visited.contains(visited[i]));
                } else {
                    assert(v2[i] == visited[i] && v2[j] == visited[j]);
                }
            }
        }
        let l2 = lock_name(locked, r.0);
        lemma_run_complete(reg, root, v2, p2, l2, (fuel - 1) as nat);
        let (w, l) = resolution_run(reg, v2, p2, l2, (fuel - 1) as nat)->0;
        assert(l2.take(locked.len() as int) =~= locked);
        assert forall|k: int| 0 <= k < locked.len() implies l[k] == locked[k] by {
            assert(l.take(l2.len() as int)[k] == l2[k]);
            assert(l2[k] == locked[k]);
        }
        assert(l.take(locked.len() as int) =~= locked);
        assert(l2.contains(r.0)) by {
            if !locked.contains(r.0) {
                assert(l2[locked.len() as int] == r.0);
            }
        }
        assert forall|x: Seq<char>| l2.contains(x) implies l.contains(x) by {
            let k = choose|k: int| 0 <= k < l2.len() && l2[k] == x;
            assert(l.take(l2.len() as int)[k] == x);
            assert(l[k] == x);
        }
        assert forall|x: Seq<char>| locked.contains(x) implies l.contains(x) by {
            let k = choose|k: int| 0 <= k < locked.len() && locked[k] == x;
            assert(l2[k] == x);
        }
        assert forall|x: Seq<char>| #[trigger] l.contains(x) implies locked.contains(x) || w.contains(x) by {
            if l2.contains(x) && !locked.contains(x) {
                let k = choose|k: int| 0 <= k < l2.len() && l2[k] == x;
                assert(x == r.0);
            }
        }
    }
}

proof fn lemma_run_terminates(
    reg: Registry,
    visited: Seq<Seq<char>>,
    pending: Seq<RequestView>,
    locked: Seq<Seq<char>>,
    fuel: nat,
)
    requires
        reg.dom().finite(),
        registry_closed(reg),
        forall|j: int| 0 <= j < pending.len() ==> reg.dom().contains(#[trigger] pending[j].0),
        fuel + reg.dom().intersect(visited.to_set()).len() > reg.dom().len(),
    ensures
        resolution_run(reg, visited, pending, locked, fuel) is Some,
    decreases fuel,
{
    let step = next_step(visited, pending);
    if step.1 is Some {
        let r = step.1->0;
        let rest = step.0;
        law_next_request_is_unvisited(visited, pending);
        lemma_next_step_some(visited, pending);
        let k = choose|k: int| 0 <= k < pending.len() && pending[k] == r;
        assert(reg.dom().contains(pending[k].0));
        let v2 = visited.push(r.0);
        let s1 = reg.dom().intersect(visited.to_set());
        let s2 = reg.dom().intersect(v2.to_set());
        assert(s2 =~= s1.insert(r.0)) by {
            assert forall|x: Seq<char>| s2.contains(x) <==> s1.insert(r.0).contains(x) by {
                if v2.contains(x) && x != r.0 {
                    let i = choose|i: int| 0 <= i < v2.len() && v2[i] == x;
                    assert(visited[i] == x);
                }
                if visited.contains(x) {
                    let i = choose|i: int| 0 <= i < visited.len() && visited[i] == x;
                    assert(v2[i] == x);
                }
                if x == r.0 {
                    assert(v2[visited.len() as int] == x);
                }
            }
        }
        vstd::set_lib::lemma_len_subset(s1, reg.dom());
        assert(!s1.contains(r.0));
        assert(s1.insert(r.0).len() == s1.len() + 1);
        vstd::set_lib::lemma_len_subset(s2, reg.dom());
        assert(fuel > 0);
        let p2 = rest + dependency_requests(reg[r.0]);
        assert forall|j: int| 0 <= j < p2.len() implies reg.dom().contains(#[trigger] p2[j].0) by {
            if j < rest.len() {
                assert(p2[j] == rest[j]);
                assert(pending.contains(rest[j]));
            } else {
                let q = dependency_requests(reg[r.0]);
                assert(p2[j] == q[j - rest.len()]);
                let i = reg[r.0].len() - 1 - (j - rest.len());
                assert(reg[r.0][i].0 == q[j - rest.len()].0);
            }
        }
        lemma_run_terminates(reg, v2, p2, lock_name(locked, r.0), (fuel - 1) as nat);
    }
}

/// A resolution of a package of a registry that serves every dependency it names ends: it
/// needs no more fetches than the registry has packages.
pub proof fn law_resolution_terminates(
    reg: Registry,
    visited: Seq<Seq<char>>,
    root: RequestView,
    locked: Seq<Seq<char>>,
)
    requires
        reg.dom().finite(),
        registry_closed(reg),
        reg.dom().contains(root.0),
    ensures
        resolution_run(reg, visited, seq![root], locked, reg.dom().len() + 1) is Some,
{
    assert(seq![root][0] == root);
    lemma_run_terminates(reg, visited, seq![root], locked, reg.dom().len() + 1);
}

/// A finished resolution of `root` has visited the root and every package reachable from it
/// through the registry's dependencies (the visited names are closed under dependencies),
/// fetched each of them once (no name is visited twice), kept what earlier resolutions
/// visited, locked every name it visited, and kept the lock file it started from as a prefix.
pub proof fn law_resolution_complete(
    reg: Registry,
    visited: Seq<Seq<char>>,
    root: RequestView,
    locked: Seq<Seq<char>>,
    fuel: nat,
)
    requires
        closed_under_dependencies(reg, visited),
        visited.no_duplicates(),
        resolution_run(reg, visited, seq![root], locked, fuel) is Some,
    ensures
        ({
            let (w, l) = resolution_run(reg, visited, seq![root], locked, fuel)->0;
            &&& w.contains(root.0)
            &&& closed_under_dependencies(reg, w)
            &&& w.no_duplicates()
            &&& forall|x: Seq<char>| visited.contains(x) ==> w.contains(x)
            &&& forall|x: Seq<char>| #[trigger] w.contains(x) ==> visited.contains(x) || l.contains(x)
            &&& l.len() >= locked.len()
            &&& l.take(locked.len() as int) == locked
            &&& forall|x: Seq<char>| #[trigger] l.contains(x) ==> locked.contains(x) || w.contains(x)
        }),
{
    assert(seq![root][0] == root);
    assert(pending_names(seq![root], root.0));
    lemma_run_complete(reg, root.0, visited, seq![root], locked, fuel);
}

/// `path` leads from its first name through dependencies of the registry.
pub open spec fn dependency_path(reg: Registry, path: Seq<Seq<char>>) -> bool {
    forall|i: int| 0 <= i < path.len() - 1 ==> #[trigger] depends(reg, path[i], path[i + 1])
}

/// Every name on a dependency path from a name of a dependency-closed set is in the set: a
/// finished resolution of `root` has visited every package reachable from it.
pub proof fn law_reachable_packages_are_visited(reg: Registry, names: Seq<Seq<char>>, path: Seq<Seq<char>>)
    requires
        closed_under_dependencies(reg, names),
        path.len() > 0,
        names.contains(path[0]),
        dependency_path(reg, path),
    ensures
        forall|i: int| 0 <= i < path.len() ==> names.contains(#[trigger] path[i]),
    decreases path.len(),
{
    if path.len() > 1 {
        let front = path.drop_last();
        assert forall|i: int| 0 <= i < front.len() - 1 implies #[trigger] depends(reg, front[i], front[i + 1]) by {
            assert(front[i] == path[i] && front[i + 1] == path[i + 1]);
            assert(depends(reg, path[i], path[i + 1]));
        }
        law_reachable_packages_are_visited(reg, names, front);
        assert forall|i: int| 0 <= i < path.len() implies names.contains(#[trigger] path[i]) by {
            if i < path.len() - 1 {
                assert(front[i] == path[i]);
            } else {
                assert(names.contains(front[i - 1]));
                assert(front[i - 1] == path[i - 1]);
                let j = i - 1;
                assert(depends(reg, path[j], path[j + 1]));
                assert(path[j + 1] == path[i]);
            }
        }
    }
}

/// `x` is reachable from `root`: some dependency path leads from `root` to `x`.
pub open spec fn reachable(reg: Registry, root: Seq<char>, x: Seq<char>) -> bool {
    exists|path: Seq<Seq<char>>|
        #[trigger] dependency_path(reg, path) && path.len() > 0 && path[0] == root && path.last() == x
}

proof fn lemma_reachable_step(reg: Registry, root: Seq<char>, a: Seq<char>, b: Seq<char>)
    requires
        reachable(reg, root, a),
        depends(reg, a, b),
    ensures
        reachable(reg, root, b),
{
    let path = choose|path: Seq<Seq<char>>|
        #[trigger] dependency_path(reg, path) && path.len() > 0 && path[0] == root && path.last() == a;
    let p2 = path.push(b);
    assert forall|i: int| 0 <= i < p2.len() - 1 implies #[trigger] depends(reg, p2[i], p2[i + 1]) by {
        if i < path.len() - 1 {
            assert(p2[i] == path[i] && p2[i + 1] == path[i + 1]);
        } else {
            assert(p2[i] == a && p2[i + 1] == b);
        }
    }
    assert(dependency_path(reg, p2));
    assert(p2[0] == root && p2.last() == b);
}

proof fn lemma_run_reachable(
    reg: Registry,
    root: Seq<char>,
    first_visited: Seq<Seq<char>>,
    first_locked: Seq<Seq<char>>,
    visited: Seq<Seq<char>>,
    pending: Seq<RequestView>,
    locked: Seq<Seq<char>>,
    fuel: nat,
)
    requires
        forall|j: int| 0 <= j < pending.len() ==> reachable(reg, root, #[trigger] pending[j].0),
        forall|x: Seq<char>| #[trigger] visited.contains(x) ==> first_visited.contains(x) || reachable(reg, root, x),
        forall|x: Seq<char>| #[trigger] locked.contains(x) ==> first_locked.contains(x) || reachable(reg, root, x),
        resolution_run(reg, visited, pending, locked, fuel) is Some,
    ensures
        ({
            let (w, l) = resolution_run(reg, visited, pending, locked, fuel)->0;
            &&& forall|x: Seq<char>| #[trigger] w.contains(x) ==> first_visited.contains(x) || reachable(reg, root, x)
            &&& forall|x: Seq<char>| #[trigger] l.contains(x) ==> first_locked.contains(x) || reachable(reg, root, x)
        }),
    decreases fuel,
{
    let step = next_step(visited, pending);
    if step.1 is Some {
        let r = step.1->0;
        let rest = step.0;
        law_next_request_is_unvisited(visited, pending);
        lemma_next_step_some(visited, pending);
        let k = choose|k: int| 0 <= k < pending.len() && pending[k] == r;
        assert(reachable(reg, root, pending[k].0));
        let v2 = visited.push(r.0);
        let l2 = lock_name(locked, r.0);
        let deps = reg[r.0];
        let q = dependency_requests(deps);
        let p2 = rest + q;
        assert forall|j: int| 0 <= j < p2.len() implies reachable(reg, root, #[trigger] p2[j].0) by {
            if j < rest.len() {
                assert(p2[j] == rest[j]);
                assert(pending.contains(rest[j]));
                let m = choose|m: int| 0 <= m < pending.len() && pending[m] == rest[j];
                assert(reachable(reg, root, pending[m].0));
            } else {
                assert(p2[j] == q[j - rest.len()]);
                let i = deps.len() - 1 - (j - rest.len());
                assert(deps[i].0 == q[j - rest.len()].0);
                assert(depends(reg, r.0, deps[i].0));
                lemma_reachable_step(reg, root, r.0, deps[i].0);
            }
        }
        assert forall|x: Seq<char>| #[trigger] v2.contains(x) implies first_visited.contains(x) || reachable(reg, root, x) by {
            if x != r.0 {
                let m = choose|m: int| 0 <= m < v2.len() && v2[m] == x;
                assert(visited[m] == x);
                assert(visited.contains(x));
            }
        }
        assert forall|x: Seq<char>| #[trigger] l2.contains(x) implies first_locked.contains(x) || reachable(reg, root, x) by {
            if x != r.0 && !locked.contains(r.0) {
                let m = choose|m: int| 0 <= m < l2.len() && l2[m] == x;
                assert(locked[m] == x);
                assert(locked.contains(x));
            }
        }
        if reg.dom().contains(r.0) && fuel > 0 {
            lemma_run_reachable(reg, root, first_visited, first_locked, v2, p2, l2, (fuel - 1) as nat);
        }
    }
}

/// A resolution of `root` visits and locks nothing beyond what was visited or locked before it
/// and the packages reachable from `root` through the registry's dependencies.
pub proof fn law_resolution_stays_reachable(
    reg: Registry,
    visited: Seq<Seq<char>>,
    root: RequestView,
    locked: Seq<Seq<char>>,
    fuel: nat,
)
    requires
        resolution_run(reg, visited, seq![root], locked, fuel) is Some,
    ensures
        ({
            let (w, l) = resolution_run(reg, visited, seq![root], locked, fuel)->0;
            &&& forall|x: Seq<char>| #[trigger] w.contains(x) ==> visited.contains(x) || reachable(reg, root.0, x)
            &&& forall|x: Seq<char>| #[trigger] l.contains(x) ==> locked.contains(x) || reachable(reg, root.0, x)
        }),
{
    let start = seq![root.0];
    assert(start[0] == root.0 && start.last() == root.0);
    assert(dependency_path(reg, start));
    assert(reachable(reg, root.0, root.0));
    assert(seq![root][0] == root);
    lemma_run_reachable(reg, root.0, visited, locked, visited, seq![root], locked, fuel);
}

} // verus!
