//! The project manifest, `Cake.toml`.

use vstd::prelude::*;
use crate::error::CakeError;
use crate::text::{str_eq, trim, trimmed};

verus! {

/// The `[package]` table of a manifest.
#[derive(Debug)]
pub struct Package {
    pub name: String,
    pub version: String,
    pub repository: String,
    /// `library` or `binary`; a package without one is built as a binary.
    pub package_type: Option<String>,
    /// `c`, or anything else for C++.
    pub language: Option<String>,
}

/// A whole manifest: its package and its dependencies, each a name and a version.
#[derive(Debug)]
pub struct Manifest {
    pub package: Package,
    pub dependencies: Vec<(String, String)>,
}

/// A dependency as characters: its name and its version.
pub type DependencyView = (Seq<char>, Seq<char>);

/// The characters of the dependencies, in their order.
pub open spec fn dependency_views(deps: Seq<(String, String)>) -> Seq<DependencyView> {
    deps.map_values(|d: (String, String)| (d.0@, d.1@))
}

/// Whether a dependency named `name` is listed.
pub open spec fn lists_dependency(deps: Seq<DependencyView>, name: Seq<char>) -> bool {
    exists|i: int| 0 <= i < deps.len() && (#[trigger] deps[i]).0 == name
}

/// No two dependencies share a name.
pub open spec fn dependency_names_distinct(deps: Seq<DependencyView>) -> bool {
    forall|i: int, j: int|
        0 <= i < deps.len() && 0 <= j < deps.len() && i != j
            ==> (#[trigger] deps[i]).0 != (#[trigger] deps[j]).0
}

/// The dependencies as a map from name to version.
pub open spec fn dependency_map(deps: Seq<DependencyView>) -> Map<Seq<char>, Seq<char>> {
    Map::new(
        |name: Seq<char>| lists_dependency(deps, name),
        |name: Seq<char>| deps[choose|i: int| 0 <= i < deps.len() && (#[trigger] deps[i]).0 == name].1,
    )
}

/// The names of the dependencies, in their order.
pub open spec fn dependency_names(deps: Seq<DependencyView>) -> Seq<Seq<char>> {
    deps.map_values(|d: DependencyView| d.0)
}

/// The dependency names of a manifest are the names of its dependencies, one per dependency,
/// in the order the manifest lists them.
pub proof fn law_dependency_names_in_order(deps: Seq<(String, String)>)
    ensures
        dependency_names(dependency_views(deps)).len() == deps.len(),
        forall|i: int| 0 <= i < deps.len() ==> dependency_names(dependency_views(deps))[i] == (#[trigger] deps[i]).0@,
{
}

/// Holds of the dependencies not named `name`.
pub open spec fn dependency_not_named(name: Seq<char>) -> spec_fn(DependencyView) -> bool {
    |d: DependencyView| d.0 != name
}

/// The list once `name` is set to `version`: an entry of that name gets the new version in
/// place, and a new name is appended.
pub open spec fn with_dependency(deps: Seq<DependencyView>, name: Seq<char>, version: Seq<char>) -> Seq<DependencyView> {
    if lists_dependency(deps, name) {
        deps.map_values(|d: DependencyView| if d.0 == name { (name, version) } else { d })
    } else {
        deps.push((name, version))
    }
}

/// The list without the dependencies named `name`.
pub open spec fn without_dependency(deps: Seq<DependencyView>, name: Seq<char>) -> Seq<DependencyView> {
    deps.filter(dependency_not_named(name))
}

/// Whether the `repository` field is blank, which makes a manifest invalid.
pub open spec fn repository_missing(package: Package) -> bool {
    trim(package.repository@).len() == 0
}

/// Setting a dependency keeps dependency names distinct.
pub proof fn law_insert_dependency_keeps_names_distinct(deps: Seq<DependencyView>, name: Seq<char>, version: Seq<char>)
    requires
        dependency_names_distinct(deps),
    ensures
        dependency_names_distinct(with_dependency(deps, name, version)),
{
    let r = with_dependency(deps, name, version);
    if lists_dependency(deps, name) {
        assert forall|i: int, j: int|
            0 <= i < r.len() && 0 <= j < r.len() && i != j implies (#[trigger] r[i]).0 != (#[trigger] r[j]).0 by {
            assert(deps[i].0 == r[i].0 && deps[j].0 == r[j].0);
        }
    } else {
        assert forall|i: int, j: int|
            0 <= i < r.len() && 0 <= j < r.len() && i != j implies (#[trigger] r[i]).0 != (#[trigger] r[j]).0 by {
            if i < deps.len() && j < deps.len() {
                assert(r[i] == deps[i] && r[j] == deps[j]);
            } else if i < deps.len() {
                assert(r[i] == deps[i]);
            } else {
                assert(r[j] == deps[j]);
            }
        }
    }
}

/// Setting a dependency maps its name to the new version and leaves every other dependency
/// as it was.
pub proof fn law_insert_dependency_map(deps: Seq<DependencyView>, name: Seq<char>, version: Seq<char>)
    requires
        dependency_names_distinct(deps),
    ensures
        dependency_map(with_dependency(deps, name, version)) == dependency_map(deps).insert(name, version),
{
    let r = with_dependency(deps, name, version);
    law_insert_dependency_keeps_names_distinct(deps, name, version);
    let m = dependency_map(r);
    let e = dependency_map(deps).insert(name, version);
    assert forall|k: Seq<char>| m.dom().contains(k) <==> e.dom().contains(k) by {
        if lists_dependency(deps, k) {
            let i = choose|i: int| 0 <= i < deps.len() && (#[trigger] deps[i]).0 == k;
            if lists_dependency(deps, name) {
                assert(r[i].0 == k);
            } else {
                assert(r[i] == deps[i]);
            }
        }
        if k == name {
            if lists_dependency(deps, name) {
                let i = choose|i: int| 0 <= i < deps.len() && (#[trigger] deps[i]).0 == name;
                assert(r[i].0 == name);
            } else {
                assert(r[deps.len() as int].0 == name);
            }
        }
        if lists_dependency(r, k) {
            let i = choose|i: int| 0 <= i < r.len() && (#[trigger] r[i]).0 == k;
            if lists_dependency(deps, name) {
                assert(deps[i].0 == k);
            } else if i < deps.len() {
                assert(r[i] == deps[i]);
            }
        }
    }
    assert forall|k: Seq<char>| #[trigger] m.dom().contains(k) implies m[k] == e[k] by {
        let i = choose|i: int| 0 <= i < r.len() && (#[trigger] r[i]).0 == k;
        if k == name {
            if lists_dependency(deps, name) {
                assert(r[i] == (name, version));
            } else {
                if i < deps.len() {
                    assert(r[i] == deps[i]);
                }
                assert(r[i] == (name, version));
            }
        } else {
            let j = choose|j: int| 0 <= j < deps.len() && (#[trigger] deps[j]).0 == k;
            if lists_dependency(deps, name) {
                assert(r[j] == deps[j]);
                assert(r[j].0 == k);
            } else {
                assert(r[j] == deps[j]);
            }
        }
    }
    assert(m =~= e);
}

/// Removing a dependency keeps dependency names distinct.
pub proof fn law_remove_dependency_keeps_names_distinct(deps: Seq<DependencyView>, name: Seq<char>)
    requires
        dependency_names_distinct(deps),
    ensures
        dependency_names_distinct(without_dependency(deps, name)),
    decreases deps.len(),
{
    reveal_with_fuel(Seq::<_>::filter, 1);
    if deps.len() > 0 {
        let rest = deps.drop_last();
        assert forall|i: int, j: int|
            0 <= i < rest.len() && 0 <= j < rest.len() && i != j implies (#[trigger] rest[i]).0 != (#[trigger] rest[j]).0 by {
            assert(rest[i] == deps[i] && rest[j] == deps[j]);
        }
        law_remove_dependency_keeps_names_distinct(rest, name);
        let f = without_dependency(rest, name);
        let x = deps.last();
        if dependency_not_named(name)(x) {
            let r = f.push(x);
            assert forall|i: int, j: int|
                0 <= i < r.len() && 0 <= j < r.len() && i != j implies (#[trigger] r[i]).0 != (#[trigger] r[j]).0 by {
                if i < f.len() && j < f.len() {
                    assert(r[i] == f[i] && r[j] == f[j]);
                } else if i < f.len() {
                    assert(r[i] == f[i]);
                    crate::seqs::lemma_filter_member(rest, dependency_not_named(name), i);
                    let k = choose|k: int| 0 <= k < rest.len() && rest[k] == f[i];
                    assert(deps[k] == rest[k]);
                    assert(deps[deps.len() - 1] == x);
                } else if j < f.len() {
                    assert(r[j] == f[j]);
                    crate::seqs::lemma_filter_member(rest, dependency_not_named(name), j);
                    let k = choose|k: int| 0 <= k < rest.len() && rest[k] == f[j];
                    assert(deps[k] == rest[k]);
                    assert(deps[deps.len() - 1] == x);
                }
            }
        }
    }
}

/// Removing a dependency takes its name out of the map and leaves every other dependency as
/// it was.
pub proof fn law_remove_dependency_map(deps: Seq<DependencyView>, name: Seq<char>)
    requires
        dependency_names_distinct(deps),
    ensures
        dependency_map(without_dependency(deps, name)) == dependency_map(deps).remove(name),
{
    let pred = dependency_not_named(name);
    let r = without_dependency(deps, name);
    law_remove_dependency_keeps_names_distinct(deps, name);
    let m = dependency_map(r);
    let e = dependency_map(deps).remove(name);
    assert forall|k: Seq<char>| m.dom().contains(k) <==> e.dom().contains(k) by {
        if lists_dependency(r, k) {
            let i = choose|i: int| 0 <= i < r.len() && (#[trigger] r[i]).0 == k;
            crate::seqs::lemma_filter_member(deps, pred, i);
        }
        if lists_dependency(deps, k) && k != name {
            let i = choose|i: int| 0 <= i < deps.len() && (#[trigger] deps[i]).0 == k;
            crate::seqs::lemma_filter_keeps(deps, pred, i);
        }
    }
    assert forall|k: Seq<char>| #[trigger] m.dom().contains(k) implies m[k] == e[k] by {
        let i = choose|i: int| 0 <= i < r.len() && (#[trigger] r[i]).0 == k;
        let j = choose|j: int| 0 <= j < deps.len() && (#[trigger] deps[j]).0 == k;
        crate::seqs::lemma_filter_member(deps, pred, i);
        let l = choose|l: int| 0 <= l < deps.len() && deps[l] == r[i];
        assert(deps[l].0 == k);
        assert(l == j);
    }
    assert(m =~= e);
}

/// After a dependency is set, it is listed.
pub proof fn law_insert_then_listed(deps: Seq<DependencyView>, name: Seq<char>, version: Seq<char>)
    ensures
        lists_dependency(with_dependency(deps, name, version), name),
{
    let r = with_dependency(deps, name, version);
    if lists_dependency(deps, name) {
        let i = choose|i: int| 0 <= i < deps.len() && (#[trigger] deps[i]).0 == name;
        assert(r[i].0 == name);
    } else {
        assert(r[deps.len() as int].0 == name);
    }
}

/// After a dependency is removed, it is no longer listed.
pub proof fn law_remove_then_unlisted(deps: Seq<DependencyView>, name: Seq<char>)
    ensures
        !lists_dependency(without_dependency(deps, name), name),
{
    let r = without_dependency(deps, name);
    assert forall|i: int| 0 <= i < r.len() implies (#[trigger] r[i]).0 != name by {
        crate::seqs::lemma_filter_member(deps, dependency_not_named(name), i);
    }
}

/// Removing a dependency that was just added restores the list it was added to.
pub proof fn law_remove_undoes_insert_dependency(deps: Seq<DependencyView>, name: Seq<char>, version: Seq<char>)
    requires
        !lists_dependency(deps, name),
    ensures
        without_dependency(with_dependency(deps, name, version), name) == deps,
{
    let pred = dependency_not_named(name);
    crate::seqs::lemma_filter_push(deps, (name, version), pred);
    law_remove_absent_dependency_is_identity(deps, name);
}

/// Removing a dependency that is not listed changes nothing.
pub proof fn law_remove_absent_dependency_is_identity(deps: Seq<DependencyView>, name: Seq<char>)
    requires
        !lists_dependency(deps, name),
    ensures
        without_dependency(deps, name) == deps,
    decreases deps.len(),
{
    reveal_with_fuel(Seq::<_>::filter, 1);
    if deps.len() > 0 {
        let rest = deps.drop_last();
        assert forall|i: int| 0 <= i < rest.len() implies (#[trigger] rest[i]).0 != name by {
            assert(rest[i] == deps[i]);
        }
        law_remove_absent_dependency_is_identity(rest, name);
        assert(deps.last() == deps[deps.len() - 1]);
        assert(rest.push(deps.last()) =~= deps);
    }
}

impl Manifest {
    /// Checks that the package names a repository.
    pub fn validate(&self) -> (r: Result<(), CakeError>)
        ensures
            r is Err <==> repository_missing(self.package),
            r is Err ==> r == Err::<(), CakeError>(CakeError::MissingRepository),
    {
        let t = trimmed(self.package.repository.as_str());
        if t.as_str().is_empty() {
            return Err(CakeError::MissingRepository);
        }
        Ok(())
    }

    /// Whether a dependency named `name` is listed.
    pub fn has_dependency(&self, name: &str) -> (r: bool)
        ensures
            r == lists_dependency(dependency_views(self.dependencies@), name@),
    {
        let ghost v = dependency_views(self.dependencies@);
        let mut i: usize = 0;
        while i < self.dependencies.len()
            invariant
                v == dependency_views(self.dependencies@),
                i <= self.dependencies@.len(),
                forall|j: int| 0 <= j < i ==> (#[trigger] v[j]).0 != name@,
            decreases self.dependencies@.len() - i,
        {
            if str_eq(self.dependencies[i].0.as_str(), name) {
                assert(v[i as int].0 == name@);
                return true;
            }
            i = i + 1;
        }
        false
    }

    /// Sets the dependency `name` to `version`.
    pub fn insert_dependency(&mut self, name: String, version: String)
        ensures
            final(self).package == old(self).package,
            dependency_views(final(self).dependencies@) == with_dependency(
                dependency_views(old(self).dependencies@),
                name@,
                version@,
            ),
            dependency_names_distinct(dependency_views(old(self).dependencies@)) ==> dependency_names_distinct(
                dependency_views(final(self).dependencies@),
            ),
    {
        proof {
            if dependency_names_distinct(dependency_views(self.dependencies@)) {
                law_insert_dependency_keeps_names_distinct(dependency_views(self.dependencies@), name@, version@);
            }
        }
        let ghost orig = dependency_views(self.dependencies@);
        let ghost f = |d: DependencyView| if d.0 == name@ { (name@, version@) } else { d };
        let n = self.dependencies.len();
        let mut i: usize = 0;
        let mut found = false;
        while i < n
            invariant
                n == orig.len(),
                self.package == old(self).package,
                f == (|d: DependencyView| if d.0 == name@ { (name@, version@) } else { d }),
                i <= n,
                self.dependencies@.len() == n,
                found == (exists|j: int| 0 <= j < i && (#[trigger] orig[j]).0 == name@),
                forall|j: int| 0 <= j < i ==> (#[trigger] dependency_views(self.dependencies@)[j]) == f(orig[j]),
                forall|j: int| i <= j < n ==> (#[trigger] dependency_views(self.dependencies@)[j]) == orig[j],
            decreases n - i,
        {
            let ghost before = dependency_views(self.dependencies@);
            assert(before[i as int] == orig[i as int]);
            assert(before[i as int].0 == self.dependencies@[i as int].0@);
            let same = str_eq(self.dependencies[i].0.as_str(), name.as_str());
            if same {
                let entry = (name.clone(), version.clone());
                self.dependencies.set(i, entry);
                found = true;
                assert(dependency_views(self.dependencies@) =~= before.update(i as int, (name@, version@)));
            }
            assert(dependency_views(self.dependencies@)[i as int] == f(orig[i as int]));
            i = i + 1;
        }
        let ghost before = dependency_views(self.dependencies@);
        if !found {
            self.dependencies.push((name, version));
            assert(dependency_views(self.dependencies@) =~= before.push((name@, version@)));
            assert(dependency_views(self.dependencies@) =~= orig.push((name@, version@)));
        } else {
            assert(dependency_views(self.dependencies@) =~= orig.map_values(f));
        }
    }

    /// Removes the dependency `name`, if listed.
    pub fn remove_dependency(&mut self, name: &str)
        ensures
            final(self).package == old(self).package,
            dependency_views(final(self).dependencies@) == without_dependency(
                dependency_views(old(self).dependencies@),
                name@,
            ),
            dependency_names_distinct(dependency_views(old(self).dependencies@)) ==> dependency_names_distinct(
                dependency_views(final(self).dependencies@),
            ),
    {
        proof {
            if dependency_names_distinct(dependency_views(self.dependencies@)) {
                law_remove_dependency_keeps_names_distinct(dependency_views(self.dependencies@), name@);
            }
        }
        let ghost orig = dependency_views(self.dependencies@);
        let ghost keep = dependency_not_named(name@);
        let mut i: usize = 0;
        let mut k: usize = 0;
        let n = self.dependencies.len();
        while k < n
            invariant
                n == orig.len(),
                self.package == old(self).package,
                keep == dependency_not_named(name@),
                i <= k <= orig.len(),
                dependency_views(self.dependencies@) == orig.take(k as int).filter(keep) + orig.skip(k as int),
                i == orig.take(k as int).filter(keep).len(),
            decreases n - k,
        {
            let ghost f = orig.take(k as int).filter(keep);
            let ghost before = self.dependencies@;
            proof {
                assert(dependency_views(before).len() == before.len());
                assert((orig.take(k as int).filter(keep) + orig.skip(k as int)).len() == i + (n - k));
                assert(orig.take(k + 1) =~= orig.take(k as int).push(orig[k as int]));
                crate::seqs::lemma_filter_push(orig.take(k as int), orig[k as int], keep);
                assert(orig.skip(k as int).drop_first() =~= orig.skip(k + 1));
                assert(dependency_views(before)[i as int] == orig[k as int]);
            }
            let same = str_eq(self.dependencies[i].0.as_str(), name);
            if same {
                self.dependencies.remove(i);
                assert(dependency_views(self.dependencies@) =~= dependency_views(before).remove(i as int));
                assert(dependency_views(self.dependencies@) =~= f + orig.skip(k + 1));
            } else {
                i = i + 1;
                assert(dependency_views(self.dependencies@) =~= f.push(orig[k as int]) + orig.skip(k + 1));
            }
            k = k + 1;
        }
        assert(orig.take(orig.len() as int) =~= orig);
        assert(dependency_views(self.dependencies@) =~= orig.filter(keep));
    }
}

} // verus!
