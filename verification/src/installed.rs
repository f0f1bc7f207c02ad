//! The record of packages installed system wide (`installed.toml`).

use vstd::prelude::*;
use crate::text::{str_eq, string_views};

verus! {

/// One installed package and the packages it depends on.
#[derive(Debug, Clone)]
pub struct InstalledPackage {
    pub name: String,
    pub version: String,
    pub dependencies: Vec<String>,
}

/// The contents of `installed.toml`.
#[derive(Debug)]
pub struct Installed {
    pub version: u32,
    pub package: Vec<InstalledPackage>,
}

/// Whether some package of `packages` is named `name`.
pub open spec fn has_installed(packages: Seq<InstalledPackage>, name: Seq<char>) -> bool {
    exists|i: int| 0 <= i < packages.len() && (#[trigger] packages[i]).name@ == name
}

/// The names of the packages that `package` depends on.
pub open spec fn dependency_names(package: InstalledPackage) -> Seq<Seq<char>> {
    string_views(package.dependencies@)
}

/// Holds of the packages that depend on `name`.
pub open spec fn depends_on(name: Seq<char>) -> spec_fn(InstalledPackage) -> bool {
    |p: InstalledPackage| dependency_names(p).contains(name)
}

/// The names, in record order, of the packages that depend on `name`.
pub open spec fn dependents_of(packages: Seq<InstalledPackage>, name: Seq<char>) -> Seq<Seq<char>> {
    packages.filter(depends_on(name)).map_values(|p: InstalledPackage| p.name@)
}

/// Holds of the packages not named `name`.
pub open spec fn not_installed_as(name: Seq<char>) -> spec_fn(InstalledPackage) -> bool {
    |p: InstalledPackage| p.name@ != name
}

/// `packages` without the packages named `name`, in their order.
pub open spec fn without_installed(packages: Seq<InstalledPackage>, name: Seq<char>) -> Seq<InstalledPackage> {
    packages.filter(not_installed_as(name))
}

/// `packages` once `package` has been recorded: any package of the same name leaves, and
/// `package` comes last.
pub open spec fn with_installed(packages: Seq<InstalledPackage>, package: InstalledPackage) -> Seq<InstalledPackage> {
    without_installed(packages, package.name@).push(package)
}

/// No two packages share a name.
pub open spec fn names_distinct(packages: Seq<InstalledPackage>) -> bool {
    forall|i: int, j: int|
        0 <= i < packages.len() && 0 <= j < packages.len() && i != j
            ==> (#[trigger] packages[i]).name@ != (#[trigger] packages[j]).name@
}

/// After a package is recorded, a package of its name is present.
pub proof fn law_add_then_contains(packages: Seq<InstalledPackage>, package: InstalledPackage)
    ensures
        has_installed(with_installed(packages, package), package.name@),
{
    let r = with_installed(packages, package);
    assert(r[r.len() - 1] == package);
}

/// After a package is recorded, it is the only package of its name, and it comes last.
pub proof fn law_add_single_entry(packages: Seq<InstalledPackage>, package: InstalledPackage)
    ensures
        ({
            let r = with_installed(packages, package);
            forall|i: int| 0 <= i < r.len() && (#[trigger] r[i]).name@ == package.name@ ==> i == r.len() - 1
        }),
{
    let f = without_installed(packages, package.name@);
    let r = with_installed(packages, package);
    assert forall|i: int| 0 <= i < r.len() && (#[trigger] r[i]).name@ == package.name@ implies i == r.len() - 1 by {
        if i < r.len() - 1 {
            assert(r[i] == f[i]);
            crate::seqs::lemma_filter_member(packages, not_installed_as(package.name@), i);
        }
    }
}

/// Recording a package keeps install records free of duplicate names.
pub proof fn law_add_keeps_names_distinct(packages: Seq<InstalledPackage>, package: InstalledPackage)
    requires
        names_distinct(packages),
    ensures
        names_distinct(with_installed(packages, package)),
{
    let f = without_installed(packages, package.name@);
    let r = with_installed(packages, package);
    law_remove_keeps_names_distinct(packages, package.name@);
    law_add_single_entry(packages, package);
    assert forall|i: int, j: int|
        0 <= i < r.len() && 0 <= j < r.len() && i != j implies (#[trigger] r[i]).name@ != (#[trigger] r[j]).name@ by {
        if i < r.len() - 1 && j < r.len() - 1 {
            assert(r[i] == f[i] && r[j] == f[j]);
        }
    }
}

/// Removing a name keeps install records free of duplicate names.
pub proof fn law_remove_keeps_names_distinct(packages: Seq<InstalledPackage>, name: Seq<char>)
    requires
        names_distinct(packages),
    ensures
        names_distinct(without_installed(packages, name)),
    decreases packages.len(),
{
    reveal_with_fuel(Seq::<_>::filter, 1);
    if packages.len() > 0 {
        let rest = packages.drop_last();
        assert forall|i: int, j: int|
            0 <= i < rest.len() && 0 <= j < rest.len() && i != j implies (#[trigger] rest[i]).name@ != (#[trigger] rest[j]).name@ by {
            assert(rest[i] == packages[i] && rest[j] == packages[j]);
        }
        law_remove_keeps_names_distinct(rest, name);
        let f = without_installed(rest, name);
        let x = packages.last();
        if not_installed_as(name)(x) {
            let r = f.push(x);
            assert forall|i: int, j: int|
                0 <= i < r.len() && 0 <= j < r.len() && i != j implies (#[trigger] r[i]).name@ != (#[trigger] r[j]).name@ by {
                if i < f.len() && j < f.len() {
                    assert(r[i] == f[i] && r[j] == f[j]);
                } else if i < f.len() {
                    assert(r[i] == f[i]);
                    crate::seqs::lemma_filter_member(rest, not_installed_as(name), i);
                    let k = choose|k: int| 0 <= k < rest.len() && rest[k] == f[i];
                    assert(packages[k] == rest[k]);
                    assert(packages[packages.len() - 1] == x);
                } else if j < f.len() {
                    assert(r[j] == f[j]);
                    crate::seqs::lemma_filter_member(rest, not_installed_as(name), j);
                    let k = choose|k: int| 0 <= k < rest.len() && rest[k] == f[j];
                    assert(packages[k] == rest[k]);
                    assert(packages[packages.len() - 1] == x);
                }
            }
        }
    }
}

/// After a name is removed, no package of that name is present.
pub proof fn law_remove_then_absent(packages: Seq<InstalledPackage>, name: Seq<char>)
    ensures
        !has_installed(without_installed(packages, name), name),
{
    let f = without_installed(packages, name);
    assert forall|i: int| 0 <= i < f.len() implies (#[trigger] f[i]).name@ != name by {
        crate::seqs::lemma_filter_member(packages, not_installed_as(name), i);
    }
}

/// Removing one name leaves the presence of every other name as it was.
pub proof fn law_remove_keeps_others(packages: Seq<InstalledPackage>, name: Seq<char>, other: Seq<char>)
    requires
        other != name,
    ensures
        has_installed(without_installed(packages, name), other) == has_installed(packages, other),
{
    let f = without_installed(packages, name);
    if has_installed(packages, other) {
        let i = choose|i: int| 0 <= i < packages.len() && (#[trigger] packages[i]).name@ == other;
        crate::seqs::lemma_filter_keeps(packages, not_installed_as(name), i);
    }
    if has_installed(f, other) {
        let i = choose|i: int| 0 <= i < f.len() && (#[trigger] f[i]).name@ == other;
        crate::seqs::lemma_filter_member(packages, not_installed_as(name), i);
    }
}

/// Recording a package leaves the presence of every other name as it was.
pub proof fn law_add_keeps_others(packages: Seq<InstalledPackage>, package: InstalledPackage, other: Seq<char>)
    requires
        other != package.name@,
    ensures
        has_installed(with_installed(packages, package), other) == has_installed(packages, other),
{
    let f = without_installed(packages, package.name@);
    let r = with_installed(packages, package);
    law_remove_keeps_others(packages, package.name@, other);
    if has_installed(f, other) {
        let i = choose|i: int| 0 <= i < f.len() && (#[trigger] f[i]).name@ == other;
        assert(r[i] == f[i]);
    }
    if has_installed(r, other) {
        let i = choose|i: int| 0 <= i < r.len() && (#[trigger] r[i]).name@ == other;
        assert(r[i] == f[i]);
    }
}

/// Removing a name undoes recording a package of that name: what stays is what removing
/// the name alone leaves.
pub proof fn law_remove_undoes_add(packages: Seq<InstalledPackage>, package: InstalledPackage)
    ensures
        without_installed(with_installed(packages, package), package.name@) == without_installed(packages, package.name@),
{
    let pred = not_installed_as(package.name@);
    crate::seqs::lemma_filter_push(packages.filter(pred), package, pred);
    crate::seqs::lemma_filter_idempotent(packages, pred);
}

/// Removing a name that no installed package has changes nothing.
pub proof fn law_remove_absent_is_identity(packages: Seq<InstalledPackage>, name: Seq<char>)
    requires
        !has_installed(packages, name),
    ensures
        without_installed(packages, name) == packages,
    decreases packages.len(),
{
    reveal_with_fuel(Seq::<_>::filter, 1);
    if packages.len() > 0 {
        let rest = packages.drop_last();
        assert forall|i: int| 0 <= i < rest.len() implies (#[trigger] rest[i]).name@ != name by {
            assert(rest[i] == packages[i]);
        }
        law_remove_absent_is_identity(rest, name);
        assert(packages.last() == packages[packages.len() - 1]);
        assert(rest.push(packages.last()) =~= packages);
    }
}

/// Removing a name twice removes it once.
pub proof fn law_remove_idempotent(packages: Seq<InstalledPackage>, name: Seq<char>)
    ensures
        without_installed(without_installed(packages, name), name) == without_installed(packages, name),
{
    crate::seqs::lemma_filter_idempotent(packages, not_installed_as(name));
}

/// Recording one package twice records it once.
pub proof fn law_add_idempotent(packages: Seq<InstalledPackage>, package: InstalledPackage)
    ensures
        with_installed(with_installed(packages, package), package) == with_installed(packages, package),
{
    law_remove_undoes_add(packages, package);
}

/// Removing two names gives the same install record in either order.
pub proof fn law_remove_commutes(packages: Seq<InstalledPackage>, a: Seq<char>, b: Seq<char>)
    ensures
        without_installed(without_installed(packages, a), b) == without_installed(without_installed(packages, b), a),
{
    crate::seqs::lemma_filter_commutes(packages, not_installed_as(a), not_installed_as(b));
}

/// A name is among the dependents of `name` exactly when a package of that name depends on
/// `name`.
pub proof fn law_dependents_are_the_packages_that_depend(packages: Seq<InstalledPackage>, name: Seq<char>, dependent: Seq<char>)
    ensures
        dependents_of(packages, name).contains(dependent) <==> exists|i: int|
            0 <= i < packages.len() && (#[trigger] packages[i]).name@ == dependent && dependency_names(packages[i]).contains(name),
{
    let f = packages.filter(depends_on(name));
    let d = dependents_of(packages, name);
    if d.contains(dependent) {
        let k = choose|k: int| 0 <= k < d.len() && d[k] == dependent;
        crate::seqs::lemma_filter_member(packages, depends_on(name), k);
        let i = choose|i: int| 0 <= i < packages.len() && packages[i] == f[k];
        assert(packages[i].name@ == dependent);
    }
    if exists|i: int| 0 <= i < packages.len() && (#[trigger] packages[i]).name@ == dependent && dependency_names(packages[i]).contains(name) {
        let i = choose|i: int| 0 <= i < packages.len() && (#[trigger] packages[i]).name@ == dependent && dependency_names(packages[i]).contains(name);
        crate::seqs::lemma_filter_keeps(packages, depends_on(name), i);
        let k = choose|k: int| 0 <= k < f.len() && f[k] == packages[i];
        assert(d[k] == dependent);
    }
}

/// Whether `name` stands at some position of the package's dependency list.
proof fn lemma_depends_on_lists(p: InstalledPackage, name: Seq<char>)
    ensures
        depends_on(name)(p) <==> exists|j: int| 0 <= j < p.dependencies@.len() && (#[trigger] p.dependencies@[j])@ == name,
{
    if depends_on(name)(p) {
        let j = choose|j: int| 0 <= j < dependency_names(p).len() && dependency_names(p)[j] == name;
        assert(p.dependencies@[j]@ == name);
    }
    if exists|j: int| 0 <= j < p.dependencies@.len() && (#[trigger] p.dependencies@[j])@ == name {
        let j = choose|j: int| 0 <= j < p.dependencies@.len() && (#[trigger] p.dependencies@[j])@ == name;
        assert(dependency_names(p)[j] == name);
    }
}

/// A package depends on `name`, and is among its dependents, exactly when `name` stands at
/// some position of its own dependency list; `name` has no dependents, and may be
/// uninstalled, exactly when no installed package lists it at any position.
pub proof fn law_dependents_list_the_name(packages: Seq<InstalledPackage>, name: Seq<char>, dependent: Seq<char>)
    ensures
        dependents_of(packages, name).contains(dependent) <==> exists|i: int, j: int|
            0 <= i < packages.len() && (#[trigger] packages[i]).name@ == dependent && 0 <= j
                < packages[i].dependencies@.len() && (#[trigger] packages[i].dependencies@[j])@ == name,
        dependents_of(packages, name).len() == 0 <==> forall|i: int, j: int|
            0 <= i < packages.len() && 0 <= j < (#[trigger] packages[i]).dependencies@.len()
                ==> (#[trigger] packages[i].dependencies@[j])@ != name,
{
    law_dependents_are_the_packages_that_depend(packages, name, dependent);
    let f = packages.filter(depends_on(name));
    if dependents_of(packages, name).contains(dependent) {
        let i = choose|i: int| 0 <= i < packages.len() && (#[trigger] packages[i]).name@ == dependent && dependency_names(packages[i]).contains(name);
        lemma_depends_on_lists(packages[i], name);
    }
    if exists|i: int, j: int|
        0 <= i < packages.len() && (#[trigger] packages[i]).name@ == dependent && 0 <= j
            < packages[i].dependencies@.len() && (#[trigger] packages[i].dependencies@[j])@ == name {
        let (i, j) = choose|i: int, j: int|
            0 <= i < packages.len() && (#[trigger] packages[i]).name@ == dependent && 0 <= j
                < packages[i].dependencies@.len() && (#[trigger] packages[i].dependencies@[j])@ == name;
        lemma_depends_on_lists(packages[i], name);
    }
    if dependents_of(packages, name).len() == 0 {
        assert forall|i: int, j: int|
            0 <= i < packages.len() && 0 <= j < (#[trigger] packages[i]).dependencies@.len()
                implies (#[trigger] packages[i].dependencies@[j])@ != name by {
            if packages[i].dependencies@[j]@ == name {
                lemma_depends_on_lists(packages[i], name);
                crate::seqs::lemma_filter_keeps(packages, depends_on(name), i);
                assert(f.len() > 0);
            }
        }
    } else {
        crate::seqs::lemma_filter_member(packages, depends_on(name), 0);
        let i = choose|i: int| 0 <= i < packages.len() && packages[i] == f[0];
        lemma_depends_on_lists(packages[i], name);
        let j = choose|j: int| 0 <= j < packages[i].dependencies@.len() && (#[trigger] packages[i].dependencies@[j])@ == name;
        assert(packages[i].dependencies@[j]@ == name);
    }
}

impl Default for Installed {
    /// An empty record of format version 1.
    fn default() -> (r: Installed)
        ensures
            r.version == 1,
            r.package@.len() == 0,
    {
        Installed { version: 1, package: Vec::new() }
    }
}

impl Installed {
    /// Records `package`, replacing any package of the same name.
    pub fn add(&mut self, package: InstalledPackage)
        ensures
            final(self).version == old(self).version,
            final(self).package@ == with_installed(old(self).package@, package),
    {
        remove_named(&mut self.package, package.name.as_str());
        self.package.push(package);
    }

    /// Forgets every package named `name`.
    pub fn remove(&mut self, name: &str)
        ensures
            final(self).version == old(self).version,
            final(self).package@ == without_installed(old(self).package@, name@),
    {
        remove_named(&mut self.package, name);
    }

    /// The names of the installed packages that depend on `name`, in record order.
    pub fn dependents(&self, name: &str) -> (r: Vec<String>)
        ensures
            string_views(r@) == dependents_of(self.package@, name@),
    {
        let ghost pred = depends_on(name@);
        let mut r: Vec<String> = Vec::new();
        let mut i: usize = 0;
        let n = self.package.len();
        while i < n
            invariant
                n == self.package@.len(),
                i <= n,
                pred == depends_on(name@),
                string_views(r@) == self.package@.take(i as int).filter(pred).map_values(
                    |p: InstalledPackage| p.name@,
                ),
            decreases n - i,
        {
            let p = &self.package[i];
            let hit = contains_str(&p.dependencies, name);
            let ghost before = self.package@.take(i as int).filter(pred);
            let ghost r0 = r@;
            proof {
                assert(self.package@.take(i + 1) =~= self.package@.take(i as int).push(self.package@[i as int]));
                crate::seqs::lemma_filter_push(self.package@.take(i as int), self.package@[i as int], pred);
            }
            if hit {
                r.push(p.name.clone());
                proof {
                    assert(string_views(r@) =~= string_views(r0).push(p.name@));
                    assert(before.push(*p).map_values(|p: InstalledPackage| p.name@) =~= before.map_values(
                        |p: InstalledPackage| p.name@,
                    ).push(p.name@));
                }
            }
            i = i + 1;
        }
        assert(self.package@.take(n as int) =~= self.package@);
        r
    }

    /// Whether a package named `name` is recorded.
    pub fn contains(&self, name: &str) -> (r: bool)
        ensures
            r == has_installed(self.package@, name@),
    {
        let mut i: usize = 0;
        while i < self.package.len()
            invariant
                i <= self.package@.len(),
                forall|j: int| 0 <= j < i ==> (#[trigger] self.package@[j]).name@ != name@,
            decreases self.package@.len() - i,
        {
            if str_eq(self.package[i].name.as_str(), name) {
                return true;
            }
            i = i + 1;
        }
        false
    }
}

/// Whether `names` holds `name`.
pub fn contains_str(names: &Vec<String>, name: &str) -> (r: bool)
    ensures
        r == string_views(names@).contains(name@),
{
    let mut i: usize = 0;
    while i < names.len()
        invariant
            i <= names@.len(),
            forall|j: int| 0 <= j < i ==> (#[trigger] names@[j])@ != name@,
        decreases names@.len() - i,
    {
        if str_eq(names[i].as_str(), name) {
            assert(string_views(names@)[i as int] == name@);
            return true;
        }
        i = i + 1;
    }
    proof {
        let m = string_views(names@);
        if m.contains(name@) {
            let j = choose|j: int| 0 <= j < m.len() && m[j] == name@;
            assert(names@[j]@ == name@);
        }
    }
    false
}

/// Removes from `packages`, keeping the order of the rest, every package named `name`.
fn remove_named(packages: &mut Vec<InstalledPackage>, name: &str)
    ensures
        final(packages)@ == without_installed(old(packages)@, name@),
{
    let ghost orig = packages@;
    let ghost keep = not_installed_as(name@);
    let mut i: usize = 0;
    let mut k: usize = 0;
    let n = packages.len();
    while k < n
        invariant
            n == orig.len(),
            keep == not_installed_as(name@),
            i <= k <= orig.len(),
            packages@ == orig.take(k as int).filter(keep) + orig.skip(k as int),
            i == orig.take(k as int).filter(keep).len(),
        decreases n - k,
    {
        let ghost f = orig.take(k as int).filter(keep);
        proof {
            reveal_with_fuel(Seq::<_>::filter, 1);
            assert(orig.take(k + 1).drop_last() =~= orig.take(k as int));
            assert(orig.take(k + 1).last() == orig[k as int]);
            assert(orig.skip(k as int).drop_first() =~= orig.skip(k + 1));
            assert(packages@[i as int] == orig[k as int]);
        }
        let same = str_eq(packages[i].name.as_str(), name);
        assert(same == (orig[k as int].name@ == name@));
        if same {
            proof {
                reveal_with_fuel(Seq::<_>::filter, 1);
                assert(!keep(orig[k as int]));
                assert(orig.take(k + 1).filter(keep) == f);
            }
            packages.remove(i);
            assert(packages@ =~= f + orig.skip(k + 1));
        } else {
            proof {
                reveal_with_fuel(Seq::<_>::filter, 1);
                assert(keep(orig[k as int]));
                assert(orig.take(k + 1).filter(keep) == f.push(orig[k as int]));
            }
            i = i + 1;
            assert(packages@ =~= f.push(orig[k as int]) + orig.skip(k + 1));
        }
        k = k + 1;
    }
    assert(orig.take(orig.len() as int) =~= orig);
    assert(packages@ =~= orig.filter(keep));
}

} // verus!
