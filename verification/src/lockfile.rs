//! The lock file: the exact packages a project was resolved to.

use vstd::prelude::*;
use crate::text::{starts_with_char, str_eq, trim, trimmed};

verus! {

/// One resolved package.
#[derive(Debug, Clone)]
pub struct LockedPackage {
    pub name: String,
    pub version: String,
    pub repository: String,
}

/// The contents of `Cake.lock`.
#[derive(Debug)]
pub struct Lockfile {
    pub version: u32,
    pub package: Vec<LockedPackage>,
}

/// Whether some package of `packages` is named `name`.
pub open spec fn has_package(packages: Seq<LockedPackage>, name: Seq<char>) -> bool {
    exists|i: int| 0 <= i < packages.len() && (#[trigger] packages[i]).name@ == name
}

/// Holds of the packages not named `name`.
pub open spec fn not_named(name: Seq<char>) -> spec_fn(LockedPackage) -> bool {
    |p: LockedPackage| p.name@ != name
}

/// `packages` without the packages named `name`, in their order.
pub open spec fn without_package(packages: Seq<LockedPackage>, name: Seq<char>) -> Seq<LockedPackage> {
    packages.filter(not_named(name))
}

/// `packages` once `package` has been recorded: any package of the same name leaves, and
/// `package` comes last.
pub open spec fn with_package(packages: Seq<LockedPackage>, package: LockedPackage) -> Seq<LockedPackage> {
    without_package(packages, package.name@).push(package)
}

/// No two packages share a name.
pub open spec fn names_distinct(packages: Seq<LockedPackage>) -> bool {
    forall|i: int, j: int|
        0 <= i < packages.len() && 0 <= j < packages.len() && i != j
            ==> (#[trigger] packages[i]).name@ != (#[trigger] packages[j]).name@
}

/// Whether the text of a lock file holds nothing to parse: it is blank, or its first
/// character is `#`.
pub open spec fn lockfile_text_is_empty(content: Seq<char>) -> bool {
    trim(content).len() == 0 || (content.len() > 0 && content[0] == '#')
}

/// After a package is recorded, a package of its name is present.
pub proof fn law_add_package_then_contains(packages: Seq<LockedPackage>, package: LockedPackage)
    ensures
        has_package(with_package(packages, package), package.name@),
{
    let r = with_package(packages, package);
    assert(r[r.len() - 1] == package);
}

/// After a package is recorded, it is the only package of its name, and it comes last.
pub proof fn law_add_package_single_entry(packages: Seq<LockedPackage>, package: LockedPackage)
    ensures
        ({
            let r = with_package(packages, package);
            forall|i: int| 0 <= i < r.len() && (#[trigger] r[i]).name@ == package.name@ ==> i == r.len() - 1
        }),
{
    let f = without_package(packages, package.name@);
    let r = with_package(packages, package);
    assert forall|i: int| 0 <= i < r.len() && (#[trigger] r[i]).name@ == package.name@ implies i == r.len() - 1 by {
        if i < r.len() - 1 {
            assert(r[i] == f[i]);
            crate::seqs::lemma_filter_member(packages, not_named(package.name@), i);
        }
    }
}

/// Recording a package keeps lock files free of duplicate names.
pub proof fn law_add_package_keeps_names_distinct(packages: Seq<LockedPackage>, package: LockedPackage)
    requires
        names_distinct(packages),
    ensures
        names_distinct(with_package(packages, package)),
{
    let f = without_package(packages, package.name@);
    let r = with_package(packages, package);
    law_remove_package_keeps_names_distinct(packages, package.name@);
    law_add_package_single_entry(packages, package);
    assert forall|i: int, j: int|
        0 <= i < r.len() && 0 <= j < r.len() && i != j implies (#[trigger] r[i]).name@ != (#[trigger] r[j]).name@ by {
        if i < r.len() - 1 && j < r.len() - 1 {
            assert(r[i] == f[i] && r[j] == f[j]);
        }
    }
}

/// Removing a name keeps lock files free of duplicate names.
pub proof fn law_remove_package_keeps_names_distinct(packages: Seq<LockedPackage>, name: Seq<char>)
    requires
        names_distinct(packages),
    ensures
        names_distinct(without_package(packages, name)),
    decreases packages.len(),
{
    reveal_with_fuel(Seq::<_>::filter, 1);
    if packages.len() > 0 {
        let rest = packages.drop_last();
        assert forall|i: int, j: int|
            0 <= i < rest.len() && 0 <= j < rest.len() && i != j implies (#[trigger] rest[i]).name@ != (#[trigger] rest[j]).name@ by {
            assert(rest[i] == packages[i] && rest[j] == packages[j]);
        }
        law_remove_package_keeps_names_distinct(rest, name);
        let f = without_package(rest, name);
        let x = packages.last();
        if not_named(name)(x) {
            let r = f.push(x);
            assert forall|i: int, j: int|
                0 <= i < r.len() && 0 <= j < r.len() && i != j implies (#[trigger] r[i]).name@ != (#[trigger] r[j]).name@ by {
                if i < f.len() && j < f.len() {
                    assert(r[i] == f[i] && r[j] == f[j]);
                } else if i < f.len() {
                    assert(r[i] == f[i]);
                    crate::seqs::lemma_filter_member(rest, not_named(name), i);
                    let k = choose|k: int| 0 <= k < rest.len() && rest[k] == f[i];
                    assert(packages[k] == rest[k]);
                    assert(packages[packages.len() - 1] == x);
                } else if j < f.len() {
                    assert(r[j] == f[j]);
                    crate::seqs::lemma_filter_member(rest, not_named(name), j);
                    let k = choose|k: int| 0 <= k < rest.len() && rest[k] == f[j];
                    assert(packages[k] == rest[k]);
                    assert(packages[packages.len() - 1] == x);
                }
            }
        }
    }
}

/// After a name is removed, no package of that name is present.
pub proof fn law_remove_package_then_absent(packages: Seq<LockedPackage>, name: Seq<char>)
    ensures
        !has_package(without_package(packages, name), name),
{
    let f = without_package(packages, name);
    assert forall|i: int| 0 <= i < f.len() implies (#[trigger] f[i]).name@ != name by {
        crate::seqs::lemma_filter_member(packages, not_named(name), i);
    }
}

/// Removing one name leaves the presence of every other name as it was.
pub proof fn law_remove_package_keeps_others(packages: Seq<LockedPackage>, name: Seq<char>, other: Seq<char>)
    requires
        other != name,
    ensures
        has_package(without_package(packages, name), other) == has_package(packages, other),
{
    let f = without_package(packages, name);
    if has_package(packages, other) {
        let i = choose|i: int| 0 <= i < packages.len() && (#[trigger] packages[i]).name@ == other;
        crate::seqs::lemma_filter_keeps(packages, not_named(name), i);
    }
    if has_package(f, other) {
        let i = choose|i: int| 0 <= i < f.len() && (#[trigger] f[i]).name@ == other;
        crate::seqs::lemma_filter_member(packages, not_named(name), i);
    }
}

/// Recording a package leaves the presence of every other name as it was.
pub proof fn law_add_package_keeps_others(packages: Seq<LockedPackage>, package: LockedPackage, other: Seq<char>)
    requires
        other != package.name@,
    ensures
        has_package(with_package(packages, package), other) == has_package(packages, other),
{
    let f = without_package(packages, package.name@);
    let r = with_package(packages, package);
    law_remove_package_keeps_others(packages, package.name@, other);
    if has_package(f, other) {
        let i = choose|i: int| 0 <= i < f.len() && (#[trigger] f[i]).name@ == other;
        assert(r[i] == f[i]);
    }
    if has_package(r, other) {
        let i = choose|i: int| 0 <= i < r.len() && (#[trigger] r[i]).name@ == other;
        assert(r[i] == f[i]);
    }
}

/// Removing a name undoes recording a package of that name: what stays is what removing
/// the name alone leaves.
pub proof fn law_remove_undoes_add(packages: Seq<LockedPackage>, package: LockedPackage)
    ensures
        without_package(with_package(packages, package), package.name@) == without_package(packages, package.name@),
{
    let pred = not_named(package.name@);
    crate::seqs::lemma_filter_push(packages.filter(pred), package, pred);
    crate::seqs::lemma_filter_idempotent(packages, pred);
}

/// Removing a name that no package has changes nothing.
pub proof fn law_remove_absent_package_is_identity(packages: Seq<LockedPackage>, name: Seq<char>)
    requires
        !has_package(packages, name),
    ensures
        without_package(packages, name) == packages,
    decreases packages.len(),
{
    reveal_with_fuel(Seq::<_>::filter, 1);
    if packages.len() > 0 {
        let rest = packages.drop_last();
        assert forall|i: int| 0 <= i < rest.len() implies (#[trigger] rest[i]).name@ != name by {
            assert(rest[i] == packages[i]);
        }
        law_remove_absent_package_is_identity(rest, name);
        assert(packages.last() == packages[packages.len() - 1]);
        assert(rest.push(packages.last()) =~= packages);
    }
}

/// Removing a name twice removes it once.
pub proof fn law_remove_package_idempotent(packages: Seq<LockedPackage>, name: Seq<char>)
    ensures
        without_package(without_package(packages, name), name) == without_package(packages, name),
{
    crate::seqs::lemma_filter_idempotent(packages, not_named(name));
}

/// Recording one package twice records it once.
pub proof fn law_add_package_idempotent(packages: Seq<LockedPackage>, package: LockedPackage)
    ensures
        with_package(with_package(packages, package), package) == with_package(packages, package),
{
    law_remove_undoes_add(packages, package);
}

/// Removing two names gives the same lock file in either order.
pub proof fn law_remove_package_commutes(packages: Seq<LockedPackage>, a: Seq<char>, b: Seq<char>)
    ensures
        without_package(without_package(packages, a), b) == without_package(without_package(packages, b), a),
{
    crate::seqs::lemma_filter_commutes(packages, not_named(a), not_named(b));
}

impl Default for Lockfile {
    /// An empty lock file of format version 1.
    fn default() -> (r: Lockfile)
        ensures
            r.version == 1,
            r.package@.len() == 0,
    {
        Lockfile { version: 1, package: Vec::new() }
    }
}

impl Lockfile {
    /// Records `package`, replacing any package of the same name.
    pub fn add_package(&mut self, package: LockedPackage)
        ensures
            final(self).version == old(self).version,
            final(self).package@ == with_package(old(self).package@, package),
    {
        remove_named(&mut self.package, package.name.as_str());
        self.package.push(package);
    }

    /// Forgets every package named `name`.
    pub fn remove_package(&mut self, name: &str)
        ensures
            final(self).version == old(self).version,
            final(self).package@ == without_package(old(self).package@, name@),
    {
        remove_named(&mut self.package, name);
    }

    /// Whether a package named `name` is recorded.
    pub fn contains(&self, name: &str) -> (r: bool)
        ensures
            r == has_package(self.package@, name@),
    {
        let mut i: usize = 0;
        while i < self.package.len()
            invariant
                i <= self.package@.len(),
                forall|j: int| 0 <= j < i ==> (#[trigger] self.package@[j]).name@ != name@,
            decreases self.package@.len() - i,
        {
            if str_eq(self.package[i].name.as_str(), name) {
                return true;
            }
            i = i + 1;
        }
        false
    }
}

/// Whether the text read from a lock file stands for an empty lock file.
pub fn is_empty_lockfile_text(content: &str) -> (r: bool)
    ensures
        r == lockfile_text_is_empty(content@),
{
    let t = trimmed(content);
    if t.as_str().is_empty() {
        return true;
    }
    starts_with_char(content, '#')
}

/// Removes from `packages`, keeping the order of the rest, every package named `name`.
fn remove_named(packages: &mut Vec<LockedPackage>, name: &str)
    ensures
        final(packages)@ == without_package(old(packages)@, name@),
{
    let ghost orig = packages@;
    let ghost keep = not_named(name@);
    let mut i: usize = 0;
    let mut k: usize = 0;
    let n = packages.len();
    while k < n
        invariant
            n == orig.len(),
            keep == not_named(name@),
            i <= k <= orig.len(),
            packages@ == orig.take(k as int).filter(keep) + orig.skip(k as int),
            i == orig.take(k as int).filter(keep).len(),
        decreases n - k,
    {
        let ghost f = orig.take(k as int).filter(keep);
        proof {
            reveal_with_fuel(Seq::<_>::filter, 1);
            assert(orig.take(k + 1).drop_last() =~= orig.take(k as int));
            assert(orig.take(k + 1).last() == orig[k as int]);
            assert(orig.skip(k as int).drop_first() =~= orig.skip(k + 1));
            assert(packages@[i as int] == orig[k as int]);
        }
        let same = str_eq(packages[i].name.as_str(), name);
        assert(same == (orig[k as int].name@ == name@));
        if same {
            proof {
                reveal_with_fuel(Seq::<_>::filter, 1);
                assert(!keep(orig[k as int]));
                assert(orig.take(k + 1).filter(keep) == f);
            }
            packages.remove(i);
            assert(packages@ =~= f + orig.skip(k + 1));
        } else {
            proof {
                reveal_with_fuel(Seq::<_>::filter, 1);
                assert(keep(orig[k as int]));
                assert(orig.take(k + 1).filter(keep) == f.push(orig[k as int]));
            }
            i = i + 1;
            assert(packages@ =~= f.push(orig[k as int]) + orig.skip(k + 1));
        }
        k = k + 1;
    }
    assert(orig.take(orig.len() as int) =~= orig);
    assert(packages@ =~= orig.filter(keep));
}

} // verus!
