use cakeman::lockfile::{is_empty_lockfile_text, LockedPackage, Lockfile};

fn pkg(name: &str, version: &str) -> LockedPackage {
    LockedPackage {
        name: name.to_string(),
        version: version.to_string(),
        repository: format!("https://example.com/{}.git", name),
    }
}

fn names(l: &Lockfile) -> Vec<String> {
    l.package.iter().map(|p| p.name.clone()).collect()
}

#[test]
fn default_lockfile_is_empty_version_one() {
    let l = Lockfile::default();
    assert_eq!(l.version, 1);
    assert!(l.package.is_empty());
}

#[test]
fn add_package_then_contains() {
    let mut l = Lockfile::default();
    assert!(!l.contains("fmt"));
    l.add_package(pkg("fmt", "10.0.0"));
    assert!(l.contains("fmt"));
    assert!(!l.contains("spdlog"));
}

#[test]
fn add_package_replaces_same_name_and_moves_it_last() {
    let mut l = Lockfile::default();
    l.add_package(pkg("a", "1"));
    l.add_package(pkg("b", "1"));
    l.add_package(pkg("a", "2"));
    assert_eq!(names(&l), vec!["b", "a"]);
    assert_eq!(l.package[1].version, "2");
}

#[test]
fn add_package_twice_is_once() {
    let mut l = Lockfile::default();
    l.add_package(pkg("a", "1"));
    l.add_package(pkg("a", "1"));
    assert_eq!(l.package.len(), 1);
}

#[test]
fn remove_package_removes_every_entry_of_name() {
    let mut l = Lockfile {
        version: 1,
        package: vec![pkg("a", "1"), pkg("b", "1"), pkg("a", "2"), pkg("c", "1")],
    };
    l.remove_package("a");
    assert_eq!(names(&l), vec!["b", "c"]);
    assert!(!l.contains("a"));
    l.remove_package("a");
    assert_eq!(names(&l), vec!["b", "c"]);
}

#[test]
fn remove_undoes_add() {
    let mut l = Lockfile { version: 3, package: vec![pkg("x", "1"), pkg("y", "1")] };
    l.add_package(pkg("z", "1"));
    l.remove_package("z");
    assert_eq!(names(&l), vec!["x", "y"]);
    assert_eq!(l.version, 3);
}

#[test]
fn remove_keeps_other_packages_in_order() {
    let mut l = Lockfile { version: 1, package: vec![pkg("x", "1"), pkg("y", "2"), pkg("z", "3")] };
    l.remove_package("y");
    assert_eq!(names(&l), vec!["x", "z"]);
    assert_eq!(l.package[1].version, "3");
}

#[test]
fn remove_in_either_order() {
    let base = vec![pkg("x", "1"), pkg("y", "2"), pkg("z", "3")];
    let mut l1 = Lockfile { version: 1, package: base.clone() };
    let mut l2 = Lockfile { version: 1, package: base };
    l1.remove_package("x");
    l1.remove_package("z");
    l2.remove_package("z");
    l2.remove_package("x");
    assert_eq!(names(&l1), names(&l2));
}

#[test]
fn empty_lockfile_texts() {
    assert!(is_empty_lockfile_text(""));
    assert!(is_empty_lockfile_text("   \n\t  \r\n"));
    assert!(is_empty_lockfile_text("# generated by cakeman\n"));
    assert!(is_empty_lockfile_text("\u{a0}\u{3000}"));
    assert!(!is_empty_lockfile_text("version = 1\n"));
    assert!(!is_empty_lockfile_text("  # not first\n"));
}
