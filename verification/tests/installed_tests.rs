use cakeman::installed::{contains_str, Installed, InstalledPackage};

fn ip(name: &str, deps: &[&str]) -> InstalledPackage {
    InstalledPackage {
        name: name.to_string(),
        version: "1.0.0".to_string(),
        dependencies: deps.iter().map(|d| d.to_string()).collect(),
    }
}

#[test]
fn default_record_is_empty() {
    let i = Installed::default();
    assert_eq!(i.version, 1);
    assert!(i.package.is_empty());
}

#[test]
fn add_then_contains_and_replaces() {
    let mut i = Installed::default();
    i.add(ip("zlib", &[]));
    i.add(ip("png", &["zlib"]));
    i.add(InstalledPackage { name: "zlib".to_string(), version: "2".to_string(), dependencies: vec![] });
    assert!(i.contains("zlib"));
    assert!(i.contains("png"));
    assert!(!i.contains("jpeg"));
    let names: Vec<&str> = i.package.iter().map(|p| p.name.as_str()).collect();
    assert_eq!(names, vec!["png", "zlib"]);
    assert_eq!(i.package[1].version, "2");
}

#[test]
fn remove_then_absent() {
    let mut i = Installed { version: 1, package: vec![ip("a", &[]), ip("b", &["a"])] };
    i.remove("a");
    assert!(!i.contains("a"));
    assert!(i.contains("b"));
    i.remove("missing");
    assert_eq!(i.package.len(), 1);
}

#[test]
fn dependents_lists_packages_that_depend_in_order() {
    let i = Installed {
        version: 1,
        package: vec![ip("a", &[]), ip("b", &["a"]), ip("c", &["x", "a"]), ip("d", &["b"])],
    };
    assert_eq!(i.dependents("a"), vec!["b".to_string(), "c".to_string()]);
    assert_eq!(i.dependents("b"), vec!["d".to_string()]);
    assert!(i.dependents("d").is_empty());
    assert!(i.dependents("").is_empty());
}

#[test]
fn contains_str_compares_whole_strings() {
    let v = vec!["abc".to_string(), "de".to_string()];
    assert!(contains_str(&v, "de"));
    assert!(!contains_str(&v, "ab"));
    assert!(!contains_str(&Vec::new(), ""));
}
