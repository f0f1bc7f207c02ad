use cakeman::error::CakeError;
use cakeman::manifest::{Manifest, Package};

fn manifest(repository: &str, deps: &[(&str, &str)]) -> Manifest {
    Manifest {
        package: Package {
            name: "demo".to_string(),
            version: "0.1.0".to_string(),
            repository: repository.to_string(),
            package_type: None,
            language: None,
        },
        dependencies: deps.iter().map(|(n, v)| (n.to_string(), v.to_string())).collect(),
    }
}

#[test]
fn validate_requires_a_repository() {
    assert_eq!(manifest("", &[]).validate(), Err(CakeError::MissingRepository));
    assert_eq!(manifest(" \t\n", &[]).validate(), Err(CakeError::MissingRepository));
    assert_eq!(manifest("https://github.com/x/y", &[]).validate(), Ok(()));
    assert_eq!(manifest("  x  ", &[]).validate(), Ok(()));
}

#[test]
fn insert_new_dependency_appends() {
    let mut m = manifest("r", &[("a", "1")]);
    m.insert_dependency("b".to_string(), "2".to_string());
    assert_eq!(m.dependencies, vec![("a".to_string(), "1".to_string()), ("b".to_string(), "2".to_string())]);
    assert!(m.has_dependency("b"));
}

#[test]
fn insert_existing_dependency_updates_in_place() {
    let mut m = manifest("r", &[("a", "1"), ("b", "2")]);
    m.insert_dependency("a".to_string(), "3".to_string());
    assert_eq!(m.dependencies, vec![("a".to_string(), "3".to_string()), ("b".to_string(), "2".to_string())]);
}

#[test]
fn remove_dependency_then_unlisted() {
    let mut m = manifest("r", &[("a", "1"), ("b", "2")]);
    m.remove_dependency("a");
    assert!(!m.has_dependency("a"));
    assert!(m.has_dependency("b"));
    m.remove_dependency("zzz");
    assert_eq!(m.dependencies.len(), 1);
}

#[test]
fn remove_undoes_insert_of_new_name() {
    let mut m = manifest("r", &[("a", "1")]);
    m.insert_dependency("b".to_string(), "2".to_string());
    m.remove_dependency("b");
    assert_eq!(m.dependencies, vec![("a".to_string(), "1".to_string())]);
}
