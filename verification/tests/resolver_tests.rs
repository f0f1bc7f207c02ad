use cakeman::lockfile::{LockedPackage, Lockfile};
use cakeman::registry::{first_letter, manifest_url};
use cakeman::resolver::{resolved_version, CakeManifest, CakePackage, Resolver};
use cakeman::error::CakeError;

fn cake(name: &str, version: &str, deps: &[(&str, &str)]) -> CakeManifest {
    CakeManifest {
        package: CakePackage {
            name: name.to_string(),
            version: version.to_string(),
            repository: format!("https://github.com/x/{}.git", name),
        },
        dependencies: deps.iter().map(|(n, v)| (n.to_string(), v.to_string())).collect(),
    }
}

fn registry(name: &str) -> CakeManifest {
    match name {
        "app" => cake("app", "1.0.0", &[("net", "2.0.0"), ("log", "latest")]),
        "net" => cake("net", "3.0.0", &[("log", "0.9.0"), ("tls", "1.1.0")]),
        "log" => cake("log", "0.5.0", &[]),
        "tls" => cake("tls", "1.2.0", &[("net", "3.0.0")]),
        "a" => cake("a", "1", &[("b", "1")]),
        "b" => cake("b", "1", &[("a", "1")]),
        _ => panic!("unknown package {}", name),
    }
}

fn run(resolver: &mut Resolver, name: &str, version: Option<&str>, lockfile: &mut Lockfile) -> Vec<String> {
    let mut fetched = Vec::new();
    resolver.start(name, version);
    while let Some((n, v)) = resolver.next_request() {
        fetched.push(n.clone());
        let m = registry(&n);
        resolver.apply_manifest(&n, v.as_deref(), &m, lockfile);
    }
    fetched
}

#[test]
fn resolved_version_rules() {
    assert_eq!(resolved_version(Some("1.0"), "2.0"), "1.0");
    assert_eq!(resolved_version(Some("latest"), "2.0"), "2.0");
    assert_eq!(resolved_version(None, "2.0"), "2.0");
    assert_eq!(resolved_version(Some("Latest"), "2.0"), "Latest");
}

#[test]
fn resolution_visits_depth_first_and_fetches_each_package_once() {
    let mut lockfile = Lockfile::default();
    let mut resolver = Resolver::new();
    let fetched = run(&mut resolver, "app", None, &mut lockfile);
    assert_eq!(fetched, vec!["app", "net", "log", "tls"]);
    let locked: Vec<(String, String)> =
        lockfile.package.iter().map(|p| (p.name.clone(), p.version.clone())).collect();
    assert_eq!(
        locked,
        vec![
            ("app".to_string(), "1.0.0".to_string()),
            ("net".to_string(), "2.0.0".to_string()),
            ("log".to_string(), "0.9.0".to_string()),
            ("tls".to_string(), "1.1.0".to_string()),
        ]
    );
    assert_eq!(lockfile.package[1].repository, "https://github.com/x/net.git");
}

#[test]
fn visited_packages_stay_visited_across_resolutions() {
    let mut lockfile = Lockfile::default();
    let mut resolver = Resolver::new();
    run(&mut resolver, "log", Some("0.1.0"), &mut lockfile);
    assert!(resolver.visited("log"));
    let fetched = run(&mut resolver, "app", None, &mut lockfile);
    assert_eq!(fetched, vec!["app", "net", "tls"]);
}

#[test]
fn locked_packages_keep_their_version() {
    let mut lockfile = Lockfile::default();
    lockfile.add_package(LockedPackage {
        name: "log".to_string(),
        version: "0.0.1".to_string(),
        repository: "old".to_string(),
    });
    let mut resolver = Resolver::new();
    run(&mut resolver, "log", Some("9.9.9"), &mut lockfile);
    assert_eq!(lockfile.package.len(), 1);
    assert_eq!(lockfile.package[0].version, "0.0.1");
    assert_eq!(lockfile.package[0].repository, "old");
}

#[test]
fn new_resolver_has_nothing_to_fetch() {
    let mut resolver = Resolver::new();
    assert!(resolver.next_request().is_none());
    assert!(!resolver.visited("x"));
}

#[test]
fn registry_addresses() {
    assert_eq!(
        manifest_url("Fmt").unwrap(),
        "https://raw.githubusercontent.com/beaglesoftware/cakes/main/manifests/f/Fmt/Cake.toml"
    );
    assert_eq!(
        manifest_url("zlib").unwrap(),
        "https://raw.githubusercontent.com/beaglesoftware/cakes/main/manifests/z/zlib/Cake.toml"
    );
    assert_eq!(manifest_url(""), Err(CakeError::EmptyPackageName));
    assert_eq!(first_letter("Éclair"), Some('É'));
    assert_eq!(first_letter("9lives"), Some('9'));
    assert_eq!(first_letter(""), None);
}

#[test]
fn dependency_cycles_end_and_lock_each_package_once() {
    let mut lockfile = Lockfile::default();
    lockfile.add_package(LockedPackage { name: "old".into(), version: "1".into(), repository: "r".into() });
    let mut resolver = Resolver::new();
    let fetched = run(&mut resolver, "a", None, &mut lockfile);
    assert_eq!(fetched, vec!["a", "b"]);
    let names: Vec<&str> = lockfile.package.iter().map(|p| p.name.as_str()).collect();
    assert_eq!(names, vec!["old", "a", "b"]);
    assert!(resolver.next_request().is_none());
}
