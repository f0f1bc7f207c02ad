use cakeman::auth::{token, AuthConfig};
use cakeman::commands::add::{needs_registry, record_from_registry, record_version};
use cakeman::commands::authenticate::{poll_interval, poll_outcome, PollOutcome};
use cakeman::commands::build_project::{build_dir, link_dependencies, profile};
use cakeman::commands::install::{install_action, record_install, InstallAction, InstallRun};
use cakeman::commands::pack::{cakepak_file_name, should_skip, staging_dir_name};
use cakeman::commands::publish::{fork_url, plan, plan_from_manifest, prepare};
use cakeman::commands::set_type::{check_package_type, set_package_type};
use cakeman::commands::uninstall::check_dependents;
use cakeman::commands::{init, remove};
use cakeman::dependency::{
    after_clone_step, include_dir, package_path, packages_to_prepare, version_tag, CloneAction, CloneStep,
};
use cakeman::error::CakeError;
use cakeman::installed::{Installed, InstalledPackage};
use cakeman::lockfile::{LockedPackage, Lockfile};
use cakeman::manifest::{Manifest, Package};

fn manifest(deps: &[(&str, &str)]) -> Manifest {
    Manifest {
        package: Package {
            name: "demo".to_string(),
            version: "0.1.0".to_string(),
            repository: "r".to_string(),
            package_type: None,
            language: None,
        },
        dependencies: deps.iter().map(|(n, v)| (n.to_string(), v.to_string())).collect(),
    }
}

fn lockfile(names: &[&str]) -> Lockfile {
    Lockfile {
        version: 1,
        package: names
            .iter()
            .map(|n| LockedPackage { name: n.to_string(), version: "1".to_string(), repository: "r".to_string() })
            .collect(),
    }
}

fn registry_text(version: &str) -> String {
    format!("[package]\nname = \"x\"\nversion = \"{}\"\nrepository = \"r\"\n", version)
}

#[test]
fn add_records_resolved_version() {
    let mut m = manifest(&[]);
    assert_eq!(record_from_registry(&mut m, "fmt", None, &registry_text("10.1.0")), Ok(Some("10.1.0".to_string())));
    assert_eq!(record_from_registry(&mut m, "log", Some("latest"), &registry_text("2.0")), Ok(Some("2.0".to_string())));
    assert_eq!(record_from_registry(&mut m, "tls", Some("1.0"), &registry_text("2.0")), Ok(Some("1.0".to_string())));
    assert_eq!(
        m.dependencies,
        vec![
            ("fmt".to_string(), "10.1.0".to_string()),
            ("log".to_string(), "2.0".to_string()),
            ("tls".to_string(), "1.0".to_string())
        ]
    );
}

#[test]
fn add_skips_a_listed_dependency() {
    let mut m = manifest(&[("fmt", "9.0")]);
    assert!(!needs_registry(&m, "fmt"));
    assert!(needs_registry(&m, "log"));
    assert_eq!(record_from_registry(&mut m, "fmt", Some("10.0"), &registry_text("11.0")), Ok(None));
    assert_eq!(m.dependencies, vec![("fmt".to_string(), "9.0".to_string())]);
}

#[test]
fn add_without_registry_version_fails() {
    let mut m = manifest(&[("a", "1")]);
    let r = record_from_registry(&mut m, "bad", None, "[package]\nname = \"bad\"\n");
    assert_eq!(r, Err(CakeError::InvalidRegistryManifest("bad".to_string())));
    let r = record_from_registry(&mut m, "bad", None, "[package]\nversion = 3\n");
    assert_eq!(r, Err(CakeError::InvalidRegistryManifest("bad".to_string())));
    let r = record_from_registry(&mut m, "bad", None, "version = \"1.0\"\n");
    assert_eq!(r, Err(CakeError::InvalidRegistryManifest("bad".to_string())));
    assert_eq!(m.dependencies.len(), 1);
}

#[test]
fn add_with_broken_registry_text_fails_with_the_parser_message() {
    let mut m = manifest(&[]);
    let text = "[package\nversion = ";
    let expected = toml::from_str::<toml::Value>(text).unwrap_err().to_string();
    assert_eq!(record_from_registry(&mut m, "x", None, text), Err(CakeError::InvalidToml(expected.clone())));
    assert_eq!(CakeError::InvalidToml(expected.clone()).message(), expected);
    assert!(m.dependencies.is_empty());
}

#[test]
fn remove_command() {
    let mut m = manifest(&[("a", "1"), ("b", "2")]);
    assert!(remove::execute(&mut m, "a"));
    assert_eq!(m.dependencies, vec![("b".to_string(), "2".to_string())]);
    assert!(!remove::execute(&mut m, "a"));
    assert_eq!(m.dependencies.len(), 1);
}

#[test]
fn uninstall_refuses_required_packages() {
    let installed = Installed {
        version: 1,
        package: vec![
            InstalledPackage { name: "zlib".into(), version: "1".into(), dependencies: vec![] },
            InstalledPackage { name: "png".into(), version: "1".into(), dependencies: vec!["zlib".into()] },
            InstalledPackage { name: "gif".into(), version: "1".into(), dependencies: vec!["zlib".into()] },
        ],
    };
    let err = check_dependents(&installed, "zlib").unwrap_err();
    assert_eq!(err, CakeError::RequiredBy("zlib".into(), vec!["png".into(), "gif".into()]));
    assert_eq!(err.message(), "zlib is required by: png, gif");
    assert_eq!(check_dependents(&installed, "png"), Ok(()));
}

#[test]
fn set_type_accepts_two_types() {
    assert_eq!(check_package_type("library"), Ok(()));
    assert_eq!(check_package_type("binary"), Ok(()));
    assert_eq!(check_package_type("Library"), Err(CakeError::InvalidPackageType));
    assert_eq!(check_package_type(""), Err(CakeError::InvalidPackageType));
}

#[test]
fn init_messages() {
    assert_eq!(init::execute(Some("hello")), "Creating project: hello");
    assert_eq!(init::execute(None), "Creating project in current directory");
}

#[test]
fn build_helpers() {
    assert_eq!(profile(true), "release");
    assert_eq!(profile(false), "debug");
    let l = lockfile(&["demo", "fmt", "zlib", "demo"]);
    assert_eq!(link_dependencies(&l, "demo"), vec!["fmt".to_string(), "zlib".to_string()]);
    assert_eq!(packages_to_prepare(&l, "demo"), vec![1, 2]);
    assert_eq!(packages_to_prepare(&l, "other"), vec![0, 1, 2, 3]);
}

#[test]
fn clone_steps() {
    assert_eq!(version_tag("1.2.0"), "v1.2.0");
    assert_eq!(after_clone_step(CloneStep::Clone, true, "r", "1"), CloneAction::Run(CloneStep::CheckoutTag));
    assert_eq!(
        after_clone_step(CloneStep::Clone, false, "repo", "1"),
        CloneAction::Fail(CakeError::CloneFailed("repo".into()))
    );
    assert_eq!(after_clone_step(CloneStep::CheckoutTag, true, "r", "1"), CloneAction::Done);
    assert_eq!(
        after_clone_step(CloneStep::CheckoutTag, false, "r", "1"),
        CloneAction::Run(CloneStep::CheckoutVersion)
    );
    assert_eq!(after_clone_step(CloneStep::CheckoutVersion, true, "r", "1"), CloneAction::Done);
    assert_eq!(
        after_clone_step(CloneStep::CheckoutVersion, false, "r", "1.9"),
        CloneAction::Fail(CakeError::VersionNotFound("1.9".into()))
    );
}

#[test]
fn install_decisions() {
    let mut installed = Installed::default();
    record_install(&mut installed, "zlib", "1.3", vec!["m".to_string()]);
    assert_eq!(installed.package.len(), 1);
    assert_eq!(installed.package[0].version, "1.3");
    assert_eq!(installed.package[0].dependencies, vec!["m".to_string()]);
    let session = vec!["png".to_string()];
    assert_eq!(install_action(&session, &installed, "png"), InstallAction::Skip);
    assert_eq!(install_action(&session, &installed, "zlib"), InstallAction::AlreadyInstalled);
    assert_eq!(install_action(&session, &installed, "gif"), InstallAction::Install);
}

#[test]
fn pack_names() {
    for skipped in [".git", "build", ".cake", ".cakepak", "target", ".DS_Store"] {
        assert!(should_skip(skipped));
    }
    assert!(!should_skip("src"));
    assert!(!should_skip(".gitignore"));
    assert_eq!(cakepak_file_name("demo", "0.1.0"), "demo-0.1.0.cmpak");
    assert_eq!(staging_dir_name(4242, 1700000000123456789), "cman-cakepack-4242-1700000000123456789");
}

#[test]
fn publish_plan() {
    let p = plan("Fmt", "alice", 1725029869, "[package]\nname = \"Fmt\"\n").unwrap();
    assert_eq!(p.letter, 'f');
    assert_eq!(fork_url("alice"), "https://github.com/alice/cakes.git");
    assert_eq!(p.manifest_path, "manifests/f/Fmt/Cake.toml");
    assert_eq!(
        format!("https://raw.githubusercontent.com/beaglesoftware/cakes/main/{}", p.manifest_path),
        cakeman::registry::manifest_url("Fmt").unwrap()
    );
    assert_eq!(p.branch, "add-Fmt-1725029869");
    assert_eq!(p.head_ref, "refs/heads/add-Fmt-1725029869");
    assert_eq!(p.commit_message, "Add Fmt package");
    assert_eq!(p.email, "alice@users.noreply.github.com");
    assert_eq!(p.refspec, "refs/heads/add-Fmt-1725029869:refs/heads/add-Fmt-1725029869");
    assert_eq!(p.title, "Add Fmt");
    assert_eq!(p.head, "alice:add-Fmt-1725029869");
    assert_eq!(p.base, "main");
    assert_eq!(p.content, "[package]\nname = \"Fmt\"\n");
    assert!(matches!(plan("", "alice", 1, ""), Err(CakeError::InvalidPackageName)));
}

#[test]
fn device_flow_answers() {
    assert_eq!(poll_interval(Some(9)), 9);
    assert_eq!(poll_interval(None), 5);
    assert_eq!(poll_outcome(Some("tok".into()), None), PollOutcome::Token("tok".into()));
    assert_eq!(poll_outcome(Some("tok".into()), Some("slow_down".into())), PollOutcome::Token("tok".into()));
    assert_eq!(poll_outcome(None, Some("authorization_pending".into())), PollOutcome::Wait(0));
    assert_eq!(poll_outcome(None, Some("slow_down".into())), PollOutcome::Wait(5));
    assert_eq!(
        poll_outcome(None, Some("expired_token".into())),
        PollOutcome::Fail(CakeError::AuthenticationFailed("expired_token".into()))
    );
    assert_eq!(poll_outcome(None, None), PollOutcome::Fail(CakeError::UnknownAuthenticationError));
}

#[test]
fn stored_token() {
    assert_eq!(token(Some(AuthConfig { github_token: "t".into() })), Ok("t".to_string()));
    assert_eq!(token(None), Err(CakeError::NotAuthenticated));
}


#[test]
fn publish_plan_from_manifest_text() {
    let text = "[package]\nname = \"zlib\"\nversion = \"1.3\"\nrepository = \"r\"\n";
    let p = plan_from_manifest(text, "bob", 7).unwrap();
    assert_eq!(p.branch, "add-zlib-7");
    assert_eq!(p.manifest_path, "manifests/z/zlib/Cake.toml");
    assert_eq!(p.content, text);
    assert_eq!(plan_from_manifest("name = \"x\"\n", "bob", 7).unwrap_err(), CakeError::MissingPackageTable);
    assert_eq!(plan_from_manifest("[package]\nversion = \"1\"\n", "bob", 7).unwrap_err(), CakeError::MissingPackageName);
    assert_eq!(plan_from_manifest("package = 3\n", "bob", 7).unwrap_err(), CakeError::MissingPackageName);
    assert_eq!(plan_from_manifest("[package]\nname = \"\"\n", "bob", 7).unwrap_err(), CakeError::InvalidPackageName);
    assert!(matches!(plan_from_manifest("[package", "bob", 7), Err(CakeError::InvalidToml(_))));
    assert_eq!(CakeError::MissingPackageTable.message(), "Missing [package]");
    assert_eq!(CakeError::MissingPackageName.message(), "Missing package name");
}

#[test]
fn publish_prepare_checks_the_repository_first() {
    let text = "[package]\nname = \"Zlib\"\nversion = \"1.3\"\nrepository = \"r\"\n";
    let p = prepare(&manifest(&[]), text, "bob", 42).unwrap();
    assert_eq!(p.letter, 'z');
    assert_eq!(p.manifest_path, "manifests/z/Zlib/Cake.toml");
    assert_eq!(p.branch, "add-Zlib-42");
    assert_eq!(p.title, "Add Zlib");
    assert_eq!(p.head, "bob:add-Zlib-42");
    assert_eq!(p.base, "main");
    assert_eq!(p.content, text);
    let mut blank = manifest(&[]);
    blank.package.repository = "  \t".to_string();
    assert_eq!(prepare(&blank, text, "bob", 42).unwrap_err(), CakeError::MissingRepository);
    assert_eq!(prepare(&blank, "[package", "bob", 42).unwrap_err(), CakeError::MissingRepository);
    assert!(matches!(prepare(&manifest(&[]), "[package", "bob", 42), Err(CakeError::InvalidToml(_))));
    assert_eq!(prepare(&manifest(&[]), "[package]\nname = \"\"\n", "bob", 42).unwrap_err(), CakeError::InvalidPackageName);
}

#[test]
fn set_type_edits_the_document() {
    let text = "[package]\nname = \"demo\" # the name\nversion = \"0.1.0\"\n";
    let mut doc = text.parse::<toml_edit::DocumentMut>().unwrap();
    doc["package"]["type"] = toml_edit::value("library");
    assert_eq!(set_package_type(text, "library"), Ok(doc.to_string()));
    assert!(set_package_type(text, "library").unwrap().contains("type = \"library\""));
    assert!(set_package_type(text, "library").unwrap().contains("# the name"));
    assert_eq!(set_package_type(text, "plugin"), Err(CakeError::InvalidPackageType));
    assert_eq!(set_package_type("package = 3\n", "binary"), Err(CakeError::PackageNotATable));
    assert!(matches!(set_package_type("[package", "binary"), Err(CakeError::InvalidToml(_))));
    let added = set_package_type("", "binary").unwrap();
    assert!(added.contains("binary"));
}

#[test]
fn install_run_skips_what_it_installed() {
    let installed = Installed::default();
    let mut run = InstallRun::new();
    assert_eq!(run.action(&installed, "zlib"), InstallAction::Install);
    assert!(!run.already_done("zlib"));
    run.mark_installed("zlib");
    run.mark_installed("png");
    assert!(run.already_done("zlib"));
    assert_eq!(run.action(&installed, "zlib"), InstallAction::Skip);
    assert_eq!(run.action(&installed, "gif"), InstallAction::Install);
}

#[test]
fn project_paths() {
    assert_eq!(package_path("zlib"), ".cake/packages/zlib");
    assert_eq!(include_dir("zlib"), ".cake/packages/zlib/include");
    assert_eq!(build_dir(true), ".cake/build/release");
    assert_eq!(build_dir(false), ".cake/build/debug");
    assert_eq!(package_path("zlib"), std::path::Path::new(".cake/packages").join("zlib").to_string_lossy());
    assert_eq!(cakeman::text::join_path("a/", "b"), "a/b");
    assert_eq!(cakeman::text::join_path("", "b"), "b");
    assert_eq!(cakeman::text::join_path("a", "/abs"), "/abs");
}

#[test]
fn record_version_from_a_lookup() {
    let mut m = manifest(&[("a", "1")]);
    assert_eq!(record_version(&mut m, "a", None, Ok(Some("9".into()))), Ok(None));
    assert_eq!(record_version(&mut m, "b", None, Err("broken".into())), Err(CakeError::InvalidToml("broken".into())));
    assert_eq!(record_version(&mut m, "b", None, Ok(None)), Err(CakeError::InvalidRegistryManifest("b".into())));
    assert_eq!(m.dependencies.len(), 1);
    assert_eq!(record_version(&mut m, "b", Some("latest"), Ok(Some("2.0".into()))), Ok(Some("2.0".into())));
    assert_eq!(record_version(&mut m, "c", Some("0.3"), Ok(Some("2.0".into()))), Ok(Some("0.3".into())));
    assert_eq!(
        m.dependencies,
        vec![("a".into(), "1".into()), ("b".into(), "2.0".into()), ("c".into(), "0.3".into())]
    );
}
