use cakeman::error::CakeError;

#[test]
fn error_messages() {
    assert_eq!(CakeError::MissingRepository.message(), "Package repository is required");
    assert_eq!(CakeError::NotAuthenticated.message(), "Not authenticated. Run `cakeman auth` first.");
    assert_eq!(CakeError::EmptyPackageName.message(), "Package name cannot be empty");
    assert_eq!(CakeError::InvalidPackageName.message(), "Invalid package name");
    assert_eq!(CakeError::PackageNotFound("x".into()).message(), "Package 'x' was not found in registry");
    assert_eq!(CakeError::InvalidRegistryManifest("x".into()).message(), "Invalid registry manifest for x");
    assert_eq!(CakeError::RequiredBy("x".into(), vec!["a".into()]).message(), "x is required by: a");
    assert_eq!(CakeError::NotInstalled("x".into()).message(), "Package 'x' is not installed");
    assert_eq!(CakeError::InvalidPackageType.message(), "Type must be library or binary");
    assert_eq!(CakeError::CloneFailed("u".into()).message(), "Failed to clone u");
    assert_eq!(CakeError::VersionNotFound("1".into()).message(), "Version 1 not found");
    assert_eq!(CakeError::AuthenticationFailed("c".into()).message(), "GitHub authentication failed: c");
    assert_eq!(CakeError::UnknownAuthenticationError.message(), "Unknown GitHub authentication error");
    assert_eq!(CakeError::InvalidToml("bad".into()).message(), "bad");
    assert_eq!(CakeError::MissingPackageTable.message(), "Missing [package]");
    assert_eq!(CakeError::MissingPackageName.message(), "Missing package name");
    assert_eq!(CakeError::PackageNotATable.message(), "The package entry is not a table");
}
