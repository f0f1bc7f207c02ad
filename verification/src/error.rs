//! The errors of the library.

use vstd::prelude::*;
use vstd::string::StringExecFns;
use crate::text::{join, join_seq, string_views};

verus! {

/// Why an operation of the package manager failed.
#[derive(Debug, PartialEq, Eq)]
pub enum CakeError {
    /// The manifest names no repository.
    MissingRepository,
    /// No GitHub token has been stored.
    NotAuthenticated,
    /// A package name was empty where the registry needs one.
    EmptyPackageName,
    /// A package name was empty where a manifest is published.
    InvalidPackageName,
    /// The registry holds no package of this name.
    PackageNotFound(String),
    /// The registry's manifest of this package has no version.
    InvalidRegistryManifest(String),
    /// The package (first) is required by the installed packages (second).
    RequiredBy(String, Vec<String>),
    /// This package is not installed.
    NotInstalled(String),
    /// The package type was neither `library` nor `binary`.
    InvalidPackageType,
    /// Cloning this repository failed.
    CloneFailed(String),
    /// Neither `v<version>` nor `<version>` could be checked out.
    VersionNotFound(String),
    /// GitHub answered the device flow with this error code.
    AuthenticationFailed(String),
    /// GitHub answered the device flow with neither a token nor an error.
    UnknownAuthenticationError,
    /// A text was not TOML; the parser's message.
    InvalidToml(String),
    /// A manifest has no `[package]` table.
    MissingPackageTable,
    /// A manifest's `[package]` table has no string `name`.
    MissingPackageName,
    /// A manifest's `package` entry is neither a table nor an inline table.
    PackageNotATable,
}

/// The message shown for an error.
pub open spec fn error_message(e: CakeError) -> Seq<char> {
    match e {
        CakeError::MissingRepository => "Package repository is required"@,
        CakeError::NotAuthenticated => "Not authenticated. Run `cakeman auth` first."@,
        CakeError::EmptyPackageName => "Package name cannot be empty"@,
        CakeError::InvalidPackageName => "Invalid package name"@,
        CakeError::PackageNotFound(name) => "Package '"@ + name@ + "' was not found in registry"@,
        CakeError::InvalidRegistryManifest(name) => "Invalid registry manifest for "@ + name@,
        CakeError::RequiredBy(name, dependents) => name@ + " is required by: "@ + join_seq(
            string_views(dependents@),
            ", "@,
        ),
        CakeError::NotInstalled(name) => "Package '"@ + name@ + "' is not installed"@,
        CakeError::InvalidPackageType => "Type must be library or binary"@,
        CakeError::CloneFailed(repository) => "Failed to clone "@ + repository@,
        CakeError::VersionNotFound(version) => "Version "@ + version@ + " not found"@,
        CakeError::AuthenticationFailed(code) => "GitHub authentication failed: "@ + code@,
        CakeError::UnknownAuthenticationError => "Unknown GitHub authentication error"@,
        CakeError::InvalidToml(message) => message@,
        CakeError::MissingPackageTable => "Missing [package]"@,
        CakeError::MissingPackageName => "Missing package name"@,
        CakeError::PackageNotATable => "The package entry is not a table"@,
    }
}

impl CakeError {
    /// The message shown for this error.
    pub fn message(&self) -> (r: String)
        ensures
            r@ == error_message(*self),
    {
        match self {
            CakeError::MissingRepository => String::from_str("Package repository is required"),
            CakeError::NotAuthenticated => String::from_str("Not authenticated. Run `cakeman auth` first."),
            CakeError::EmptyPackageName => String::from_str("Package name cannot be empty"),
            CakeError::InvalidPackageName => String::from_str("Invalid package name"),
            CakeError::PackageNotFound(name) => {
                let mut s = String::from_str("Package '");
                s.append(name.as_str());
                s.append("' was not found in registry");
                s
            },
            CakeError::InvalidRegistryManifest(name) => {
                let mut s = String::from_str("Invalid registry manifest for ");
                s.append(name.as_str());
                s
            },
            CakeError::RequiredBy(name, dependents) => {
                let list = join(dependents.as_slice(), ", ");
                let mut s = String::from_str(name.as_str());
                s.append(" is required by: ");
                s.append(list.as_str());
                s
            },
            CakeError::NotInstalled(name) => {
                let mut s = String::from_str("Package '");
                s.append(name.as_str());
                s.append("' is not installed");
                s
            },
            CakeError::InvalidPackageType => String::from_str("Type must be library or binary"),
            CakeError::CloneFailed(repository) => {
                let mut s = String::from_str("Failed to clone ");
                s.append(repository.as_str());
                s
            },
            CakeError::VersionNotFound(version) => {
                let mut s = String::from_str("Version ");
                s.append(version.as_str());
                s.append(" not found");
                s
            },
            CakeError::AuthenticationFailed(code) => {
                let mut s = String::from_str("GitHub authentication failed: ");
                s.append(code.as_str());
                s
            },
            CakeError::UnknownAuthenticationError => String::from_str("Unknown GitHub authentication error"),
            CakeError::InvalidToml(message) => String::from_str(message.as_str()),
            CakeError::MissingPackageTable => String::from_str("Missing [package]"),
            CakeError::MissingPackageName => String::from_str("Missing package name"),
            CakeError::PackageNotATable => String::from_str("The package entry is not a table"),
        }
    }
}

} // verus!
