//! `add`: adding dependencies to the manifest.

use vstd::prelude::*;
use crate::error::CakeError;
use crate::manifest::{Manifest, dependency_views, lists_dependency, with_dependency};
use crate::resolver::{resolved_version, spec_resolved_version};
use crate::text::{opt_view, to_owned_string};
use crate::toml_doc::{spec_toml_string, toml_string};

verus! {

/// The version that the registry's manifest text names in `package.version`, if the text is
/// TOML; the parser's message otherwise.
pub open spec fn registry_version(registry_text: Seq<char>) -> Result<Option<Seq<char>>, Seq<char>> {
    match spec_toml_string(registry_text, "package"@, "version"@) {
        Ok(found) => Ok(found.1),
        Err(message) => Err(message),
    }
}

/// Whether the registry has to be asked about `name`: only for a dependency not yet listed,
/// since a listed one is skipped.
pub fn needs_registry(manifest: &Manifest, name: &str) -> (r: bool)
    ensures
        r == !lists_dependency(dependency_views(manifest.dependencies@), name@),
{
    !manifest.has_dependency(name)
}

/// Adds the dependency `name` from the text of the registry's manifest of the package.
///
/// A dependency already listed is skipped: nothing changes and nothing is returned. Otherwise
/// the registry text must be TOML with a string `package.version`, and the version set is the
/// one asked for, unless none or `latest` was asked for, in which case the registry's; it is
/// returned.
pub fn record_from_registry(
    manifest: &mut Manifest,
    name: &str,
    requested: Option<&str>,
    registry_text: &str,
) -> (r: Result<Option<String>, CakeError>)
    ensures
        final(manifest).package == old(manifest).package,
        lists_dependency(dependency_views(old(manifest).dependencies@), name@) ==> r == Ok::<Option<String>, CakeError>(None)
            && final(manifest).dependencies@ == old(manifest).dependencies@,
        !lists_dependency(dependency_views(old(manifest).dependencies@), name@) ==> match registry_version(registry_text@) {
            Err(message) => (r matches Err(CakeError::InvalidToml(m)) && m@ == message)
                && final(manifest).dependencies@ == old(manifest).dependencies@,
            Ok(None) => (r matches Err(CakeError::InvalidRegistryManifest(n)) && n@ == name@)
                && final(manifest).dependencies@ == old(manifest).dependencies@,
            Ok(Some(latest)) => r matches Ok(Some(v)) && v@ == spec_resolved_version(
                match requested { Some(q) => Some(q@), None => None },
                latest,
            ) && dependency_views(final(manifest).dependencies@) == with_dependency(
                dependency_views(old(manifest).dependencies@),
                name@,
                v@,
            ),
        },
{
    if manifest.has_dependency(name) {
        return Ok(None);
    }
    let lookup = match toml_string(registry_text, "package", "version") {
        Err(message) => Err(message),
        Ok(found) => Ok(found.1),
    };
    record_version(manifest, name, requested, lookup)
}

/// The version that a lookup of the registry's `package.version` found, as characters.
pub open spec fn lookup_view(lookup: Result<Option<String>, String>) -> Result<Option<Seq<char>>, Seq<char>> {
    match lookup {
        Ok(v) => Ok(opt_view(v)),
        Err(message) => Err(message@),
    }
}

/// Adds the dependency `name` once the registry's `package.version` has been looked up:
/// `lookup` is the version found, if any, or the message of a text that is not TOML.
///
/// A dependency already listed is skipped: nothing changes and nothing is returned. A failed
/// lookup and a missing version are errors. Otherwise the version set is the one asked for,
/// unless none or `latest` was asked for, in which case the registry's; it is returned.
pub fn record_version(
    manifest: &mut Manifest,
    name: &str,
    requested: Option<&str>,
    lookup: Result<Option<String>, String>,
) -> (r: Result<Option<String>, CakeError>)
    ensures
        final(manifest).package == old(manifest).package,
        lists_dependency(dependency_views(old(manifest).dependencies@), name@) ==> r == Ok::<Option<String>, CakeError>(None)
            && final(manifest).dependencies@ == old(manifest).dependencies@,
        !lists_dependency(dependency_views(old(manifest).dependencies@), name@) ==> match lookup_view(lookup) {
            Err(message) => (r matches Err(CakeError::InvalidToml(m)) && m@ == message)
                && final(manifest).dependencies@ == old(manifest).dependencies@,
            Ok(None) => (r matches Err(CakeError::InvalidRegistryManifest(n)) && n@ == name@)
                && final(manifest).dependencies@ == old(manifest).dependencies@,
            Ok(Some(latest)) => r matches Ok(Some(v)) && v@ == spec_resolved_version(
                match requested { Some(q) => Some(q@), None => None },
                latest,
            ) && dependency_views(final(manifest).dependencies@) == with_dependency(
                dependency_views(old(manifest).dependencies@),
                name@,
                v@,
            ),
        },
{
    if manifest.has_dependency(name) {
        return Ok(None);
    }
    let latest = match lookup {
        Err(message) => {
            return Err(CakeError::InvalidToml(message));
        },
        Ok(found) => found,
    };
    match latest {
        None => Err(CakeError::InvalidRegistryManifest(to_owned_string(name))),
        Some(latest) => {
            let version = resolved_version(requested, latest.as_str());
            manifest.insert_dependency(to_owned_string(name), version.clone());
            Ok(Some(version))
        },
    }
}

} // verus!
