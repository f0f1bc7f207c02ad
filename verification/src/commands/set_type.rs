//! `set-type`: changing the type of the project.

use vstd::prelude::*;
use crate::error::CakeError;
use crate::text::str_eq;
use crate::toml_doc::{package_type_edit, spec_package_type_edit};

verus! {

/// Whether a package type is one that a project can have.
pub open spec fn valid_package_type(package_type: Seq<char>) -> bool {
    package_type == "library"@ || package_type == "binary"@
}

/// Accepts the package types `library` and `binary`.
pub fn check_package_type(package_type: &str) -> (r: Result<(), CakeError>)
    ensures
        r is Ok <==> valid_package_type(package_type@),
        r is Err ==> r == Err::<(), CakeError>(CakeError::InvalidPackageType),
{
    if !str_eq(package_type, "library") && !str_eq(package_type, "binary") {
        return Err(CakeError::InvalidPackageType);
    }
    Ok(())
}

/// The manifest text with `package.type` set to `package_type`, which must be `library` or
/// `binary`; the rest of the document keeps its formatting.
pub fn set_package_type(manifest_text: &str, package_type: &str) -> (r: Result<String, CakeError>)
    ensures
        !valid_package_type(package_type@) ==> r == Err::<String, CakeError>(CakeError::InvalidPackageType),
        valid_package_type(package_type@) ==> match spec_package_type_edit(manifest_text@, package_type@) {
            Ok(Some(text)) => r matches Ok(s) && s@ == text,
            Ok(None) => r == Err::<String, CakeError>(CakeError::PackageNotATable),
            Err(message) => r matches Err(CakeError::InvalidToml(m)) && m@ == message,
        },
{
    check_package_type(package_type)?;
    match package_type_edit(manifest_text, package_type) {
        Ok(Some(text)) => Ok(text),
        Ok(None) => Err(CakeError::PackageNotATable),
        Err(message) => Err(CakeError::InvalidToml(message)),
    }
}

} // verus!
