//! Addresses of package manifests in the Cakes registry.

use vstd::prelude::*;
use vstd::string::StringExecFns;
use vstd::string::StrSliceExecFns;
use crate::error::CakeError;
use crate::text::{ascii_lower, push_char, to_ascii_lower};

verus! {

/// Where the registry keeps its manifests.
pub const REGISTRY_URL: &'static str = "https://raw.githubusercontent.com/beaglesoftware/cakes/main/manifests";

/// The directory letter of a package: the first character of its name, ASCII lower-cased;
/// nothing for an empty name.
pub open spec fn spec_first_letter(name: Seq<char>) -> Option<char> {
    if name.len() == 0 { None } else { Some(ascii_lower(name[0])) }
}

/// The path of the manifest of the package `name` in the registry repository, for a name
/// that is not empty.
pub open spec fn spec_manifest_path(name: Seq<char>) -> Seq<char> {
    "manifests/"@ + seq![ascii_lower(name[0])] + "/"@ + name + "/Cake.toml"@
}

/// The address of the manifest of the package `name`, whose name is not empty.
pub open spec fn spec_manifest_url(name: Seq<char>) -> Seq<char> {
    REGISTRY_URL@ + "/"@ + seq![ascii_lower(name[0])] + "/"@ + name + "/Cake.toml"@
}

/// The directory letter of a package, if its name is not empty.
pub fn first_letter(name: &str) -> (r: Option<char>)
    ensures
        r == spec_first_letter(name@),
{
    if name.unicode_len() == 0 {
        None
    } else {
        Some(to_ascii_lower(name.get_char(0)))
    }
}

/// The address of the registry manifest of the package `name`.
pub fn manifest_url(name: &str) -> (r: Result<String, CakeError>)
    ensures
        name@.len() == 0 <==> r is Err,
        r matches Err(e) ==> e == CakeError::EmptyPackageName,
        r matches Ok(url) ==> url@ == spec_manifest_url(name@),
{
    match first_letter(name) {
        None => Err(CakeError::EmptyPackageName),
        Some(letter) => {
            let mut url = String::from_str(REGISTRY_URL);
            url.append("/");
            push_char(&mut url, letter);
            url.append("/");
            url.append(name);
            url.append("/Cake.toml");
            assert(url@ =~= spec_manifest_url(name@));
            Ok(url)
        },
    }
}

} // verus!
