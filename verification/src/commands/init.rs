//! `init`: creating a project.

use vstd::prelude::*;
use vstd::string::StringExecFns;

verus! {

/// What `init` announces: the project's name, or that the project is made in the current
/// directory.
pub fn execute(name: Option<&str>) -> (r: String)
    ensures
        name matches Some(n) ==> r@ == "Creating project: "@ + n@,
        name is None ==> r@ == "Creating project in current directory"@,
{
    match name {
        Some(n) => {
            let mut s = String::from_str("Creating project: ");
            s.append(n);
            s
        },
        None => String::from_str("Creating project in current directory"),
    }
}

} // verus!
