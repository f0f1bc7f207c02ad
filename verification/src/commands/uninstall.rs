//! `uninstall`: removing an installed package.

use vstd::prelude::*;
use crate::error::CakeError;
use crate::installed::{Installed, dependents_of};
use crate::text::{string_views, to_owned_string};

verus! {

/// Checks that no installed package depends on `name`; otherwise the error names them, in
/// record order.
pub fn check_dependents(installed: &Installed, name: &str) -> (r: Result<(), CakeError>)
    ensures
        r is Ok <==> dependents_of(installed.package@, name@).len() == 0,
        r is Err ==> (r matches Err(CakeError::RequiredBy(n, d)) && n@ == name@ && string_views(d@)
            == dependents_of(installed.package@, name@)),
{
    let dependents = installed.dependents(name);
    if dependents.len() > 0 {
        return Err(CakeError::RequiredBy(to_owned_string(name), dependents));
    }
    Ok(())
}

} // verus!
