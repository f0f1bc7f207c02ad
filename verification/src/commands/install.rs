//! `install`: building and installing packages system wide.

use vstd::prelude::*;
use crate::installed::{Installed, InstalledPackage, has_installed, with_installed};
use crate::installed::contains_str;
use crate::text::{string_views, to_owned_string};

verus! {

/// What installing a package comes to.
#[derive(Debug, PartialEq, Eq)]
pub enum InstallAction {
    /// It was installed earlier in this run: nothing to do.
    Skip,
    /// The record says it is installed: it only counts as done.
    AlreadyInstalled,
    /// Build and install it.
    Install,
}

/// Decides how to install `name`, given the packages installed earlier in this run and the
/// install record.
pub fn install_action(session: &Vec<String>, installed: &Installed, name: &str) -> (r: InstallAction)
    ensures
        string_views(session@).contains(name@) ==> r == InstallAction::Skip,
        !string_views(session@).contains(name@) && has_installed(installed.package@, name@) ==> r
            == InstallAction::AlreadyInstalled,
        !string_views(session@).contains(name@) && !has_installed(installed.package@, name@) ==> r
            == InstallAction::Install,
{
    if contains_str(session, name) {
        InstallAction::Skip
    } else if installed.contains(name) {
        InstallAction::AlreadyInstalled
    } else {
        InstallAction::Install
    }
}

/// Records in the install record that `name` is installed at `version` with `dependencies`.
pub fn record_install(installed: &mut Installed, name: &str, version: &str, dependencies: Vec<String>)
    ensures
        final(installed).version == old(installed).version,
        final(installed).package@ == with_installed(old(installed).package@, final(installed).package@.last()),
        final(installed).package@.last().name@ == name@,
        final(installed).package@.last().version@ == version@,
        final(installed).package@.last().dependencies == dependencies,
{
    installed.add(InstalledPackage {
        name: to_owned_string(name),
        version: to_owned_string(version),
        dependencies,
    });
}

/// The packages installed so far in one run of `install`.
pub struct InstallRun {
    names: Vec<String>,
}

impl InstallRun {
    /// The names installed so far in this run, in order.
    pub closed spec fn installed_names(&self) -> Seq<Seq<char>> {
        string_views(self.names@)
    }

    /// A run that has installed nothing yet.
    pub fn new() -> (r: InstallRun)
        ensures
            r.installed_names().len() == 0,
    {
        InstallRun { names: Vec::new() }
    }

    /// Decides how to install `name` in this run, given the install record.
    pub fn action(&self, installed: &Installed, name: &str) -> (r: InstallAction)
        ensures
            self.installed_names().contains(name@) ==> r == InstallAction::Skip,
            !self.installed_names().contains(name@) && has_installed(installed.package@, name@) ==> r
                == InstallAction::AlreadyInstalled,
            !self.installed_names().contains(name@) && !has_installed(installed.package@, name@) ==> r
                == InstallAction::Install,
    {
        install_action(&self.names, installed, name)
    }

    /// Whether `name` was installed earlier in this run; such a package needs nothing, not
    /// even a look at the install record.
    pub fn already_done(&self, name: &str) -> (r: bool)
        ensures
            r == self.installed_names().contains(name@),
    {
        contains_str(&self.names, name)
    }

    /// Notes that `name` has been built and installed in this run.
    pub fn mark_installed(&mut self, name: &str)
        ensures
            final(self).installed_names() == old(self).installed_names().push(name@),
    {
        let ghost before = self.names@;
        self.names.push(to_owned_string(name));
        assert(string_views(self.names@) =~= string_views(before).push(name@));
    }
}

/// Installing a package twice in one run does the work once: after it has been marked
/// installed, any later decision of the run on that name is to skip it, whatever else was
/// installed in between and whatever the install record says.
pub proof fn law_installed_once_per_run(
    names: Seq<Seq<char>>,
    name: Seq<char>,
    later: Seq<Seq<char>>,
)
    ensures
        (names.push(name) + later).contains(name),
{
    assert((names.push(name) + later)[names.len() as int] == name);
}

} // verus!
