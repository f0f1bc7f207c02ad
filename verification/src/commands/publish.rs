//! `publish`: proposing a package's manifest to the registry through a pull request.

use vstd::prelude::*;
use vstd::string::StringExecFns;
use crate::error::CakeError;
use crate::manifest::{Manifest, repository_missing};
use crate::registry::{first_letter, spec_first_letter, spec_manifest_path, spec_manifest_url};
use crate::toml_doc::{spec_toml_string, toml_string};
use crate::text::{push_char, signed_decimal, signed_decimal_string, to_owned_string};

verus! {

/// The owner of the registry repository.
pub const OWNER: &'static str = "beaglesoftware";

/// The registry repository.
pub const REPO: &'static str = "cakes";

/// The branch of the registry repository that pull requests are opened against.
pub const BASE: &'static str = "main";

/// The names and texts that publishing a package uses.
#[derive(Debug)]
pub struct PublishPlan {
    /// The directory letter of the package in the registry.
    pub letter: char,
    /// Where the manifest goes in the registry repository.
    pub manifest_path: String,
    /// The branch that carries the manifest.
    pub branch: String,
    /// The reference that `HEAD` is moved to.
    pub head_ref: String,
    /// The commit message.
    pub commit_message: String,
    /// The e-mail address of the commit's author.
    pub email: String,
    /// The reference specification that is pushed.
    pub refspec: String,
    /// The pull request's title.
    pub title: String,
    /// The pull request's head, `<user>:<branch>`.
    pub head: String,
    /// The branch the pull request is opened against.
    pub base: String,
    /// The text written to the manifest path: the package's manifest, unchanged.
    pub content: String,
}

/// The fields of a plan for the package `name`, whose manifest text is `content`, published by
/// `username` at `timestamp`.
pub open spec fn planned(p: PublishPlan, name: Seq<char>, username: Seq<char>, timestamp: int, content: Seq<char>) -> bool {
    let branch = spec_branch(name, timestamp);
    &&& Some(p.letter) == spec_first_letter(name)
    &&& p.manifest_path@ == spec_manifest_path(name)
    &&& p.branch@ == branch
    &&& p.head_ref@ == "refs/heads/"@ + branch
    &&& p.commit_message@ == "Add "@ + name + " package"@
    &&& p.email@ == username + "@users.noreply.github.com"@
    &&& p.refspec@ == "refs/heads/"@ + branch + ":refs/heads/"@ + branch
    &&& p.title@ == "Add "@ + name
    &&& p.head@ == username + ":"@ + branch
    &&& p.base@ == BASE@
    &&& p.content@ == content
}

/// The branch of a publication: `add-<name>-<timestamp>`.
pub open spec fn spec_branch(name: Seq<char>, timestamp: int) -> Seq<char> {
    "add-"@ + name + "-"@ + signed_decimal(timestamp)
}

/// Plans the publication of the package `name`, whose manifest text is `manifest_text`, by the
/// GitHub user `username` at the Unix time `timestamp`; a package with an empty name cannot be
/// published.
pub fn plan(name: &str, username: &str, timestamp: i64, manifest_text: &str) -> (r: Result<PublishPlan, CakeError>)
    ensures
        name@.len() == 0 <==> r is Err,
        r is Err ==> r matches Err(CakeError::InvalidPackageName),
        r matches Ok(p) ==> planned(p, name@, username@, timestamp as int, manifest_text@),
{
    let letter = match first_letter(name) {
        Some(c) => c,
        None => {
            return Err(CakeError::InvalidPackageName);
        },
    };
    let mut manifest_path = String::from_str("manifests/");
    push_char(&mut manifest_path, letter);
    manifest_path.append("/");
    manifest_path.append(name);
    manifest_path.append("/Cake.toml");
    assert(manifest_path@ =~= spec_manifest_path(name@));

    let stamp = signed_decimal_string(timestamp);
    let mut branch = String::from_str("add-");
    branch.append(name);
    branch.append("-");
    branch.append(stamp.as_str());

    let mut head_ref = String::from_str("refs/heads/");
    head_ref.append(branch.as_str());

    let mut commit_message = String::from_str("Add ");
    commit_message.append(name);
    commit_message.append(" package");

    let mut email = to_owned_string(username);
    email.append("@users.noreply.github.com");

    let mut refspec = String::from_str("refs/heads/");
    refspec.append(branch.as_str());
    refspec.append(":refs/heads/");
    refspec.append(branch.as_str());

    let mut title = String::from_str("Add ");
    title.append(name);

    let mut head = to_owned_string(username);
    head.append(":");
    head.append(branch.as_str());

    let base = to_owned_string(BASE);
    let content = to_owned_string(manifest_text);

    Ok(PublishPlan { letter, manifest_path, branch, head_ref, commit_message, email, refspec, title, head, base, content })
}

/// The address of the user's fork of the registry.
pub fn fork_url(username: &str) -> (r: String)
    ensures
        r@ == "https://github.com/"@ + username@ + "/"@ + REPO@ + ".git"@,
{
    let mut url = String::from_str("https://github.com/");
    url.append(username);
    url.append("/");
    url.append(REPO);
    url.append(".git");
    url
}

/// Plans the publication of the manifest `manifest_text`: it must be TOML with a
/// `[package]` table that holds a string `name`, which must not be empty.
pub fn plan_from_manifest(manifest_text: &str, username: &str, timestamp: i64) -> (r: Result<PublishPlan, CakeError>)
    ensures
        match spec_toml_string(manifest_text@, "package"@, "name"@) {
            Err(message) => r matches Err(CakeError::InvalidToml(m)) && m@ == message,
            Ok((false, _)) => r matches Err(CakeError::MissingPackageTable),
            Ok((true, None)) => r matches Err(CakeError::MissingPackageName),
            Ok((true, Some(name))) => name.len() == 0 <==> r is Err,
        },
        spec_toml_string(manifest_text@, "package"@, "name"@) matches Ok((true, Some(name))) && name.len() == 0
            ==> r matches Err(CakeError::InvalidPackageName),
        r matches Ok(p) ==> spec_toml_string(manifest_text@, "package"@, "name"@) matches Ok((true, Some(name)))
            && planned(p, name, username@, timestamp as int, manifest_text@),
{
    let name = match toml_string(manifest_text, "package", "name") {
        Err(message) => {
            return Err(CakeError::InvalidToml(message));
        },
        Ok((false, _)) => {
            return Err(CakeError::MissingPackageTable);
        },
        Ok((true, None)) => {
            return Err(CakeError::MissingPackageName);
        },
        Ok((true, Some(name))) => name,
    };
    plan(name.as_str(), username, timestamp, manifest_text)
}

/// Decides the publication of a package whose manifest text is `manifest_text` and whose
/// manifest, read from that text, is `manifest`: a manifest without a repository is refused
/// before anything else; otherwise the plan is that of `plan_from_manifest`. Publishing
/// succeeds exactly when the repository is given and the text holds a non-empty
/// `package.name`.
pub fn prepare(manifest: &Manifest, manifest_text: &str, username: &str, timestamp: i64) -> (r: Result<PublishPlan, CakeError>)
    ensures
        repository_missing(manifest.package) ==> r == Err::<PublishPlan, CakeError>(CakeError::MissingRepository),
        !repository_missing(manifest.package) ==> match spec_toml_string(manifest_text@, "package"@, "name"@) {
            Err(message) => r matches Err(CakeError::InvalidToml(m)) && m@ == message,
            Ok((false, _)) => r matches Err(CakeError::MissingPackageTable),
            Ok((true, None)) => r matches Err(CakeError::MissingPackageName),
            Ok((true, Some(name))) => if name.len() == 0 {
                r matches Err(CakeError::InvalidPackageName)
            } else {
                r matches Ok(p) && planned(p, name, username@, timestamp as int, manifest_text@)
            },
        },
{
    match manifest.validate() {
        Err(e) => Err(e),
        Ok(()) => plan_from_manifest(manifest_text, username, timestamp),
    }
}

/// The manifest a package is published under is the one the registry serves for it: the
/// registry address of `name` is the raw address of the registry repository followed by the
/// planned manifest path.
pub proof fn law_published_manifest_is_served(name: Seq<char>)
    requires
        name.len() > 0,
    ensures
        spec_manifest_url(name) == "https://raw.githubusercontent.com/beaglesoftware/cakes/main/"@ + spec_manifest_path(name),
{
    reveal_strlit("https://raw.githubusercontent.com/beaglesoftware/cakes/main/manifests");
    reveal_strlit("https://raw.githubusercontent.com/beaglesoftware/cakes/main/");
    reveal_strlit("manifests/");
    reveal_strlit("/");
    reveal_strlit("/Cake.toml");
    assert(spec_manifest_url(name) =~= "https://raw.githubusercontent.com/beaglesoftware/cakes/main/"@ + spec_manifest_path(name));
}

/// Publishing a manifest whose `package.name` is `name` proposes it, unchanged, where the
/// registry reads it: the plan that `prepare` returns writes the manifest text at the path whose
/// raw address is the registry address of `name`, on a branch `add-<name>-<timestamp>` that is
/// pushed to the branch of the same name and offered from `<user>:<branch>` to `main` under the
/// title `Add <name>`.
pub proof fn law_publish_round_trip(manifest_text: Seq<char>, name: Seq<char>, username: Seq<char>, timestamp: int, p: PublishPlan)
    requires
        spec_toml_string(manifest_text, "package"@, "name"@) == Ok::<(bool, Option<Seq<char>>), Seq<char>>((true, Some(name))),
        name.len() > 0,
        planned(p, name, username, timestamp, manifest_text),
    ensures
        p.content@ == manifest_text,
        p.base@ == "main"@,
        "https://raw.githubusercontent.com/beaglesoftware/cakes/main/"@ + p.manifest_path@ == spec_manifest_url(name),
        Some(p.letter) == spec_first_letter(name),
        p.branch@ == "add-"@ + name + "-"@ + signed_decimal(timestamp),
        p.head_ref@ == "refs/heads/"@ + p.branch@,
        p.refspec@ == "refs/heads/"@ + p.branch@ + ":refs/heads/"@ + p.branch@,
        p.head@ == username + ":"@ + p.branch@,
        p.title@ == "Add "@ + name,
        p.commit_message@ == "Add "@ + name + " package"@,
{
    law_published_manifest_is_served(name);
}

} // verus!
