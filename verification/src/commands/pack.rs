//! `pack`: packing a project into a CakePak archive.

use vstd::prelude::*;
use vstd::string::StringExecFns;
use crate::text::{decimal, decimal_string, str_eq};

verus! {

/// The entries that a CakePak leaves out.
pub open spec fn skipped(name: Seq<char>) -> bool {
    ||| name == ".git"@
    ||| name == "build"@
    ||| name == ".cake"@
    ||| name == ".cakepak"@
    ||| name == "target"@
    ||| name == ".DS_Store"@
}

/// A CakePak leaves out exactly six entries: `.git`, `build`, `.cake`, `.cakepak`, `target`
/// and `.DS_Store`; every other entry, `include` and `src` among them, is copied.
pub proof fn law_skipped_entries(name: Seq<char>)
    ensures
        skipped(name) <==> set![".git"@, "build"@, ".cake"@, ".cakepak"@, "target"@, ".DS_Store"@].contains(name),
        !skipped("include"@),
        !skipped("src"@),
        !skipped("Cake.toml"@),
{
    reveal_strlit("include");
    reveal_strlit("src");
    reveal_strlit("Cake.toml");
    reveal_strlit(".git");
    reveal_strlit("build");
    reveal_strlit(".cake");
    reveal_strlit(".cakepak");
    reveal_strlit("target");
    reveal_strlit(".DS_Store");
    assert("include"@ != ".git"@ && "include"@ != "build"@ && "include"@ != ".cake"@ && "include"@ != ".cakepak"@
        && "include"@ != "target"@ && "include"@ != ".DS_Store"@) by {
        assert("include"@.len() != ".git"@.len());
        assert("include"@[0] != "build"@[0]);
        assert("include"@[0] != ".cake"@[0]);
        assert("include"@.len() != ".cakepak"@.len());
        assert("include"@[0] != "target"@[0]);
        assert("include"@.len() != ".DS_Store"@.len());
    }
    assert("src"@ != ".git"@ && "src"@ != "build"@ && "src"@ != ".cake"@ && "src"@ != ".cakepak"@
        && "src"@ != "target"@ && "src"@ != ".DS_Store"@) by {
        assert("src"@.len() != ".git"@.len());
        assert("src"@.len() != "build"@.len());
        assert("src"@.len() != ".cake"@.len());
        assert("src"@.len() != ".cakepak"@.len());
        assert("src"@.len() != "target"@.len());
        assert("src"@.len() != ".DS_Store"@.len());
    }
    assert("Cake.toml"@ != ".git"@ && "Cake.toml"@ != "build"@ && "Cake.toml"@ != ".cake"@ && "Cake.toml"@ != ".cakepak"@
        && "Cake.toml"@ != "target"@ && "Cake.toml"@ != ".DS_Store"@) by {
        assert("Cake.toml"@.len() != ".git"@.len());
        assert("Cake.toml"@.len() != "build"@.len());
        assert("Cake.toml"@.len() != ".cake"@.len());
        assert("Cake.toml"@[0] != ".cakepak"@[0]);
        assert("Cake.toml"@.len() != "target"@.len());
        assert("Cake.toml"@[0] != ".DS_Store"@[0]);
    }
}

/// Whether a directory entry of this name is left out of the archive.
pub fn should_skip(name: &str) -> (r: bool)
    ensures
        r == skipped(name@),
{
    str_eq(name, ".git") || str_eq(name, "build") || str_eq(name, ".cake") || str_eq(name, ".cakepak")
        || str_eq(name, "target") || str_eq(name, ".DS_Store")
}

/// The archive's file name: `<name>-<version>.cmpak`.
pub fn cakepak_file_name(name: &str, version: &str) -> (r: String)
    ensures
        r@ == name@ + "-"@ + version@ + ".cmpak"@,
{
    let mut s = String::from_str(name);
    s.append("-");
    s.append(version);
    s.append(".cmpak");
    s
}

/// The name of the staging directory: `cman-cakepack-<pid>-<timestamp>`.
pub fn staging_dir_name(pid: u32, timestamp: u128) -> (r: String)
    ensures
        r@ == "cman-cakepack-"@ + decimal(pid as nat) + "-"@ + decimal(timestamp as nat),
{
    let p = decimal_string(pid as u128);
    let t = decimal_string(timestamp);
    let mut s = String::from_str("cman-cakepack-");
    s.append(p.as_str());
    s.append("-");
    s.append(t.as_str());
    s
}

} // verus!
