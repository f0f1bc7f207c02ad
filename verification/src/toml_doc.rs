//! Reading and editing TOML text through the `toml` and `toml_edit` crates.

use vstd::prelude::*;
use crate::text::opt_view;

verus! {

/// What `toml` makes of `text` when asked for the string `key` of the table `table`: the
/// parser's message when the text is not TOML; otherwise whether the document has an entry
/// `table`, and the string stored under `key` in it, if that entry is a table holding one.
pub uninterp spec fn spec_toml_string(text: Seq<char>, table: Seq<char>, key: Seq<char>) -> Result<(bool, Option<Seq<char>>), Seq<char>>;

/// Parses `text` with `toml::from_str` into a `toml::Value`, then looks up `table` with
/// `Value::get`, `key` in it with `Value::get`, and takes `Value::as_str`. The contract only
/// names the result, which depends on the three arguments alone; a parse error comes back as
/// its `Display` text.
#[verifier::external_body]
pub(crate) fn toml_string(text: &str, table: &str, key: &str) -> (r: Result<(bool, Option<String>), String>)
    ensures
        match r {
            Ok(v) => spec_toml_string(text@, table@, key@) == Ok::<(bool, Option<Seq<char>>), Seq<char>>((v.0, opt_view(v.1))),
            Err(e) => spec_toml_string(text@, table@, key@) == Err::<(bool, Option<Seq<char>>), Seq<char>>(e@),
        },
{
    match toml::from_str::<toml::Value>(text) {
        Err(e) => Err(e.to_string()),
        Ok(value) => match value.get(table) {
            None => Ok((false, None)),
            Some(t) => Ok((true, t.get(key).and_then(|v| v.as_str()).map(|s| s.to_string()))),
        },
    }
}

/// What `toml_edit` makes of `text` when `package.type` is set to `package_type`: the
/// parser's message when the text is not TOML; no text when `package` is neither a table nor
/// an inline table (nor absent); otherwise the edited document.
pub uninterp spec fn spec_package_type_edit(text: Seq<char>, package_type: Seq<char>) -> Result<Option<Seq<char>>, Seq<char>>;

/// Parses `text` into a `toml_edit::DocumentMut`, takes `package` with the document's
/// `IndexMut` (which inserts it when absent and cannot fail on the root table), asks it for
/// `type` with `Item::get_mut`, stores `toml_edit::value(package_type)` there and prints the
/// document. The contract only names the result, which depends on the two arguments alone.
#[verifier::external_body]
pub(crate) fn package_type_edit(text: &str, package_type: &str) -> (r: Result<Option<String>, String>)
    ensures
        match r {
            Ok(v) => spec_package_type_edit(text@, package_type@) == Ok::<Option<Seq<char>>, Seq<char>>(opt_view(v)),
            Err(e) => spec_package_type_edit(text@, package_type@) == Err::<Option<Seq<char>>, Seq<char>>(e@),
        },
{
    let mut doc = match text.parse::<toml_edit::DocumentMut>() {
        Ok(doc) => doc,
        Err(e) => return Err(e.to_string()),
    };
    match doc["package"].get_mut("type") {
        None => Ok(None),
        Some(item) => {
            *item = toml_edit::value(package_type);
            Ok(Some(doc.to_string()))
        },
    }
}

} // verus!
