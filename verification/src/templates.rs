//! Where challenge templates live: `<base>/templates/<category>/`.
use vstd::prelude::*;
use vstd::string::*;

use crate::text::{join_path, joined_path};

verus! {

/// The categories whose template directories are created up front.
pub open spec fn default_categories() -> Seq<Seq<char>> {
    seq!["pwn"@, "crypto"@, "web"@, "rev"@]
}

/// The templates directory inside a CTF base directory.
pub fn templates_dir(base_path: &str) -> (r: String)
    ensures
        r@ == joined_path(base_path@, "templates"@),
{
    join_path(base_path, "templates")
}

/// The template directory of one category: `<base>/templates/<category>`.
/// The path is not checked for existence.
pub fn get_template_path(base_path: &str, category: &str) -> (r: String)
    ensures
        r@ == joined_path(joined_path(base_path@, "templates"@), category@),
{
    let templates = templates_dir(base_path);
    join_path(templates.as_str(), category)
}

/// The template directories of the default categories, in the order pwn,
/// crypto, web, rev.
pub fn default_template_paths(base_path: &str) -> (r: Vec<String>)
    ensures
        r@.len() == default_categories().len(),
        forall|i: int|
            0 <= i < r@.len() ==> (#[trigger] r@[i])@ == joined_path(
                joined_path(base_path@, "templates"@),
                default_categories()[i],
            ),
{
    let mut r: Vec<String> = Vec::new();
    r.push(get_template_path(base_path, "pwn"));
    r.push(get_template_path(base_path, "crypto"));
    r.push(get_template_path(base_path, "web"));
    r.push(get_template_path(base_path, "rev"));
    r
}

} // verus!
