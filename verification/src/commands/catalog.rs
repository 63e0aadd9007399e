//! The rows of the catalog listing.
use vstd::prelude::*;

use crate::client::api::{platform_keys, platform_key_list, CatalogTool};
use crate::text::{append_text, join_texts, joined, padded, push_padded, text_from};

verus! {

/// The version shown for a catalog tool: that of its first listed build, or "-".
pub open spec fn catalog_version(t: CatalogTool) -> Seq<char> {
    if t.platforms@.len() > 0 {
        match t.platforms@[0].1.version {
            Some(v) => v@,
            None => "-"@,
        }
    } else {
        "-"@
    }
}

/// The row of a catalog tool: project, tool and version in fixed-width
/// columns, then its platforms.
pub open spec fn catalog_row_text(project_slug: Seq<char>, t: CatalogTool) -> Seq<char> {
    "  "@ + padded(project_slug, 20) + " "@ + padded(t.slug@, 20) + " "@ + padded(
        catalog_version(t),
        12,
    ) + " "@ + joined(platform_keys(t.platforms@), ", "@)
}

/// The row describing one catalog tool.
pub fn catalog_row(project_slug: &str, t: &CatalogTool) -> (r: String)
    ensures
        r@ == catalog_row_text(project_slug@, *t),
{
    let mut r = text_from("  ");
    push_padded(&mut r, project_slug, 20);
    append_text(&mut r, " ");
    push_padded(&mut r, t.slug.as_str(), 20);
    append_text(&mut r, " ");
    let version = if t.platforms.len() > 0 {
        match &t.platforms[0].1.version {
            Some(v) => v.clone(),
            None => text_from("-"),
        }
    } else {
        text_from("-")
    };
    push_padded(&mut r, version.as_str(), 12);
    append_text(&mut r, " ");
    let keys = platform_key_list(&t.platforms);
    let list = join_texts(&keys, ", ");
    append_text(&mut r, list.as_str());
    r
}

} // verus!
