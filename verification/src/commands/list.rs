//! The columns of the installed-tools listing.
use vstd::prelude::*;

use crate::state::local::{tool_key, InstalledTool};
use crate::commands::info::or_text;
use crate::text::{before_char, prefix_before, push_char, append_text, text_from};

verus! {

/// The `project/tool` name of a record.
pub fn tool_label(t: &InstalledTool) -> (r: String)
    ensures
        r@ == tool_key(t.project_slug@, t.tool_slug@),
{
    let mut r = t.project_slug.clone();
    push_char(&mut r, '/');
    append_text(&mut r, t.tool_slug.as_str());
    r
}

/// The version shown for a record, or "-".
pub fn version_label(t: &InstalledTool) -> (r: String)
    ensures
        r@ == or_text(t.version, "-"@),
{
    match &t.version {
        Some(v) => v.clone(),
        None => text_from("-"),
    }
}

/// The date a record was installed: its timestamp before 'T'.
pub fn installed_date(t: &InstalledTool) -> (r: String)
    ensures
        r@ == before_char(t.installed_at@, 'T'),
{
    prefix_before(t.installed_at.as_str(), 'T')
}

} // verus!
