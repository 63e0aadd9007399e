//! The lines of a tool's detailed description.
use vstd::prelude::*;

use crate::client::api::{PlatformInfo, ReleaseInfo, ToolDetailTool};
use crate::commands::install::{format_size, size_text};
use crate::text::{append_text, before_char, padded, prefix_before, push_padded, text_from};

verus! {

broadcast use vstd::seq_lib::group_seq_properties;

/// A text, or a placeholder when absent.
pub open spec fn or_text(o: Option<String>, placeholder: Seq<char>) -> Seq<char> {
    match o {
        Some(s) => s@,
        None => placeholder,
    }
}

fn text_or(o: &Option<String>, placeholder: &str) -> (r: String)
    ensures
        r@ == or_text(*o, placeholder@),
{
    match o {
        Some(s) => s.clone(),
        None => text_from(placeholder),
    }
}

/// The date part of a release's timestamp (before 'T'), or "-".
pub open spec fn release_date(r: ReleaseInfo) -> Seq<char> {
    match r.created_at {
        Some(d) => before_char(d@, 'T'),
        None => "-"@,
    }
}

/// The line of a release: version and date, then its notes when there are any.
pub open spec fn release_line_text(r: ReleaseInfo) -> Seq<char> {
    let base = or_text(r.version, "-"@) + " ("@ + release_date(r) + ")"@;
    match r.notes {
        Some(n) => if n@.len() == 0 {
            base
        } else {
            base + " — "@ + n@
        },
        None => base,
    }
}

/// The line describing a release.
pub fn release_line(r: &ReleaseInfo) -> (s: String)
    ensures
        s@ == release_line_text(*r),
{
    let mut s = text_or(&r.version, "-");
    append_text(&mut s, " (");
    let date = match &r.created_at {
        Some(d) => prefix_before(d.as_str(), 'T'),
        None => text_from("-"),
    };
    append_text(&mut s, date.as_str());
    append_text(&mut s, ")");
    match &r.notes {
        Some(n) => {
            if n.as_str().unicode_len() != 0 {
                append_text(&mut s, " — ");
                append_text(&mut s, n.as_str());
            }
        },
        None => {},
    }
    s
}

/// The lines of the (at most five) first releases.
pub fn recent_release_lines(tool: &ToolDetailTool) -> (r: Vec<String>)
    ensures
        r@.len() == if tool.releases@.len() < 5 { tool.releases@.len() } else { 5 },
        forall|i: int| 0 <= i < r@.len() ==> (#[trigger] r@[i])@ == release_line_text(tool.releases@[i]),
{
    let n = if tool.releases.len() < 5 {
        tool.releases.len()
    } else {
        5
    };
    let mut r: Vec<String> = Vec::new();
    let mut i: usize = 0;
    while i < n
        invariant
            n <= tool.releases@.len(),
            n == if tool.releases@.len() < 5 { tool.releases@.len() } else { 5 },
            i <= n,
            r@.len() == i,
            forall|j: int| 0 <= j < i ==> (#[trigger] r@[j])@ == release_line_text(tool.releases@[j]),
        decreases n - i,
    {
        r.push(release_line(&tool.releases[i]));
        i = i + 1;
    }
    r
}

/// A size for display, or "-".
pub open spec fn size_or_dash(size: Option<i64>) -> Seq<char> {
    match size {
        Some(b) => size_text(b as int),
        None => "-"@,
    }
}

/// The line of a platform build: key and version in fixed-width columns, then size.
pub open spec fn platform_line_text(key: Seq<char>, info: PlatformInfo) -> Seq<char> {
    padded(key, 16) + " version: "@ + padded(or_text(info.version, "-"@), 10) + " size: "@
        + size_or_dash(info.size_bytes)
}

/// The line describing one platform build.
pub fn platform_line(key: &str, info: &PlatformInfo) -> (s: String)
    ensures
        s@ == platform_line_text(key@, *info),
{
    let mut s = String::new();
    push_padded(&mut s, key, 16);
    append_text(&mut s, " version: ");
    let v = text_or(&info.version, "-");
    push_padded(&mut s, v.as_str(), 10);
    append_text(&mut s, " size: ");
    let size = match info.size_bytes {
        Some(b) => format_size(b),
        None => text_from("-"),
    };
    append_text(&mut s, size.as_str());
    s
}

} // verus!
