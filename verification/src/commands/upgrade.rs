//! Planning upgrades of installed tools.
use vstd::prelude::*;

use crate::client::api::{
    platform_index, platform_lookup, platform_position, PlatformInfo, PresignLatestRequest, ToolDetailResponse,
};
use crate::commands::install::chosen_build;
use crate::config::now_rfc3339;
use crate::state::local::{InstalledTool, StateFile};
use crate::text::{append_text, copy_opt, decimal, push_decimal, text_eq, text_from};

verus! {

/// One planned upgrade.
pub struct UpgradePlan {
    pub project_slug: String,
    pub tool_slug: String,
    pub old_version: Option<String>,
    pub new_version: Option<String>,
    pub new_sha256: Option<String>,
    pub platform_key: String,
    pub latest_filename: String,
    pub size_bytes: Option<i64>,
    pub path: String,
    pub auto_dependency: bool,
    pub installed_by: Option<String>,
}

/// Why the tools to act on could not be chosen.
pub enum SelectionError {
    /// No installed tool has this slug.
    NotInstalled { tool: String },
    /// Neither a tool nor `--all` was given.
    NothingSelected,
}

/// The text shown when the upgrade selection fails.
pub open spec fn upgrade_selection_message(e: SelectionError) -> Seq<char> {
    match e {
        SelectionError::NotInstalled { tool } => "Tool '"@ + tool@ + "' is not installed."@,
        SelectionError::NothingSelected =>
            "Specify a tool name or use --all to upgrade all installed tools."@,
    }
}

impl SelectionError {
    /// The text shown when choosing tools to upgrade fails.
    pub fn upgrade_message(&self) -> (r: String)
        ensures
            r@ == upgrade_selection_message(*self),
    {
        match self {
            SelectionError::NotInstalled { tool } => {
                let mut r = text_from("Tool '");
                append_text(&mut r, tool.as_str());
                append_text(&mut r, "' is not installed.");
                r
            },
            SelectionError::NothingSelected => text_from(
                "Specify a tool name or use --all to upgrade all installed tools.",
            ),
        }
    }
}

/// The index of the first record with tool slug `tool`, whatever its project.
pub open spec fn slug_position(s: Seq<InstalledTool>, tool: Seq<char>) -> Option<int>
    decreases s.len(),
{
    if s.len() == 0 {
        None
    } else if s[0].tool_slug@ == tool {
        Some(0)
    } else {
        match slug_position(s.drop_first(), tool) {
            Some(i) => Some(i + 1),
            None => None,
        }
    }
}

fn slug_index(s: &Vec<InstalledTool>, tool: &str) -> (r: Option<usize>)
    ensures
        match r {
            Some(i) => i < s@.len() && slug_position(s@, tool@) == Some(i as int),
            None => slug_position(s@, tool@) is None,
        },
{
    let n = s.len();
    let mut i: usize = 0;
    assert(s@.skip(0) =~= s@);
    while i < n
        invariant
            n == s@.len(),
            i <= n,
            slug_position(s@, tool@) == match slug_position(s@.skip(i as int), tool@) {
                Some(k) => Some(k + i),
                None => None::<int>,
            },
        decreases n - i,
    {
        assert(s@.skip(i as int)[0] == s@[i as int]);
        assert(s@.skip(i as int).drop_first() =~= s@.skip(i + 1));
        if text_eq(s[i].tool_slug.as_str(), tool) {
            return Some(i);
        }
        i = i + 1;
    }
    None
}

/// The tools to upgrade: the first installed with slug `tool` when one is
/// named, else every installed tool with `--all`.
pub fn upgrade_targets(state: &StateFile, tool: Option<&str>, all: bool) -> (r: Result<
    Vec<InstalledTool>,
    SelectionError,
>)
    ensures
        match tool {
            Some(t) => match slug_position(state.installed@, t@) {
                Some(i) => r matches Ok(v) && v@ == seq![state.installed@[i]],
                None => r matches Err(SelectionError::NotInstalled { tool: x }) && x@ == t@,
            },
            None => if all {
                r matches Ok(v) && v@ == state.installed@
            } else {
                r matches Err(SelectionError::NothingSelected)
            },
        },
{
    match tool {
        Some(t) => match slug_index(&state.installed, t) {
            Some(i) => {
                let mut v: Vec<InstalledTool> = Vec::new();
                v.push(state.installed[i].clone());
                assert(v@ =~= seq![state.installed@[i as int]]);
                Ok(v)
            },
            None => Err(SelectionError::NotInstalled { tool: text_from(t) }),
        },
        None => {
            if all {
                let mut v: Vec<InstalledTool> = Vec::new();
                let n = state.installed.len();
                let mut i: usize = 0;
                while i < n
                    invariant
                        n == state.installed@.len(),
                        i <= n,
                        v@ == state.installed@.take(i as int),
                    decreases n - i,
                {
                    v.push(state.installed[i].clone());
                    assert(v@ =~= state.installed@.take(i + 1));
                    i = i + 1;
                }
                assert(state.installed@.take(n as int) =~= state.installed@);
                Ok(v)
            } else {
                Err(SelectionError::NothingSelected)
            }
        },
    }
}

/// Whether `installed` already has the build's known SHA-256.
pub open spec fn same_known_sha(installed: InstalledTool, build: PlatformInfo) -> bool {
    match (installed.sha256, build.sha256) {
        (Some(a), Some(b)) => a@ == b@,
        _ => false,
    }
}

/// Whether `installed` needs an upgrade against `detail`: there is a build
/// for the platform (or a "default" one) and its SHA-256 is not the one
/// recorded.
pub open spec fn upgrade_needed(installed: InstalledTool, detail: ToolDetailResponse, platform: Seq<char>) -> bool {
    match chosen_build(detail, platform) {
        None => false,
        Some(build) => !same_known_sha(installed, build),
    }
}

/// An upgrade is needed exactly when the tool has a build for the platform,
/// or else a "default" one, and that build's SHA-256 is unknown, the
/// recorded one is unknown, or the two differ, whatever the versions say.
/// The upgrade then takes that build: its version, digest, file and size,
/// under the platform's key, or "default" when the platform has no build.
pub proof fn law_upgrade_follows_digest(
    installed: InstalledTool,
    detail: ToolDetailResponse,
    platform: Seq<char>,
    up: UpgradePlan,
)
    ensures
        ({
            let ps = detail.tool.platforms@;
            let own = platform_lookup(ps, platform);
            let fallback = platform_lookup(ps, "default"@);
            match (if own is Some { own } else { fallback }) {
                None => !upgrade_needed(installed, detail, platform) && !upgrade_of(
                    installed,
                    detail,
                    platform,
                    up,
                ),
                Some(b) => {
                    &&& upgrade_needed(installed, detail, platform) <==> (b.sha256 is None
                        || installed.sha256 is None || installed.sha256->0@ != b.sha256->0@)
                    &&& upgrade_of(installed, detail, platform, up) ==> {
                        &&& up.new_version == b.version
                        &&& up.new_sha256 == b.sha256
                        &&& up.latest_filename == b.latest_filename
                        &&& up.size_bytes == b.size_bytes
                        &&& up.platform_key@ == (if own is Some { platform } else { "default"@ })
                        &&& up.old_version == installed.version
                        &&& up.path == installed.path
                    }
                },
            }
        }),
{
}

/// The record of an upgraded tool, written at `installed_at` with digest
/// `sha256`.
pub open spec fn upgraded_record(up: UpgradePlan, sha256: String, installed_at: String) -> InstalledTool {
    InstalledTool {
        project_slug: up.project_slug,
        tool_slug: up.tool_slug,
        version: up.new_version,
        sha256: Some(sha256),
        path: up.path,
        installed_at,
        auto_dependency: up.auto_dependency,
        installed_by: up.installed_by,
    }
}

/// An upgrade is done once: when the upgrade planned from `detail` wrote a
/// file whose digest is the build's announced one, the record it leaves
/// needs no further upgrade from that same detail, so `plan_upgrade` gives
/// none.
pub proof fn law_upgraded_record_is_current(
    installed: InstalledTool,
    detail: ToolDetailResponse,
    platform: Seq<char>,
    up: UpgradePlan,
    sha256: String,
    installed_at: String,
)
    requires
        upgrade_needed(installed, detail, platform),
        up.new_sha256 == chosen_build(detail, platform)->0.sha256,
        up.new_sha256 matches Some(x) && x@ == sha256@,
    ensures
        !upgrade_needed(upgraded_record(up, sha256, installed_at), detail, platform),
{
}

/// Whether `up` upgrades `installed` to the build that `detail` has for
/// `platform` (or its "default" one), for the same path and provenance.
pub open spec fn upgrade_of(installed: InstalledTool, detail: ToolDetailResponse, platform: Seq<char>, up: UpgradePlan) -> bool {
    match chosen_build(detail, platform) {
        None => false,
        Some(build) => {
            &&& up.project_slug == installed.project_slug
            &&& up.tool_slug == installed.tool_slug
            &&& up.old_version == installed.version
            &&& up.new_version == build.version
            &&& up.new_sha256 == build.sha256
            &&& up.platform_key@ == if platform_position(detail.tool.platforms@, platform) is Some {
                platform
            } else {
                "default"@
            }
            &&& up.latest_filename == build.latest_filename
            &&& up.size_bytes == build.size_bytes
            &&& up.path == installed.path
            &&& up.auto_dependency == installed.auto_dependency
            &&& up.installed_by == installed.installed_by
        },
    }
}

/// The upgrade of an installed tool given its current detail: none when
/// there is no build for the platform (nor a "default" one) or the build's
/// SHA-256 is the installed one; otherwise the build of the platform, or of
/// "default", for the same path.
pub fn plan_upgrade(installed: &InstalledTool, detail: &ToolDetailResponse, platform: &str) -> (r:
    Option<UpgradePlan>)
    ensures
        r is Some <==> upgrade_needed(*installed, *detail, platform@),
        r matches Some(up) ==> upgrade_of(*installed, *detail, platform@, up),
{
    let ps = &detail.tool.platforms;
    let own = platform_index(ps, platform);
    let chosen = match own {
        Some(i) => Some(i),
        None => platform_index(ps, "default"),
    };
    match chosen {
        None => None,
        Some(i) => {
            let build = &ps[i].1;
            let same = match (&installed.sha256, &build.sha256) {
                (Some(a), Some(b)) => *a == *b,
                _ => false,
            };
            if same {
                return None;
            }
            let platform_key = if own.is_some() {
                text_from(platform)
            } else {
                text_from("default")
            };
            Some(
                UpgradePlan {
                    project_slug: installed.project_slug.clone(),
                    tool_slug: installed.tool_slug.clone(),
                    old_version: copy_opt(&installed.version),
                    new_version: copy_opt(&build.version),
                    new_sha256: copy_opt(&build.sha256),
                    platform_key,
                    latest_filename: build.latest_filename.clone(),
                    size_bytes: build.size_bytes,
                    path: installed.path.clone(),
                    auto_dependency: installed.auto_dependency,
                    installed_by: copy_opt(&installed.installed_by),
                },
            )
        },
    }
}

/// Adds the upgrade of `installed` to `plans` when its current detail was
/// fetched and an upgrade is needed. A tool whose detail could not be
/// fetched is skipped, and the others are still checked.
pub fn collect_upgrade(
    plans: &mut Vec<UpgradePlan>,
    installed: &InstalledTool,
    detail: Option<&ToolDetailResponse>,
    platform: &str,
)
    ensures
        match detail {
            Some(d) => if upgrade_needed(*installed, *d, platform@) {
                &&& final(plans)@.len() == old(plans)@.len() + 1
                &&& final(plans)@.take(old(plans)@.len() as int) == old(plans)@
                &&& upgrade_of(*installed, *d, platform@, final(plans)@.last())
            } else {
                final(plans)@ == old(plans)@
            },
            None => final(plans)@ == old(plans)@,
        },
{
    if let Some(d) = detail {
        if let Some(up) = plan_upgrade(installed, d, platform) {
            plans.push(up);
            assert(plans@.take(old(plans)@.len() as int) =~= old(plans)@);
        }
    }
}

/// The line of the upgrade plan for upgrade number `n` (counted from one):
/// `n. project/tool old → new`, with "?" for an unknown installed version
/// and "latest" for an unknown new one.
pub open spec fn upgrade_line_text(n: nat, up: UpgradePlan) -> Seq<char> {
    decimal(n) + ". "@ + up.project_slug@ + "/"@ + up.tool_slug@ + " "@ + match up.old_version {
        Some(v) => v@,
        None => "?"@,
    } + " → "@ + match up.new_version {
        Some(v) => v@,
        None => "latest"@,
    }
}

/// The line of the upgrade plan for upgrade number `n`.
pub fn upgrade_line(n: u64, up: &UpgradePlan) -> (r: String)
    ensures
        r@ == upgrade_line_text(n as nat, *up),
{
    let mut r = String::new();
    push_decimal(&mut r, n);
    append_text(&mut r, ". ");
    append_text(&mut r, up.project_slug.as_str());
    append_text(&mut r, "/");
    append_text(&mut r, up.tool_slug.as_str());
    append_text(&mut r, " ");
    match &up.old_version {
        Some(v) => append_text(&mut r, v.as_str()),
        None => append_text(&mut r, "?"),
    }
    append_text(&mut r, " → ");
    match &up.new_version {
        Some(v) => append_text(&mut r, v.as_str()),
        None => append_text(&mut r, "latest"),
    }
    assert(r@ =~= upgrade_line_text(n as nat, *up));
    r
}

/// The presign request for an upgrade's build.
pub fn upgrade_presign_request(up: &UpgradePlan) -> (r: PresignLatestRequest)
    ensures
        r.project == up.project_slug,
        r.tool == up.tool_slug,
        r.platform_arch == up.platform_key,
        r.latest_filename == up.latest_filename,
{
    PresignLatestRequest {
        project: up.project_slug.clone(),
        tool: up.tool_slug.clone(),
        platform_arch: up.platform_key.clone(),
        latest_filename: up.latest_filename.clone(),
    }
}

/// The record of an upgraded tool: same place and provenance, the new
/// version and the digest of what was written.
pub fn upgrade_record(up: &UpgradePlan, sha256: String, installed_at: String) -> (r: InstalledTool)
    ensures
        r == upgraded_record(*up, sha256, installed_at),
{
    InstalledTool {
        project_slug: up.project_slug.clone(),
        tool_slug: up.tool_slug.clone(),
        version: copy_opt(&up.new_version),
        sha256: Some(sha256),
        path: up.path.clone(),
        installed_at,
        auto_dependency: up.auto_dependency,
        installed_by: copy_opt(&up.installed_by),
    }
}

/// The record of an upgrade written now with digest `sha256`; the install
/// time is the clock's.
pub fn record_upgraded(up: &UpgradePlan, sha256: String) -> (r: InstalledTool)
    ensures
        r.project_slug == up.project_slug,
        r.tool_slug == up.tool_slug,
        r.version == up.new_version,
        r.sha256 == Some(sha256),
        r.path == up.path,
        r.auto_dependency == up.auto_dependency,
        r.installed_by == up.installed_by,
{
    let now = now_rfc3339();
    upgrade_record(up, sha256, now)
}

} // verus!
