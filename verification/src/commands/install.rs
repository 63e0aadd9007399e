//! Planning an install: which project a tool belongs to, the dependency
//! walk that orders builds before the tools that need them, and the record
//! kept for each installed build.
use vstd::prelude::*;

use crate::client::api::{
    platform_index, platform_key_list, platform_keys, platform_lookup, platform_position,
    CatalogProject, CatalogResponse, CatalogTool, PlatformInfo, PresignLatestRequest,
    ToolDetailResponse,
};
use crate::config::now_rfc3339;
use crate::state::local::{lookup, make_tool_key, tool_key, InstalledTool, StateFile};
use crate::text::{
    append_text, copy_opt, decimal, digit_char, digit_char_of, join_texts, joined, push_char,
    push_decimal, push_signed_decimal, signed_decimal, text_eq, text_from, texts,
};

verus! {

broadcast use vstd::seq_lib::group_seq_properties;

/// A tool detail fetched from the portal, with the project and tool it was
/// requested for.
pub struct FetchedDetail {
    pub project_slug: String,
    pub tool_slug: String,
    pub detail: ToolDetailResponse,
}

/// A resolved install step.
pub struct InstallStep {
    pub project_slug: String,
    pub tool_slug: String,
    pub platform: PlatformInfo,
    pub platform_key: String,
    /// "target" for the requested tool; for a dependency, the type under
    /// which it was reached: "required", "recommended" or "optional".
    pub dep_type: String,
    pub auto_dependency: bool,
    pub installed_by: Option<String>,
    pub prerequisites: Option<String>,
}

/// What a step says, as text.
pub struct StepView {
    pub project: Seq<char>,
    pub tool: Seq<char>,
    pub platform: PlatformInfo,
    pub platform_key: Seq<char>,
    pub dep_type: Seq<char>,
    pub auto_dependency: bool,
    pub installed_by: Option<Seq<char>>,
    pub prerequisites: Option<Seq<char>>,
}

pub open spec fn opt_text(o: Option<String>) -> Option<Seq<char>> {
    match o {
        Some(s) => Some(s@),
        None => None,
    }
}

impl View for InstallStep {
    type V = StepView;

    open spec fn view(&self) -> StepView {
        StepView {
            project: self.project_slug@,
            tool: self.tool_slug@,
            platform: self.platform,
            platform_key: self.platform_key@,
            dep_type: self.dep_type@,
            auto_dependency: self.auto_dependency,
            installed_by: opt_text(self.installed_by),
            prerequisites: opt_text(self.prerequisites),
        }
    }
}

impl Clone for InstallStep {
    fn clone(&self) -> (r: Self)
        ensures
            r == *self,
    {
        InstallStep {
            project_slug: self.project_slug.clone(),
            tool_slug: self.tool_slug.clone(),
            platform: self.platform.clone(),
            platform_key: self.platform_key.clone(),
            dep_type: self.dep_type.clone(),
            auto_dependency: self.auto_dependency,
            installed_by: copy_opt(&self.installed_by),
            prerequisites: copy_opt(&self.prerequisites),
        }
    }
}

/// Why a plan could not be made.
pub enum PlanError {
    /// The detail of this tool has not been fetched yet.
    NeedDetail { project_slug: String, tool_slug: String },
    /// The requested tool has no build for the platform.
    NoPlatformBuild {
        project_slug: String,
        tool_slug: String,
        platform: String,
        available: Vec<String>,
    },
}

/// Why a plan could not be made, as text. `OutOfFuel` only arises when the
/// walk is given too little depth, which `plan_install` never does.
pub enum PlanFailure {
    NeedDetail(Seq<char>, Seq<char>),
    NoPlatformBuild(Seq<char>, Seq<char>, Seq<char>, Seq<Seq<char>>),
    OutOfFuel,
}

impl View for PlanError {
    type V = PlanFailure;

    open spec fn view(&self) -> PlanFailure {
        match self {
            PlanError::NeedDetail { project_slug, tool_slug } => PlanFailure::NeedDetail(
                project_slug@,
                tool_slug@,
            ),
            PlanError::NoPlatformBuild { project_slug, tool_slug, platform, available } =>
                PlanFailure::NoPlatformBuild(
                project_slug@,
                tool_slug@,
                platform@,
                texts(available@),
            ),
        }
    }
}

/// The text shown when planning fails.
pub open spec fn plan_failure_message(f: PlanFailure) -> Seq<char> {
    match f {
        PlanFailure::NeedDetail(p, t) => "Tool detail for "@ + p + "/"@ + t + " is not available."@,
        PlanFailure::NoPlatformBuild(p, t, platform, available) => "Tool "@ + p + "/"@ + t
            + " has no build for platform '"@ + platform + "'.\nAvailable: "@ + joined(
            available,
            ", "@,
        ),
        PlanFailure::OutOfFuel => Seq::empty(),
    }
}

impl PlanError {
    /// The text shown for this error.
    pub fn message(&self) -> (r: String)
        ensures
            r@ == plan_failure_message(self@),
    {
        match self {
            PlanError::NeedDetail { project_slug, tool_slug } => {
                let mut r = text_from("Tool detail for ");
                append_text(&mut r, project_slug.as_str());
                append_text(&mut r, "/");
                append_text(&mut r, tool_slug.as_str());
                append_text(&mut r, " is not available.");
                r
            },
            PlanError::NoPlatformBuild { project_slug, tool_slug, platform, available } => {
                let mut r = text_from("Tool ");
                append_text(&mut r, project_slug.as_str());
                append_text(&mut r, "/");
                append_text(&mut r, tool_slug.as_str());
                append_text(&mut r, " has no build for platform '");
                append_text(&mut r, platform.as_str());
                append_text(&mut r, "'.\nAvailable: ");
                let list = join_texts(available, ", ");
                append_text(&mut r, list.as_str());
                r
            },
        }
    }
}

// ── The dependency walk, as a specification ─────────────────────────

/// What the walk reads besides the fetched details.
pub struct PlanContext {
    pub platform: Seq<char>,
    pub installed: Seq<InstalledTool>,
    pub with_optional: bool,
    pub skip_recommended: bool,
}

/// The walk's progress: the planned steps and the tools already visited.
pub struct PlanState {
    pub steps: Seq<StepView>,
    pub visited: Seq<Seq<char>>,
}

/// The `project/tool` key of a detail.
pub open spec fn detail_key(d: ToolDetailResponse) -> Seq<char> {
    tool_key(d.project.slug@, d.tool.slug@)
}

/// The index of the first detail fetched for `project`/`tool`.
pub open spec fn store_position(store: Seq<FetchedDetail>, project: Seq<char>, tool: Seq<char>) -> Option<
    int,
>
    decreases store.len(),
{
    if store.len() == 0 {
        None
    } else if store[0].project_slug@ == project && store[0].tool_slug@ == tool {
        Some(0)
    } else {
        match store_position(store.drop_first(), project, tool) {
            Some(i) => Some(i + 1),
            None => None,
        }
    }
}

/// The detail fetched for `project`/`tool`, if any.
pub open spec fn store_lookup(store: Seq<FetchedDetail>, project: Seq<char>, tool: Seq<char>) -> Option<
    ToolDetailResponse,
> {
    match store_position(store, project, tool) {
        Some(i) => Some(store[i].detail),
        None => None,
    }
}

/// Whether a dependency of this type is followed: required always,
/// recommended unless skipped, optional only when asked for.
pub open spec fn dependency_followed(dep_type: Seq<char>, with_optional: bool, skip_recommended: bool) -> bool {
    if dep_type == "required"@ {
        true
    } else if dep_type == "recommended"@ {
        !skip_recommended
    } else if dep_type == "optional"@ {
        with_optional
    } else {
        false
    }
}

/// The build chosen for a detail: the platform's, else the "default" one.
pub open spec fn chosen_build(d: ToolDetailResponse, platform: Seq<char>) -> Option<PlatformInfo> {
    match platform_lookup(d.tool.platforms@, platform) {
        Some(p) => Some(p),
        None => platform_lookup(d.tool.platforms@, "default"@),
    }
}

/// Whether the recorded install of a tool has the same known SHA-256 as `build`.
pub open spec fn up_to_date(installed: Seq<InstalledTool>, project: Seq<char>, tool: Seq<char>, build: PlatformInfo) -> bool {
    match lookup(installed, project, tool) {
        Some(existing) => match (existing.sha256, build.sha256) {
            (Some(a), Some(b)) => a@ == b@,
            _ => false,
        },
        None => false,
    }
}

/// The step planned for detail `d` with the given build, reached as a
/// dependency of type `via` when it has an installer.
pub open spec fn step_for(
    d: ToolDetailResponse,
    build: PlatformInfo,
    ctx: PlanContext,
    installed_by: Option<Seq<char>>,
    via: Seq<char>,
) -> StepView {
    StepView {
        project: d.project.slug@,
        tool: d.tool.slug@,
        platform: build,
        platform_key: if platform_position(d.tool.platforms@, ctx.platform) is Some {
            ctx.platform
        } else {
            "default"@
        },
        dep_type: if installed_by is None { "target"@ } else { via },
        auto_dependency: installed_by is Some,
        installed_by: installed_by,
        prerequisites: opt_text(d.tool.prerequisites),
    }
}

/// The last part of visiting a tool, after its dependencies: plan its step
/// unless it has no build (an error for the requested tool, a skip for a
/// dependency) or is already installed with the same SHA-256.
pub open spec fn finish_visit(
    d: ToolDetailResponse,
    ctx: PlanContext,
    installed_by: Option<Seq<char>>,
    via: Seq<char>,
    st: PlanState,
) -> Result<PlanState, PlanFailure> {
    match chosen_build(d, ctx.platform) {
        None => if installed_by is None {
            Err(
                PlanFailure::NoPlatformBuild(
                    d.project.slug@,
                    d.tool.slug@,
                    ctx.platform,
                    platform_keys(d.tool.platforms@),
                ),
            )
        } else {
            Ok(st)
        },
        Some(build) => if up_to_date(ctx.installed, d.project.slug@, d.tool.slug@, build) {
            Ok(st)
        } else {
            Ok(PlanState { steps: st.steps.push(step_for(d, build, ctx, installed_by, via)), ..st })
        },
    }
}

/// The build a visit plans for a tool is the one it has for the requested
/// platform, under that platform's key; only when it has none is its
/// "default" build planned, under the key "default"; with neither, the
/// requested tool is refused and a dependency is left out. The step is
/// planned unless the tool is recorded with that build's known SHA-256.
pub proof fn law_step_takes_platform_build(
    d: ToolDetailResponse,
    ctx: PlanContext,
    installed_by: Option<Seq<char>>,
    via: Seq<char>,
    st: PlanState,
)
    ensures
        ({
            let ps = d.tool.platforms@;
            let own = platform_lookup(ps, ctx.platform);
            let fallback = platform_lookup(ps, "default"@);
            let r = finish_visit(d, ctx, installed_by, via, st);
            match (if own is Some { own } else { fallback }) {
                Some(b) => r matches Ok(st2) && st2.visited == st.visited && st2.steps.take(
                    st.steps.len() as int,
                ) == st.steps && if up_to_date(ctx.installed, d.project.slug@, d.tool.slug@, b) {
                    st2.steps.len() == st.steps.len()
                } else {
                    &&& st2.steps.len() == st.steps.len() + 1
                    &&& st2.steps.last().platform == b
                    &&& st2.steps.last().platform_key == (if own is Some {
                        ctx.platform
                    } else {
                        "default"@
                    })
                    &&& st2.steps.last().project == d.project.slug@
                    &&& st2.steps.last().tool == d.tool.slug@
                },
                None => if installed_by is None {
                    r matches Err(PlanFailure::NoPlatformBuild(p, t, pl, _)) && p == d.project.slug@
                        && t == d.tool.slug@ && pl == ctx.platform
                } else {
                    r == Ok::<PlanState, PlanFailure>(st)
                },
            }
        }),
{
    let ps = d.tool.platforms@;
    match chosen_build(d, ctx.platform) {
        Some(b) => {
            if !up_to_date(ctx.installed, d.project.slug@, d.tool.slug@, b) {
                let st2 = PlanState { steps: st.steps.push(step_for(d, b, ctx, installed_by, via)), ..st };
                assert(st2.steps.take(st.steps.len() as int) =~= st.steps);
            } else {
                assert(st.steps.take(st.steps.len() as int) =~= st.steps);
            }
        },
        None => {},
    }
}

/// Visiting a tool: nothing if it was visited before; otherwise mark it,
/// visit its followed dependencies in order, then plan its own step.
pub open spec fn plan_visit(
    store: Seq<FetchedDetail>,
    d: ToolDetailResponse,
    ctx: PlanContext,
    installed_by: Option<Seq<char>>,
    via: Seq<char>,
    st: PlanState,
    fuel: nat,
) -> Result<PlanState, PlanFailure>
    decreases fuel, 0int,
{
    let key = detail_key(d);
    if st.visited.contains(key) {
        Ok(st)
    } else if fuel == 0 {
        Err(PlanFailure::OutOfFuel)
    } else {
        let st1 = PlanState { visited: st.visited.push(key), ..st };
        match plan_dependencies(store, d.tool.dependencies@, 0, key, ctx, st1, (fuel - 1) as nat) {
            Ok(st2) => finish_visit(d, ctx, installed_by, via, st2),
            Err(e) => Err(e),
        }
    }
}

/// Visiting the dependencies `deps[i..]` of the tool with key `parent`.
pub open spec fn plan_dependencies(
    store: Seq<FetchedDetail>,
    deps: Seq<crate::client::api::ToolDependency>,
    i: int,
    parent: Seq<char>,
    ctx: PlanContext,
    st: PlanState,
    fuel: nat,
) -> Result<PlanState, PlanFailure>
    decreases fuel, deps.len() - i + 1,
{
    if i < 0 || i >= deps.len() {
        Ok(st)
    } else {
        let dep = deps[i];
        if !dependency_followed(dep.dependency_type@, ctx.with_optional, ctx.skip_recommended)
            || st.visited.contains(tool_key(dep.project_slug@, dep.tool_slug@)) {
            plan_dependencies(store, deps, i + 1, parent, ctx, st, fuel)
        } else {
            match store_lookup(store, dep.project_slug@, dep.tool_slug@) {
                None => Err(PlanFailure::NeedDetail(dep.project_slug@, dep.tool_slug@)),
                Some(dd) => match plan_visit(store, dd, ctx, Some(parent), dep.dependency_type@, st, fuel) {
                    Ok(st2) => plan_dependencies(store, deps, i + 1, parent, ctx, st2, fuel),
                    Err(e) => Err(e),
                },
            }
        }
    }
}

/// The install plan for `project`/`tool`: the steps of a walk from the
/// requested tool, dependencies before the tools that need them, or why
/// there is none.
pub open spec fn install_plan(
    store: Seq<FetchedDetail>,
    project: Seq<char>,
    tool: Seq<char>,
    ctx: PlanContext,
) -> Result<Seq<StepView>, PlanFailure> {
    match store_lookup(store, project, tool) {
        None => Err(PlanFailure::NeedDetail(project, tool)),
        Some(d) => match plan_visit(
            store,
            d,
            ctx,
            None,
            "target"@,
            PlanState { steps: Seq::empty(), visited: Seq::empty() },
            store.len() + 1,
        ) {
            Ok(st) => Ok(st.steps),
            Err(e) => Err(e),
        },
    }
}

// ── What every plan satisfies ────────────────────────────────────────

/// The `project/tool` key of a planned step.
pub open spec fn step_key(s: StepView) -> Seq<char> {
    tool_key(s.project, s.tool)
}

/// What holds of each planned step on its own: the requested tool is the
/// "target" and not an automatic dependency; every other step is an
/// automatic dependency tagged with a dependency type that the walk follows
/// ("required", "recommended" unless skipped, "optional" when asked for);
/// the build is for the platform or the "default" one; and the tool is not
/// already installed with that SHA-256.
pub open spec fn step_well_formed(s: StepView, ctx: PlanContext) -> bool {
    &&& if s.installed_by is None {
        s.dep_type == "target"@ && !s.auto_dependency
    } else {
        dependency_followed(s.dep_type, ctx.with_optional, ctx.skip_recommended) && s.auto_dependency
    }
    &&& (s.platform_key == ctx.platform || s.platform_key == "default"@)
    &&& !up_to_date(ctx.installed, s.project, s.tool, s.platform)
}

/// No tool is planned twice.
pub open spec fn keys_distinct(steps: Seq<StepView>) -> bool {
    forall|i: int, j: int|
        0 <= i < steps.len() && 0 <= j < steps.len() && i != j ==> step_key(#[trigger] steps[i])
            != step_key(#[trigger] steps[j])
}

/// A step comes before the step of the tool that installs it.
pub open spec fn dependencies_first(steps: Seq<StepView>) -> bool {
    forall|i: int, j: int|
        0 <= i < steps.len() && 0 <= j < steps.len() && (#[trigger] steps[i]).installed_by == Some(
            step_key(#[trigger] steps[j]),
        ) ==> i < j
}

/// What a walk state needs for planning to go on soundly from it: no tool
/// is planned twice, and every planned tool has been visited.
pub open spec fn walk_state_sound(st: PlanState) -> bool {
    &&& keys_distinct(st.steps)
    &&& forall|i: int| 0 <= i < st.steps.len() ==> st.visited.contains(step_key(#[trigger] st.steps[i]))
}

/// How a walk from `st` may leave `st2`: still sound, with every tool
/// visited before still visited, the earlier steps kept in place, and new
/// steps only for tools not visited before.
pub open spec fn walk_grows(st: PlanState, st2: PlanState) -> bool {
    &&& walk_state_sound(st2)
    &&& forall|k: Seq<char>| st.visited.contains(k) ==> st2.visited.contains(k)
    &&& st.steps.len() <= st2.steps.len()
    &&& forall|j: int| 0 <= j < st.steps.len() ==> st2.steps[j] == st.steps[j]
    &&& forall|j: int|
        st.steps.len() <= j < st2.steps.len() ==> !st.visited.contains(step_key(#[trigger] st2.steps[j]))
}

/// Whether a missing detail that a walk from `st` asks for is one that is
/// neither fetched nor visited yet.
pub open spec fn asks_only_new(store: Seq<FetchedDetail>, st: PlanState, r: Result<PlanState, PlanFailure>) -> bool {
    r matches Err(PlanFailure::NeedDetail(p, t)) ==> store_lookup(store, p, t) is None
        && !st.visited.contains(tool_key(p, t))
}

/// A sound walk state whose steps also come after their dependencies and
/// are each well formed.
pub open spec fn plan_invariant(st: PlanState, ctx: PlanContext) -> bool {
    &&& walk_state_sound(st)
    &&& dependencies_first(st.steps)
    &&& forall|i: int| 0 <= i < st.steps.len() ==> step_well_formed(#[trigger] st.steps[i], ctx)
}

/// What a visit that succeeds leaves: the walk grown, the invariant, and of
/// the new steps only a last step of the requested tool lacks an installer.
pub open spec fn visit_post(
    st: PlanState,
    st2: PlanState,
    ctx: PlanContext,
    installed_by: Option<Seq<char>>,
) -> bool {
    &&& walk_grows(st, st2)
    &&& plan_invariant(st2, ctx)
    &&& forall|j: int|
        st.steps.len() <= j < st2.steps.len() && (#[trigger] st2.steps[j]).installed_by is None
            ==> installed_by is None && j == st2.steps.len() - 1
}

pub open spec fn visit_pre(st: PlanState, ctx: PlanContext, installed_by: Option<Seq<char>>) -> bool {
    &&& plan_invariant(st, ctx)
    &&& installed_by matches Some(b) ==> st.visited.contains(b) && forall|i: int|
        0 <= i < st.steps.len() ==> step_key(#[trigger] st.steps[i]) != b
}

/// Whether a visit starts from a state that keeps the full invariant, for a
/// tool reached, when it has an installer, under a followed dependency type.
pub open spec fn full_visit(st: PlanState, ctx: PlanContext, installed_by: Option<Seq<char>>, via: Seq<char>) -> bool {
    visit_pre(st, ctx, installed_by) && (installed_by is Some ==> dependency_followed(
        via,
        ctx.with_optional,
        ctx.skip_recommended,
    ))
}

proof fn lemma_finish_visit(
    d: ToolDetailResponse,
    ctx: PlanContext,
    installed_by: Option<Seq<char>>,
    via: Seq<char>,
    st0: PlanState,
    st2: PlanState,
)
    requires
        walk_state_sound(st0),
        !st0.visited.contains(detail_key(d)),
        walk_grows(PlanState { visited: st0.visited.push(detail_key(d)), ..st0 }, st2),
        full_visit(st0, ctx, installed_by, via) ==> visit_post(
            PlanState { visited: st0.visited.push(detail_key(d)), ..st0 },
            st2,
            ctx,
            Some(detail_key(d)),
        ),
    ensures
        finish_visit(d, ctx, installed_by, via, st2) matches Ok(st3) ==> walk_grows(st0, st3)
            && st3.visited.contains(detail_key(d)),
        !(finish_visit(d, ctx, installed_by, via, st2) matches Err(PlanFailure::NeedDetail(_, _))),
        full_visit(st0, ctx, installed_by, via) ==> (finish_visit(d, ctx, installed_by, via, st2) matches Ok(
            st3,
        ) ==> visit_post(st0, st3, ctx, installed_by)),
{
    let key = detail_key(d);
    let st1 = PlanState { visited: st0.visited.push(key), ..st0 };
    let full = full_visit(st0, ctx, installed_by, via);
    assert(st1.visited[st0.visited.len() as int] == key);
    assert forall|k: Seq<char>| st0.visited.contains(k) implies st2.visited.contains(k) by {
        let j = choose|j: int| 0 <= j < st0.visited.len() && st0.visited[j] == k;
        assert(st1.visited[j] == k);
    }
    assert forall|j: int| st0.steps.len() <= j < st2.steps.len() implies !st0.visited.contains(
        step_key(#[trigger] st2.steps[j]),
    ) by {
        if st0.visited.contains(step_key(st2.steps[j])) {
            let m = choose|m: int| 0 <= m < st0.visited.len() && st0.visited[m] == step_key(st2.steps[j]);
            assert(st1.visited[m] == step_key(st2.steps[j]));
        }
    }
    match chosen_build(d, ctx.platform) {
        None => {},
        Some(build) => {
            if !up_to_date(ctx.installed, d.project.slug@, d.tool.slug@, build) {
                let s = step_for(d, build, ctx, installed_by, via);
                let st3 = PlanState { steps: st2.steps.push(s), ..st2 };
                let n = st2.steps.len();
                assert(step_key(s) == key);
                // the new step's key differs from every earlier one
                assert forall|i: int| 0 <= i < n implies step_key(#[trigger] st2.steps[i]) != key by {
                    if i < st0.steps.len() {
                        assert(st2.steps[i] == st0.steps[i]);
                        assert(st0.visited.contains(step_key(st0.steps[i])));
                    } else {
                        assert(!st1.visited.contains(step_key(st2.steps[i])));
                    }
                }
                assert(keys_distinct(st3.steps)) by {
                    assert forall|i: int, j: int|
                        0 <= i < st3.steps.len() && 0 <= j < st3.steps.len() && i != j implies step_key(
                        #[trigger] st3.steps[i],
                    ) != step_key(#[trigger] st3.steps[j]) by {
                        if i < n && j < n {
                            assert(st3.steps[i] == st2.steps[i]);
                            assert(st3.steps[j] == st2.steps[j]);
                        } else if i == n {
                            assert(st3.steps[j] == st2.steps[j]);
                        } else {
                            assert(st3.steps[i] == st2.steps[i]);
                        }
                    }
                }
                assert forall|i: int| 0 <= i < st3.steps.len() implies st3.visited.contains(
                    step_key(#[trigger] st3.steps[i]),
                ) by {
                    if i < n {
                        assert(st3.steps[i] == st2.steps[i]);
                    }
                }
                assert forall|j: int| st0.steps.len() <= j < st3.steps.len() implies !st0.visited.contains(
                    step_key(#[trigger] st3.steps[j]),
                ) by {
                    if j < n {
                        assert(st3.steps[j] == st2.steps[j]);
                    }
                }
                if full {
                    // no earlier step belongs to the installer of the new one
                    assert forall|i: int| 0 <= i < n implies (installed_by matches Some(b) ==> step_key(
                        #[trigger] st2.steps[i],
                    ) != b) by {
                        if let Some(b) = installed_by {
                            if i < st0.steps.len() {
                                assert(st2.steps[i] == st0.steps[i]);
                            } else {
                                assert(!st1.visited.contains(step_key(st2.steps[i])));
                                assert(st1.visited.contains(b));
                            }
                        }
                    }
                    assert(dependencies_first(st3.steps)) by {
                        assert forall|i: int, j: int|
                            0 <= i < st3.steps.len() && 0 <= j < st3.steps.len() && (#[trigger] st3.steps[i]).installed_by
                                == Some(step_key(#[trigger] st3.steps[j])) implies i < j by {
                            if i < n && j < n {
                                assert(st3.steps[i] == st2.steps[i]);
                                assert(st3.steps[j] == st2.steps[j]);
                            } else if i == n && j < n {
                                assert(st3.steps[j] == st2.steps[j]);
                            } else if i == n && j == n {
                                if let Some(b) = installed_by {
                                    assert(st0.visited.contains(b));
                                }
                            }
                        }
                    }
                    assert forall|i: int| 0 <= i < st3.steps.len() implies step_well_formed(
                        #[trigger] st3.steps[i],
                        ctx,
                    ) by {
                        if i < n {
                            assert(st3.steps[i] == st2.steps[i]);
                        }
                    }
                    assert forall|j: int|
                        st0.steps.len() <= j < st3.steps.len() && (#[trigger] st3.steps[j]).installed_by
                            is None implies installed_by is None && j == st3.steps.len() - 1 by {
                        if j < n {
                            assert(st3.steps[j] == st2.steps[j]);
                        }
                    }
                }
            }
        },
    }
}

proof fn lemma_plan_visit(
    store: Seq<FetchedDetail>,
    d: ToolDetailResponse,
    ctx: PlanContext,
    installed_by: Option<Seq<char>>,
    via: Seq<char>,
    st: PlanState,
    fuel: nat,
)
    requires
        walk_state_sound(st),
    ensures
        plan_visit(store, d, ctx, installed_by, via, st, fuel) matches Ok(st2) ==> walk_grows(st, st2)
            && st2.visited.contains(detail_key(d)),
        asks_only_new(store, st, plan_visit(store, d, ctx, installed_by, via, st, fuel)),
        full_visit(st, ctx, installed_by, via) ==> (plan_visit(store, d, ctx, installed_by, via, st, fuel) matches Ok(
            st2,
        ) ==> visit_post(st, st2, ctx, installed_by)),
    decreases fuel, 0int,
{
    let key = detail_key(d);
    if !st.visited.contains(key) && fuel > 0 {
        let st1 = PlanState { visited: st.visited.push(key), ..st };
        assert(st1.visited[st.visited.len() as int] == key);
        assert forall|i: int| 0 <= i < st1.steps.len() implies st1.visited.contains(
            step_key(#[trigger] st1.steps[i]),
        ) by {
            let m = choose|m: int| 0 <= m < st.visited.len() && st.visited[m] == step_key(st.steps[i]);
            assert(st1.visited[m] == step_key(st.steps[i]));
        }
        assert forall|i: int| 0 <= i < st1.steps.len() implies step_key(#[trigger] st1.steps[i]) != key by {
            assert(st.visited.contains(step_key(st.steps[i])));
        }
        lemma_plan_dependencies(store, d.tool.dependencies@, 0, key, ctx, st1, (fuel - 1) as nat);
        match plan_dependencies(store, d.tool.dependencies@, 0, key, ctx, st1, (fuel - 1) as nat) {
            Ok(st2) => {
                lemma_finish_visit(d, ctx, installed_by, via, st, st2);
            },
            Err(e) => {
                if let PlanFailure::NeedDetail(p, t) = e {
                    if st.visited.contains(tool_key(p, t)) {
                        let m = choose|m: int| 0 <= m < st.visited.len() && st.visited[m] == tool_key(p, t);
                        assert(st1.visited[m] == tool_key(p, t));
                    }
                }
            },
        }
    }
}

proof fn lemma_plan_dependencies(
    store: Seq<FetchedDetail>,
    deps: Seq<crate::client::api::ToolDependency>,
    i: int,
    parent: Seq<char>,
    ctx: PlanContext,
    st: PlanState,
    fuel: nat,
)
    requires
        walk_state_sound(st),
    ensures
        plan_dependencies(store, deps, i, parent, ctx, st, fuel) matches Ok(st2) ==> walk_grows(st, st2),
        asks_only_new(store, st, plan_dependencies(store, deps, i, parent, ctx, st, fuel)),
        visit_pre(st, ctx, Some(parent)) ==> (plan_dependencies(store, deps, i, parent, ctx, st, fuel) matches Ok(
            st2,
        ) ==> visit_post(st, st2, ctx, Some(parent)) && forall|j: int|
            st.steps.len() <= j < st2.steps.len() ==> step_key(#[trigger] st2.steps[j]) != parent),
    decreases fuel, deps.len() - i + 1,
{
    if 0 <= i < deps.len() {
        let dep = deps[i];
        if !dependency_followed(dep.dependency_type@, ctx.with_optional, ctx.skip_recommended)
            || st.visited.contains(tool_key(dep.project_slug@, dep.tool_slug@)) {
            lemma_plan_dependencies(store, deps, i + 1, parent, ctx, st, fuel);
        } else {
            match store_lookup(store, dep.project_slug@, dep.tool_slug@) {
                None => {},
                Some(dd) => {
                    let full = visit_pre(st, ctx, Some(parent));
                    lemma_plan_visit(store, dd, ctx, Some(parent), dep.dependency_type@, st, fuel);
                    match plan_visit(store, dd, ctx, Some(parent), dep.dependency_type@, st, fuel) {
                        Ok(st2) => {
                            if full {
                                assert(st2.visited.contains(parent));
                                assert forall|j: int| 0 <= j < st2.steps.len() implies step_key(
                                    #[trigger] st2.steps[j],
                                ) != parent by {
                                    if j < st.steps.len() {
                                        assert(st2.steps[j] == st.steps[j]);
                                    } else {
                                        assert(!st.visited.contains(step_key(st2.steps[j])));
                                    }
                                }
                            }
                            lemma_plan_dependencies(store, deps, i + 1, parent, ctx, st2, fuel);
                            match plan_dependencies(store, deps, i + 1, parent, ctx, st2, fuel) {
                                Ok(st3) => {
                                    assert forall|j: int|
                                        st.steps.len() <= j < st3.steps.len() implies !st.visited.contains(
                                        step_key(#[trigger] st3.steps[j]),
                                    ) by {
                                        if j < st2.steps.len() {
                                            assert(st3.steps[j] == st2.steps[j]);
                                        } else {
                                            if st.visited.contains(step_key(st3.steps[j])) {
                                                assert(st2.visited.contains(step_key(st3.steps[j])));
                                            }
                                        }
                                    }
                                    if full {
                                        assert forall|j: int|
                                            st.steps.len() <= j < st3.steps.len() && (#[trigger] st3.steps[j]).installed_by
                                                is None implies false by {
                                            if j < st2.steps.len() {
                                                assert(st3.steps[j] == st2.steps[j]);
                                            }
                                        }
                                        assert forall|j: int| st.steps.len() <= j < st3.steps.len() implies step_key(
                                            #[trigger] st3.steps[j],
                                        ) != parent by {
                                            if j < st2.steps.len() {
                                                assert(st3.steps[j] == st2.steps[j]);
                                            }
                                        }
                                    }
                                },
                                Err(e) => {
                                    if let PlanFailure::NeedDetail(p, t) = e {
                                        if st.visited.contains(tool_key(p, t)) {
                                            assert(st2.visited.contains(tool_key(p, t)));
                                        }
                                    }
                                },
                            }
                        },
                        Err(_) => {},
                    }
                },
            }
        }
    }
}

/// Every install plan plans no tool twice, puts each dependency before the
/// tool that installs it, gives only the requested tool no installer (and
/// then as the last step), and holds only well-formed steps.
pub proof fn law_install_plan_shape(
    store: Seq<FetchedDetail>,
    project: Seq<char>,
    tool: Seq<char>,
    ctx: PlanContext,
)
    ensures
        install_plan(store, project, tool, ctx) matches Ok(steps) ==> {
            &&& keys_distinct(steps)
            &&& dependencies_first(steps)
            &&& forall|i: int|
                0 <= i < steps.len() && (#[trigger] steps[i]).installed_by is None ==> i
                    == steps.len() - 1
            &&& forall|i: int| 0 <= i < steps.len() ==> step_well_formed(#[trigger] steps[i], ctx)
        },
{
    match store_lookup(store, project, tool) {
        None => {},
        Some(d) => {
            let st = PlanState { steps: Seq::empty(), visited: Seq::empty() };
            lemma_plan_visit(store, d, ctx, None, "target"@, st, (store.len() + 1) as nat);
        },
    }
}

/// Walking from any sound state: a visit that succeeds leaves a sound
/// state in which the visited tool and every tool visited before stay
/// visited, the earlier steps stay in place and each new step is for a tool
/// not visited before, so no tool is planned twice; a visit that stops for
/// a missing detail asks only for one that is neither in the store nor
/// visited before.
pub proof fn law_plan_walk(
    store: Seq<FetchedDetail>,
    d: ToolDetailResponse,
    ctx: PlanContext,
    installed_by: Option<Seq<char>>,
    via: Seq<char>,
    st: PlanState,
    fuel: nat,
)
    requires
        walk_state_sound(st),
    ensures
        plan_visit(store, d, ctx, installed_by, via, st, fuel) matches Ok(st2) ==> walk_grows(st, st2)
            && st2.visited.contains(detail_key(d)),
        asks_only_new(store, st, plan_visit(store, d, ctx, installed_by, via, st, fuel)),
{
    lemma_plan_visit(store, d, ctx, installed_by, via, st, fuel);
}

proof fn lemma_store_push(store: Seq<FetchedDetail>, f: FetchedDetail, p: Seq<char>, t: Seq<char>)
    ensures
        store_position(store.push(f), p, t) == match store_position(store, p, t) {
            Some(i) => Some(i),
            None => if f.project_slug@ == p && f.tool_slug@ == t {
                Some(store.len() as int)
            } else {
                None
            },
        },
        store_position(store, p, t) matches Some(i) ==> 0 <= i < store.len(),
    decreases store.len(),
{
    if store.len() > 0 {
        assert(store.push(f)[0] == store[0]);
        assert(store.push(f).drop_first() =~= store.drop_first().push(f));
        lemma_store_push(store.drop_first(), f, p, t);
    } else {
        assert(store.push(f)[0] == f);
        assert(store.push(f).drop_first() =~= Seq::<FetchedDetail>::empty());
        assert(store_position(Seq::<FetchedDetail>::empty(), p, t) is None);
    }
}

/// Re-planning after fetching what a plan asked for: when `install_plan`
/// stops for the detail of `p`/`t` and that detail is added to the store,
/// the store then holds it, keeps every detail it held, and the next plan
/// asks, if at all, for a detail the larger store does not hold. So across
/// re-plans no detail is asked for twice.
pub proof fn law_replan_asks_each_detail_once(
    store: Seq<FetchedDetail>,
    project: Seq<char>,
    tool: Seq<char>,
    ctx: PlanContext,
    f: FetchedDetail,
)
    requires
        install_plan(store, project, tool, ctx) matches Err(PlanFailure::NeedDetail(p, t)) && f.project_slug@
            == p && f.tool_slug@ == t,
    ensures
        store_lookup(store.push(f), f.project_slug@, f.tool_slug@) == Some(f.detail),
        forall|p2: Seq<char>, t2: Seq<char>|
            store_lookup(store, p2, t2) is Some ==> #[trigger] store_lookup(store.push(f), p2, t2)
                == store_lookup(store, p2, t2),
        install_plan(store.push(f), project, tool, ctx) matches Err(PlanFailure::NeedDetail(p2, t2))
            ==> store_lookup(store.push(f), p2, t2) is None && store_lookup(store, p2, t2) is None
            && !(p2 == f.project_slug@ && t2 == f.tool_slug@),
{
    let store2 = store.push(f);
    lemma_need_detail_is_unfetched(store, project, tool, ctx);
    lemma_store_push(store, f, f.project_slug@, f.tool_slug@);
    assert(store2[store.len() as int] == f);
    assert forall|p2: Seq<char>, t2: Seq<char>|
        store_lookup(store, p2, t2) is Some implies #[trigger] store_lookup(store2, p2, t2) == store_lookup(
        store,
        p2,
        t2,
    ) by {
        lemma_store_push(store, f, p2, t2);
        let i = store_position(store, p2, t2)->0;
        assert(store2[i] == store[i]);
    }
    lemma_need_detail_is_unfetched(store2, project, tool, ctx);
    if let Err(PlanFailure::NeedDetail(p2, t2)) = install_plan(store2, project, tool, ctx) {
        lemma_store_push(store, f, p2, t2);
    }
}

proof fn lemma_need_detail_is_unfetched(
    store: Seq<FetchedDetail>,
    project: Seq<char>,
    tool: Seq<char>,
    ctx: PlanContext,
)
    ensures
        install_plan(store, project, tool, ctx) matches Err(PlanFailure::NeedDetail(p, t))
            ==> store_lookup(store, p, t) is None,
{
    match store_lookup(store, project, tool) {
        None => {},
        Some(d) => {
            let st = PlanState { steps: Seq::empty(), visited: Seq::empty() };
            law_plan_walk(store, d, ctx, None, "target"@, st, (store.len() + 1) as nat);
        },
    }
}

// ── Choosing the project ─────────────────────────────────────────────

/// Whether a catalog tool has slug `tool`.
pub open spec fn slug_is(tool: Seq<char>) -> spec_fn(CatalogTool) -> bool {
    |t: CatalogTool| t.slug@ == tool
}

/// The project slug once for each tool of `p` whose slug is `tool`.
pub open spec fn project_hits(p: CatalogProject, tool: Seq<char>) -> Seq<Seq<char>> {
    p.tools@.filter(slug_is(tool)).map_values(|t: CatalogTool| p.slug@)
}

/// The catalog's projects that hold a tool with slug `tool`, once per such
/// tool, in catalog order.
pub open spec fn catalog_matches(projects: Seq<CatalogProject>, tool: Seq<char>) -> Seq<Seq<char>>
    decreases projects.len(),
{
    if projects.len() == 0 {
        Seq::empty()
    } else {
        catalog_matches(projects.drop_last(), tool) + project_hits(projects.last(), tool)
    }
}

proof fn lemma_project_hits(p: CatalogProject, tool: Seq<char>)
    ensures
        forall|k: int| 0 <= k < project_hits(p, tool).len() ==> (#[trigger] project_hits(p, tool)[k])
            == p.slug@,
        project_hits(p, tool).len() > 0 <==> exists|j: int|
            0 <= j < p.tools@.len() && (#[trigger] p.tools@[j]).slug@ == tool,
{
    let pred = slug_is(tool);
    let f = p.tools@.filter(pred);
    assert(project_hits(p, tool).len() == f.len());
    if f.len() > 0 {
        p.tools@.lemma_filter_pred(pred, 0);
        assert(f.contains(f[0]));
        p.tools@.lemma_filter_contains_rev(pred, f[0]);
        let j = choose|j: int| 0 <= j < p.tools@.len() && p.tools@[j] == f[0];
        assert(p.tools@[j].slug@ == tool);
    }
    if exists|j: int| 0 <= j < p.tools@.len() && (#[trigger] p.tools@[j]).slug@ == tool {
        let j = choose|j: int| 0 <= j < p.tools@.len() && (#[trigger] p.tools@[j]).slug@ == tool;
        p.tools@.lemma_filter_contains(pred, j);
        assert(f.contains(p.tools@[j]));
    }
}

/// Whether some project of `projects` with slug `name` holds a tool with
/// slug `tool`.
pub open spec fn holds_slug(projects: Seq<CatalogProject>, tool: Seq<char>, name: Seq<char>) -> bool {
    exists|i: int, j: int|
        0 <= i < projects.len() && 0 <= j < projects[i].tools@.len()
            && (#[trigger] projects[i].tools@[j]).slug@ == tool && projects[i].slug@ == name
}

/// The projects found for a tool are found by the tools' slugs: each one
/// found holds a tool whose slug is the one asked for, and whenever some
/// project holds such a tool, some project is found, whatever the tools'
/// names are.
pub proof fn law_catalog_matches_by_slug(projects: Seq<CatalogProject>, tool: Seq<char>)
    ensures
        forall|k: int|
            0 <= k < catalog_matches(projects, tool).len() ==> holds_slug(
                projects,
                tool,
                #[trigger] catalog_matches(projects, tool)[k],
            ),
        (exists|i: int, j: int|
            0 <= i < projects.len() && 0 <= j < projects[i].tools@.len()
                && (#[trigger] projects[i].tools@[j]).slug@ == tool) ==> catalog_matches(
            projects,
            tool,
        ).len() > 0,
    decreases projects.len(),
{
    if projects.len() > 0 {
        let init = projects.drop_last();
        let p = projects.last();
        law_catalog_matches_by_slug(init, tool);
        lemma_project_hits(p, tool);
        let m0 = catalog_matches(init, tool);
        let h = project_hits(p, tool);
        assert(catalog_matches(projects, tool) == m0 + h);
        assert forall|k: int| 0 <= k < catalog_matches(projects, tool).len() implies holds_slug(
            projects,
            tool,
            #[trigger] catalog_matches(projects, tool)[k],
        ) by {
            let name = catalog_matches(projects, tool)[k];
            if k < m0.len() {
                assert(name == m0[k]);
                assert(holds_slug(init, tool, m0[k]));
                let (i, j) = choose|i: int, j: int|
                    0 <= i < init.len() && 0 <= j < init[i].tools@.len()
                        && (#[trigger] init[i].tools@[j]).slug@ == tool && init[i].slug@ == m0[k];
                assert(projects[i] == init[i]);
                assert(projects[i].tools@[j].slug@ == tool);
            } else {
                assert(name == h[k - m0.len()]);
                assert(h[k - m0.len()] == p.slug@);
                let j = choose|j: int| 0 <= j < p.tools@.len() && (#[trigger] p.tools@[j]).slug@ == tool;
                assert(projects[projects.len() - 1] == p);
                assert(projects[projects.len() - 1].tools@[j].slug@ == tool);
            }
        }
        if exists|i: int, j: int|
            0 <= i < projects.len() && 0 <= j < projects[i].tools@.len()
                && (#[trigger] projects[i].tools@[j]).slug@ == tool {
            let (i, j) = choose|i: int, j: int|
                0 <= i < projects.len() && 0 <= j < projects[i].tools@.len()
                    && (#[trigger] projects[i].tools@[j]).slug@ == tool;
            if i < projects.len() - 1 {
                assert(init[i] == projects[i]);
                assert(init[i].tools@[j].slug@ == tool);
            } else {
                assert(p.tools@[j].slug@ == tool);
            }
        }
    } else {
        assert(catalog_matches(projects, tool).len() == 0);
    }
}

/// Why a tool's project could not be chosen.
pub enum ProjectError {
    NotFound { tool: String },
    Ambiguous { tool: String, projects: Vec<String> },
}

pub open spec fn project_error_message(e: ProjectError) -> Seq<char> {
    match e {
        ProjectError::NotFound { tool } => "Tool '"@ + tool@ + "' not found in catalog."@,
        ProjectError::Ambiguous { tool, projects } => "Tool '"@ + tool@
            + "' found in multiple projects: "@ + joined(texts(projects@), ", "@)
            + ". Use --project to specify."@,
    }
}

impl ProjectError {
    /// The text shown for this error.
    pub fn message(&self) -> (r: String)
        ensures
            r@ == project_error_message(*self),
    {
        match self {
            ProjectError::NotFound { tool } => {
                let mut r = text_from("Tool '");
                append_text(&mut r, tool.as_str());
                append_text(&mut r, "' not found in catalog.");
                r
            },
            ProjectError::Ambiguous { tool, projects } => {
                let mut r = text_from("Tool '");
                append_text(&mut r, tool.as_str());
                append_text(&mut r, "' found in multiple projects: ");
                let list = join_texts(projects, ", ");
                append_text(&mut r, list.as_str());
                append_text(&mut r, ". Use --project to specify.");
                r
            },
        }
    }
}

/// The projects of the catalog that hold tool `tool`, once per match.
pub fn project_matches(catalog: &CatalogResponse, tool: &str) -> (r: Vec<String>)
    ensures
        texts(r@) == catalog_matches(catalog.projects@, tool@),
{
    let mut r: Vec<String> = Vec::new();
    let projects = &catalog.projects;
    let n = projects.len();
    let mut i: usize = 0;
    while i < n
        invariant
            n == projects@.len(),
            projects == &catalog.projects,
            i <= n,
            texts(r@) == catalog_matches(projects@.take(i as int), tool@),
        decreases n - i,
    {
        let proj = &projects[i];
        let ghost before = texts(r@);
        let ghost pred = slug_is(tool@);
        let m = proj.tools.len();
        let mut k: usize = 0;
        assert(proj.tools@.take(0).filter(pred) =~= Seq::<CatalogTool>::empty());
        while k < m
            invariant
                m == proj.tools@.len(),
                k <= m,
                proj == &projects@[i as int],
                pred == slug_is(tool@),
                texts(r@) == before + proj.tools@.take(k as int).filter(pred).map_values(
                    |t: CatalogTool| proj.slug@,
                ),
            decreases m - k,
        {
            let t = &proj.tools[k];
            proof {
                assert(proj.tools@.take(k + 1) =~= proj.tools@.take(k as int).push(*t));
                proj.tools@.take(k as int).lemma_filter_push(*t, pred);
            }
            let ghost r0 = r@;
            if text_eq(t.slug.as_str(), tool) {
                r.push(proj.slug.clone());
                assert(texts(r@) =~= texts(r0).push(proj.slug@));
            }
            assert(texts(r@) =~= before + proj.tools@.take(k + 1).filter(pred).map_values(
                |t: CatalogTool| proj.slug@,
            ));
            k = k + 1;
        }
        assert(proj.tools@.take(m as int) =~= proj.tools@);
        assert(projects@.take(i + 1).drop_last() =~= projects@.take(i as int));
        i = i + 1;
    }
    assert(projects@.take(n as int) =~= projects@);
    r
}

/// The project of tool `tool` given the catalog's matches: the only match,
/// else an error naming the tool (and the matches when there are several).
pub fn choose_project(tool: &str, matches: Vec<String>) -> (r: Result<String, ProjectError>)
    ensures
        matches@.len() == 1 ==> r == Ok::<String, ProjectError>(matches@[0]),
        matches@.len() == 0 ==> (r matches Err(ProjectError::NotFound { tool: t }) && t@ == tool@),
        matches@.len() > 1 ==> (r matches Err(ProjectError::Ambiguous { tool: t, projects: ps })
            && t@ == tool@ && ps@ == matches@),
{
    if matches.len() == 0 {
        Err(ProjectError::NotFound { tool: text_from(tool) })
    } else if matches.len() == 1 {
        let mut matches = matches;
        Ok(matches.remove(0))
    } else {
        Err(ProjectError::Ambiguous { tool: text_from(tool), projects: matches })
    }
}

/// Whether `r` is the project chosen for tool `tool` from the catalog
/// projects `ms` that hold it: the only one, else an error naming the tool
/// (and the projects when there are several).
pub open spec fn catalog_choice(ms: Seq<Seq<char>>, tool: Seq<char>, r: Result<String, ProjectError>) -> bool {
    if ms.len() == 1 {
        r matches Ok(p) && p@ == ms[0]
    } else if ms.len() == 0 {
        r matches Err(ProjectError::NotFound { tool: t }) && t@ == tool
    } else {
        r matches Err(ProjectError::Ambiguous { tool: t, projects: ps }) && t@ == tool && texts(ps@) == ms
    }
}

/// The project of tool `tool` from the catalog: the only catalog project
/// holding it.
pub fn project_in_catalog(catalog: &CatalogResponse, tool: &str) -> (r: Result<String, ProjectError>)
    ensures
        catalog_choice(catalog_matches(catalog.projects@, tool@), tool@, r),
{
    let matches = project_matches(catalog, tool);
    choose_project(tool, matches)
}

/// The project of tool `tool`: the one given, taken as it is without the
/// catalog; else the only catalog project holding it. `None` when no
/// project is given and the catalog has not been fetched yet: it is then
/// needed.
pub fn resolve_project(tool: &str, project: Option<&str>, catalog: Option<&CatalogResponse>) -> (r: Option<
    Result<String, ProjectError>,
>)
    ensures
        match project {
            Some(p) => r matches Some(Ok(x)) && x@ == p@,
            None => match catalog {
                None => r is None,
                Some(c) => r matches Some(choice) && catalog_choice(
                    catalog_matches(c.projects@, tool@),
                    tool@,
                    choice,
                ),
            },
        },
{
    match project {
        Some(p) => Some(Ok(text_from(p))),
        None => match catalog {
            None => None,
            Some(c) => Some(project_in_catalog(c, tool)),
        },
    }
}

// ── After planning ───────────────────────────────────────────────────

/// Whether a step is a recommended dependency.
pub open spec fn is_recommended(s: InstallStep) -> bool {
    s.dep_type@ == "recommended"@
}

fn step_is_recommended(s: &InstallStep) -> (r: bool)
    ensures
        r == is_recommended(*s),
{
    text_eq(s.dep_type.as_str(), "recommended")
}

/// Whether the user is asked about recommended dependencies: there are
/// some, and neither `--yes` nor `--skip-recommended` was given.
pub fn ask_about_recommended(steps: &Vec<InstallStep>, yes: bool, skip_recommended: bool) -> (r: bool)
    ensures
        r == ((exists|i: int| 0 <= i < steps@.len() && is_recommended(#[trigger] steps@[i])) && !yes
            && !skip_recommended),
{
    let n = steps.len();
    let mut i: usize = 0;
    let mut any = false;
    while i < n
        invariant
            n == steps@.len(),
            i <= n,
            any == exists|j: int| 0 <= j < i && is_recommended(#[trigger] steps@[j]),
        decreases n - i,
    {
        if step_is_recommended(&steps[i]) {
            any = true;
        }
        i = i + 1;
    }
    any && !yes && !skip_recommended
}

/// Whether recommended dependencies are installed: the user's answer when
/// asked, else unless `--skip-recommended` was given.
pub fn include_recommended(answer: Option<bool>, skip_recommended: bool) -> (r: bool)
    ensures
        r == match answer {
            Some(a) => a,
            None => !skip_recommended,
        },
{
    match answer {
        Some(a) => a,
        None => !skip_recommended,
    }
}

/// The steps kept for execution: all, or all but the recommended ones.
pub fn retain_steps(steps: Vec<InstallStep>, include_recommended: bool) -> (r: Vec<InstallStep>)
    ensures
        r@ == steps@.filter(|s: InstallStep| include_recommended || !is_recommended(s)),
{
    let ghost pred = |s: InstallStep| include_recommended || !is_recommended(s);
    let mut r: Vec<InstallStep> = Vec::new();
    let n = steps.len();
    let mut i: usize = 0;
    assert(steps@.take(0).filter(pred) =~= Seq::<InstallStep>::empty());
    while i < n
        invariant
            n == steps@.len(),
            i <= n,
            pred == (|s: InstallStep| include_recommended || !is_recommended(s)),
            r@ == steps@.take(i as int).filter(pred),
        decreases n - i,
    {
        let s = &steps[i];
        proof {
            assert(steps@.take(i + 1) =~= steps@.take(i as int).push(*s));
            steps@.take(i as int).lemma_filter_push(*s, pred);
        }
        if include_recommended || !step_is_recommended(s) {
            r.push(s.clone());
        }
        i = i + 1;
    }
    assert(steps@.take(n as int) =~= steps@);
    r
}

/// The tag shown after a planned dependency: its type, nothing for the
/// requested tool.
pub open spec fn step_tag_text(dep_type: Seq<char>) -> Seq<char> {
    if dep_type == "required"@ {
        "[required dep]"@
    } else if dep_type == "recommended"@ {
        "[recommended]"@
    } else if dep_type == "optional"@ {
        "[optional]"@
    } else {
        Seq::empty()
    }
}

/// The tag shown after a planned step.
pub fn step_tag(step: &InstallStep) -> (r: String)
    ensures
        r@ == step_tag_text(step.dep_type@),
{
    let t = step.dep_type.as_str();
    if text_eq(t, "required") {
        text_from("[required dep]")
    } else if text_eq(t, "recommended") {
        text_from("[recommended]")
    } else if text_eq(t, "optional") {
        text_from("[optional]")
    } else {
        String::new()
    }
}

/// The line of the install plan for step number `n` (counted from one):
/// `n. project/tool → version platform size`, with "-" for an unknown
/// version or size; the tag follows it.
pub open spec fn plan_line_text(n: nat, step: InstallStep) -> Seq<char> {
    decimal(n) + ". "@ + step.project_slug@ + "/"@ + step.tool_slug@ + " → "@ + match step.platform.version {
        Some(v) => v@,
        None => "-"@,
    } + " "@ + step.platform_key@ + " "@ + match step.platform.size_bytes {
        Some(b) => size_text(b as int),
        None => "-"@,
    }
}

/// The line of the install plan for step number `n`.
pub fn plan_line(n: u64, step: &InstallStep) -> (r: String)
    ensures
        r@ == plan_line_text(n as nat, *step),
{
    let mut r = String::new();
    push_decimal(&mut r, n);
    append_text(&mut r, ". ");
    append_text(&mut r, step.project_slug.as_str());
    append_text(&mut r, "/");
    append_text(&mut r, step.tool_slug.as_str());
    append_text(&mut r, " → ");
    match &step.platform.version {
        Some(v) => append_text(&mut r, v.as_str()),
        None => append_text(&mut r, "-"),
    }
    append_text(&mut r, " ");
    append_text(&mut r, step.platform_key.as_str());
    append_text(&mut r, " ");
    match step.platform.size_bytes {
        Some(b) => {
            let size = format_size(b);
            append_text(&mut r, size.as_str());
        },
        None => append_text(&mut r, "-"),
    }
    assert(r@ =~= plan_line_text(n as nat, *step));
    r
}

/// The presign request for a step's build.
pub fn presign_request(step: &InstallStep) -> (r: PresignLatestRequest)
    ensures
        r.project == step.project_slug,
        r.tool == step.tool_slug,
        r.platform_arch == step.platform_key,
        r.latest_filename == step.platform.latest_filename,
{
    PresignLatestRequest {
        project: step.project_slug.clone(),
        tool: step.tool_slug.clone(),
        platform_arch: step.platform_key.clone(),
        latest_filename: step.platform.latest_filename.clone(),
    }
}

/// The record of a step's build once installed at `path` with digest `sha256`.
pub fn install_record(step: &InstallStep, path: String, sha256: String, installed_at: String) -> (r: InstalledTool)
    ensures
        r == (InstalledTool {
            project_slug: step.project_slug,
            tool_slug: step.tool_slug,
            version: step.platform.version,
            sha256: Some(sha256),
            path,
            installed_at,
            auto_dependency: step.auto_dependency,
            installed_by: step.installed_by,
        }),
{
    InstalledTool {
        project_slug: step.project_slug.clone(),
        tool_slug: step.tool_slug.clone(),
        version: copy_opt(&step.platform.version),
        sha256: Some(sha256),
        path,
        installed_at,
        auto_dependency: step.auto_dependency,
        installed_by: copy_opt(&step.installed_by),
    }
}

/// The record of a step's build installed now at `path` with digest
/// `sha256`; the install time is the clock's.
pub fn record_installed(step: &InstallStep, path: String, sha256: String) -> (r: InstalledTool)
    ensures
        r.project_slug == step.project_slug,
        r.tool_slug == step.tool_slug,
        r.version == step.platform.version,
        r.sha256 == Some(sha256),
        r.path == path,
        r.auto_dependency == step.auto_dependency,
        r.installed_by == step.installed_by,
{
    let now = now_rfc3339();
    install_record(step, path, sha256, now)
}

// ── Sizes ────────────────────────────────────────────────────────────

/// Two to the power `e`.
pub open spec fn two_pow(e: nat) -> nat
    decreases e,
{
    if e == 0 {
        1
    } else {
        2 * two_pow((e - 1) as nat)
    }
}

/// The smallest exponent from `e` on at which `b` is below 2^53 * 2^e: how
/// many low bits of `b` a 64-bit float cannot hold.
pub open spec fn float_excess_bits(b: nat, e: nat) -> nat
    decreases 64 - e,
{
    if e >= 64 || b < 9007199254740992 * two_pow(e) {
        e
    } else {
        float_excess_bits(b, e + 1)
    }
}

/// The value of `b as f64` for `0 <= b < 2^64`: `b` rounded to the nearest
/// multiple of 2^e that a 53-bit significand holds, ties to even.
pub open spec fn float_value(b: nat) -> nat {
    let e = float_excess_bits(b, 0);
    if e == 0 {
        b
    } else {
        let p = two_pow(e);
        let m = b / p;
        let r = b % p;
        if r > p / 2 || (r == p / 2 && m % 2 == 1) {
            (m + 1) * p
        } else {
            m * p
        }
    }
}

/// `n / d` rounded to the nearest integer, ties to even.
pub open spec fn round_half_even(n: nat, d: nat) -> nat {
    let q = n / d;
    let r = n % d;
    if 2 * r > d || (2 * r == d && q % 2 == 1) {
        q + 1
    } else {
        q
    }
}

/// A byte count for display: megabytes with one decimal from 1 MiB on,
/// whole kilobytes from 1 KiB on, bytes below (as `{:.1}` and `{:.0}` print
/// the quotient of the count as a 64-bit float).
pub open spec fn size_text(bytes: int) -> Seq<char> {
    if bytes >= 1048576 {
        let t = round_half_even(10 * float_value(bytes as nat), 1048576);
        decimal(t / 10) + seq!['.', digit_char(t % 10)] + " MB"@
    } else if bytes >= 1024 {
        decimal(round_half_even(bytes as nat, 1024)) + " KB"@
    } else {
        signed_decimal(bytes) + " B"@
    }
}

fn float_of(b: u64) -> (v: u128)
    requires
        b < 0x8000_0000_0000_0000,
    ensures
        v == float_value(b as nat),
        v < 0x1_0000_0000_0000_0000,
{
    let x = b as u128;
    let mut e: u64 = 0;
    let mut p: u128 = 1;
    let mut t: u128 = 9007199254740992;
    while e < 64 && x >= t
        invariant
            e <= 64,
            p == two_pow(e as nat),
            t == 9007199254740992 * p,
            x < 0x8000_0000_0000_0000,
            x >= t ==> p < 1024,
            1 <= p < 2048,
            float_excess_bits(x as nat, 0) == float_excess_bits(x as nat, e as nat),
        decreases 64 - e,
    {
        p = p * 2;
        t = t * 2;
        e = e + 1;
    }
    assert(float_excess_bits(x as nat, e as nat) == e);
    if e == 0 {
        x
    } else {
        let m = x / p;
        let r = x % p;
        assert(m * p <= x) by (nonlinear_arith)
            requires
                m == x / p,
                p > 0,
        ;
        if r > p / 2 || (r == p / 2 && m % 2 == 1) {
            assert((m + 1) * p <= x + p) by (nonlinear_arith)
                requires
                    m * p <= x,
            ;
            (m + 1) * p
        } else {
            m * p
        }
    }
}

/// Formats a byte count for display.
pub fn format_size(bytes: i64) -> (r: String)
    ensures
        r@ == size_text(bytes as int),
{
    let mut r = String::new();
    if bytes >= 1048576 {
        let v = float_of(bytes as u64);
        let n = 10 * v;
        let q = n / 1048576;
        let rem = n % 1048576;
        let t = if 2 * rem > 1048576 || (2 * rem == 1048576 && q % 2 == 1) {
            q + 1
        } else {
            q
        };
        assert(t == round_half_even(10 * float_value(bytes as nat), 1048576));
        assert(t < 0x1_0000_0000_0000);
        push_decimal(&mut r, (t / 10) as u64);
        push_char(&mut r, '.');
        push_char(&mut r, digit_char_of((t % 10) as u64));
        append_text(&mut r, " MB");
        assert(r@ =~= decimal(t as nat / 10) + seq!['.', digit_char(t as nat % 10)] + " MB"@);
    } else if bytes >= 1024 {
        let b = bytes as u64;
        let q = b / 1024;
        let rem = b % 1024;
        let k = if 2 * rem > 1024 || (2 * rem == 1024 && q % 2 == 1) {
            q + 1
        } else {
            q
        };
        push_decimal(&mut r, k);
        append_text(&mut r, " KB");
    } else {
        push_signed_decimal(&mut r, bytes);
        append_text(&mut r, " B");
    }
    r
}

/// Required dependencies are always followed, optional ones only with
/// `--with-optional`, recommended ones unless `--skip-recommended`, and
/// dependencies of any other type never.
pub proof fn law_dependency_kinds(dep_type: Seq<char>, with_optional: bool, skip_recommended: bool)
    ensures
        dependency_followed("required"@, with_optional, skip_recommended),
        dependency_followed("optional"@, with_optional, skip_recommended) == with_optional,
        dependency_followed("recommended"@, with_optional, skip_recommended) == !skip_recommended,
        !(dep_type == "required"@ || dep_type == "optional"@ || dep_type == "recommended"@)
            ==> !dependency_followed(dep_type, with_optional, skip_recommended),
{
    reveal_strlit("required");
    reveal_strlit("optional");
    reveal_strlit("recommended");
    assert("optional"@[0] != "required"@[0]);
    assert("recommended"@[2] != "required"@[2]);
    assert("recommended"@[0] != "optional"@[0]);
}

/// Once the record of an installed build carries the build's announced
/// SHA-256, planning again finds the tool up to date for that build.
pub proof fn law_recorded_install_is_up_to_date(
    installed: Seq<InstalledTool>,
    record: InstalledTool,
    build: PlatformInfo,
)
    requires
        record.sha256 matches Some(h) && build.sha256 matches Some(b) && h@ == b@,
    ensures
        up_to_date(
            crate::state::local::upserted(installed, record),
            record.project_slug@,
            record.tool_slug@,
            build,
        ),
{
    crate::state::local::law_lookup_after_upsert(installed, record);
}

// ── Termination measure ──────────────────────────────────────────────

/// How many fetched details have a key not yet visited.
pub open spec fn unvisited(store: Seq<FetchedDetail>, visited: Seq<Seq<char>>) -> nat
    decreases store.len(),
{
    if store.len() == 0 {
        0
    } else {
        unvisited(store.drop_last(), visited) + if visited.contains(detail_key(store.last().detail)) {
            0nat
        } else {
            1nat
        }
    }
}

proof fn lemma_unvisited_antimono(store: Seq<FetchedDetail>, v1: Seq<Seq<char>>, v2: Seq<Seq<char>>)
    requires
        forall|k: Seq<char>| v1.contains(k) ==> v2.contains(k),
    ensures
        unvisited(store, v2) <= unvisited(store, v1),
    decreases store.len(),
{
    if store.len() > 0 {
        lemma_unvisited_antimono(store.drop_last(), v1, v2);
    }
}

proof fn lemma_unvisited_visit(store: Seq<FetchedDetail>, v: Seq<Seq<char>>, idx: int)
    requires
        0 <= idx < store.len(),
        !v.contains(detail_key(store[idx].detail)),
    ensures
        unvisited(store, v.push(detail_key(store[idx].detail))) < unvisited(store, v),
        unvisited(store, v) >= 1,
    decreases store.len(),
{
    let key = detail_key(store[idx].detail);
    assert forall|k: Seq<char>| v.contains(k) implies v.push(key).contains(k) by {
        let j = choose|j: int| 0 <= j < v.len() && v[j] == k;
        assert(v.push(key)[j] == k);
    }
    assert(v.push(key)[v.len() as int] == key);
    if idx == store.len() - 1 {
        lemma_unvisited_antimono(store.drop_last(), v, v.push(key));
    } else {
        assert(store.drop_last()[idx] == store[idx]);
        lemma_unvisited_visit(store.drop_last(), v, idx);
    }
}

// ── The dependency walk ──────────────────────────────────────────────

pub open spec fn plan_state(steps: Seq<InstallStep>, visited: Seq<String>) -> PlanState {
    PlanState { steps: steps.map_values(|s: InstallStep| s@), visited: texts(visited) }
}

pub open spec fn context(platform: Seq<char>, state: StateFile, with_optional: bool, skip_recommended: bool) -> PlanContext {
    PlanContext { platform, installed: state.installed@, with_optional, skip_recommended }
}

pub open spec fn opt_ref_text(o: Option<&String>) -> Option<Seq<char>> {
    match o {
        Some(s) => Some(s@),
        None => None,
    }
}

/// `longer` starts with `shorter`.
pub open spec fn extends<T>(longer: Seq<T>, shorter: Seq<T>) -> bool {
    shorter.len() <= longer.len() && forall|j: int| 0 <= j < shorter.len() ==> longer[j] == shorter[j]
}

proof fn lemma_extends_contains(longer: Seq<String>, shorter: Seq<String>)
    requires
        extends(longer, shorter),
    ensures
        forall|k: Seq<char>| texts(shorter).contains(k) ==> texts(longer).contains(k),
{
    assert forall|k: Seq<char>| texts(shorter).contains(k) implies texts(longer).contains(k) by {
        let j = choose|j: int| 0 <= j < texts(shorter).len() && texts(shorter)[j] == k;
        assert(texts(longer)[j] == k);
    }
}

fn store_index(store: &Vec<FetchedDetail>, project_slug: &str, tool_slug: &str) -> (r: Option<usize>)
    ensures
        match r {
            Some(i) => i < store@.len() && store_position(store@, project_slug@, tool_slug@) == Some(
                i as int,
            ),
            None => store_position(store@, project_slug@, tool_slug@) is None,
        },
{
    let n = store.len();
    let mut i: usize = 0;
    while i < n
        invariant
            n == store@.len(),
            i <= n,
            store_position(store@, project_slug@, tool_slug@) == match store_position(
                store@.skip(i as int),
                project_slug@,
                tool_slug@,
            ) {
                Some(k) => Some(k + i),
                None => None::<int>,
            },
        decreases n - i,
    {
        let f = &store[i];
        assert(store@.skip(i as int)[0] == store@[i as int]);
        assert(store@.skip(i as int).drop_first() =~= store@.skip(i + 1));
        if text_eq(f.project_slug.as_str(), project_slug) && text_eq(f.tool_slug.as_str(), tool_slug) {
            return Some(i);
        }
        i = i + 1;
    }
    None
}

fn visited_contains(visited: &Vec<String>, key: &String) -> (r: bool)
    ensures
        r == texts(visited@).contains(key@),
{
    let n = visited.len();
    let mut i: usize = 0;
    while i < n
        invariant
            n == visited@.len(),
            i <= n,
            forall|j: int| 0 <= j < i ==> texts(visited@)[j] != key@,
        decreases n - i,
    {
        if visited[i] == *key {
            assert(texts(visited@)[i as int] == key@);
            return true;
        }
        i = i + 1;
    }
    false
}

fn dependency_is_followed(dep_type: &str, with_optional: bool, skip_recommended: bool) -> (r: bool)
    ensures
        r == dependency_followed(dep_type@, with_optional, skip_recommended),
{
    if text_eq(dep_type, "required") {
        true
    } else if text_eq(dep_type, "recommended") {
        !skip_recommended
    } else if text_eq(dep_type, "optional") {
        with_optional
    } else {
        false
    }
}

fn add_step(
    d: &ToolDetailResponse,
    platform: &str,
    state: &StateFile,
    installed_by: Option<&String>,
    via: &str,
    steps: &mut Vec<InstallStep>,
    Ghost(ctx): Ghost<PlanContext>,
    Ghost(visited): Ghost<Seq<String>>,
) -> (r: Result<(), PlanError>)
    requires
        ctx.platform == platform@,
        ctx.installed == state.installed@,
    ensures
        match finish_visit(*d, ctx, opt_ref_text(installed_by), via@, plan_state(old(steps)@, visited)) {
            Ok(st) => r is Ok && plan_state(final(steps)@, visited) == st,
            Err(e) => r matches Err(x) && x@ == e,
        },
{
    let ghost st = plan_state(steps@, visited);
    let ps = &d.tool.platforms;
    let own = platform_index(ps, platform);
    let chosen = match own {
        Some(i) => Some(i),
        None => platform_index(ps, "default"),
    };
    match chosen {
        None => {
            if installed_by.is_none() {
                let available = platform_key_list(ps);
                return Err(
                    PlanError::NoPlatformBuild {
                        project_slug: d.project.slug.clone(),
                        tool_slug: d.tool.slug.clone(),
                        platform: text_from(platform),
                        available,
                    },
                );
            }
            return Ok(());
        },
        Some(i) => {
            let build = &ps[i].1;
            assert(chosen_build(*d, ctx.platform) == Some(*build));
            let current = match state.find(d.project.slug.as_str(), d.tool.slug.as_str()) {
                Some(existing) => match (&existing.sha256, &build.sha256) {
                    (Some(a), Some(b)) => *a == *b,
                    _ => false,
                },
                None => false,
            };
            if current {
                return Ok(());
            }
            let platform_key = if own.is_some() {
                text_from(platform)
            } else {
                text_from("default")
            };
            let is_target = installed_by.is_none();
            let dep_type = if is_target {
                text_from("target")
            } else {
                text_from(via)
            };
            let by = match installed_by {
                Some(b) => Some(b.clone()),
                None => None,
            };
            let step = InstallStep {
                project_slug: d.project.slug.clone(),
                tool_slug: d.tool.slug.clone(),
                platform: build.clone(),
                platform_key,
                dep_type,
                auto_dependency: !is_target,
                installed_by: by,
                prerequisites: copy_opt(&d.tool.prerequisites),
            };
            let ghost old_steps = steps@;
            steps.push(step);
            assert(step@ == step_for(*d, *build, ctx, opt_ref_text(installed_by), via@));
            assert(steps@.map_values(|s: InstallStep| s@) =~= old_steps.map_values(
                |s: InstallStep| s@,
            ).push(step@));
            Ok(())
        },
    }
}

/// Visits detail `d` as `plan_visit` does: `steps` grows by the planned
/// steps, and `visited` holds the `project/tool` key of each tool visited so
/// far, in the order of visiting; a key is added only when it is not there.
#[verifier::rlimit(50)]
fn visit_tool(
    store: &Vec<FetchedDetail>,
    d: &ToolDetailResponse,
    platform: &str,
    state: &StateFile,
    with_optional: bool,
    skip_recommended: bool,
    installed_by: Option<&String>,
    via: &str,
    steps: &mut Vec<InstallStep>,
    visited: &mut Vec<String>,
    Ghost(idx): Ghost<int>,
    Ghost(fuel): Ghost<nat>,
) -> (r: Result<(), PlanError>)
    requires
        0 <= idx < store@.len(),
        store@[idx].detail == *d,
        unvisited(store@, texts(old(visited)@)) < fuel,
    ensures
        match plan_visit(
            store@,
            *d,
            context(platform@, *state, with_optional, skip_recommended),
            opt_ref_text(installed_by),
            via@,
            plan_state(old(steps)@, old(visited)@),
            fuel,
        ) {
            Ok(st) => r is Ok && plan_state(final(steps)@, final(visited)@) == st,
            Err(e) => r matches Err(x) && x@ == e,
        },
        r is Ok ==> extends(final(visited)@, old(visited)@),
    decreases fuel,
{
    let ghost ctx = context(platform@, *state, with_optional, skip_recommended);
    let ghost st0 = plan_state(steps@, visited@);
    let key = make_tool_key(d.project.slug.as_str(), d.tool.slug.as_str());
    if visited_contains(visited, &key) {
        return Ok(());
    }
    proof {
        lemma_unvisited_visit(store@, texts(visited@), idx);
    }
    visited.push(key.clone());
    let ghost st1 = plan_state(steps@, visited@);
    let ghost v1 = visited@;
    assert(texts(visited@) =~= st0.visited.push(key@));
    assert(st1 == PlanState { visited: st0.visited.push(key@), ..st0 });
    let ghost child_fuel: nat = (fuel - 1) as nat;
    let ghost by = opt_ref_text(installed_by);
    assert(plan_visit(store@, *d, ctx, by, via@, st0, fuel) == match plan_dependencies(
        store@,
        d.tool.dependencies@,
        0,
        key@,
        ctx,
        st1,
        child_fuel,
    ) {
        Ok(st2) => finish_visit(*d, ctx, by, via@, st2),
        Err(e) => Err(e),
    });
    let deps = &d.tool.dependencies;
    let n = deps.len();
    let mut i: usize = 0;
    while i < n
        invariant
            n == deps@.len(),
            deps == &d.tool.dependencies,
            i <= n,
            0 <= idx < store@.len(),
            store@[idx].detail == *d,
            key@ == detail_key(*d),
            extends(visited@, v1),
            extends(v1, old(visited)@),
            unvisited(store@, texts(v1)) < child_fuel,
            child_fuel == fuel - 1,
            plan_dependencies(store@, deps@, 0, key@, ctx, st1, child_fuel) == plan_dependencies(
                store@,
                deps@,
                i as int,
                key@,
                ctx,
                plan_state(steps@, visited@),
                child_fuel,
            ),
            ctx == context(platform@, *state, with_optional, skip_recommended),
            by == opt_ref_text(installed_by),
            st0 == plan_state(old(steps)@, old(visited)@),
            plan_visit(store@, *d, ctx, by, via@, st0, fuel) == match plan_dependencies(
                store@,
                deps@,
                0,
                key@,
                ctx,
                st1,
                child_fuel,
            ) {
                Ok(st2) => finish_visit(*d, ctx, by, via@, st2),
                Err(e) => Err(e),
            },
        decreases n - i,
    {
        let dep = &deps[i];
        let ghost cur = plan_state(steps@, visited@);
        if !dependency_is_followed(dep.dependency_type.as_str(), with_optional, skip_recommended) {
            i = i + 1;
            continue;
        }
        let dep_key = make_tool_key(dep.project_slug.as_str(), dep.tool_slug.as_str());
        if visited_contains(visited, &dep_key) {
            i = i + 1;
            continue;
        }
        assert(dep == deps@[i as int]);
        match store_index(store, dep.project_slug.as_str(), dep.tool_slug.as_str()) {
            None => {
                assert(plan_dependencies(store@, deps@, i as int, key@, ctx, cur, child_fuel)
                    == Err::<PlanState, PlanFailure>(
                    PlanFailure::NeedDetail(dep.project_slug@, dep.tool_slug@),
                ));
                return Err(
                    PlanError::NeedDetail {
                        project_slug: dep.project_slug.clone(),
                        tool_slug: dep.tool_slug.clone(),
                    },
                );
            },
            Some(j) => {
                proof {
                    lemma_extends_contains(visited@, v1);
                    lemma_unvisited_antimono(store@, texts(v1), texts(visited@));
                }
                let ghost before = visited@;
                let res = visit_tool(
                    store,
                    &store[j].detail,
                    platform,
                    state,
                    with_optional,
                    skip_recommended,
                    Some(&key),
                    dep.dependency_type.as_str(),
                    steps,
                    visited,
                    Ghost(j as int),
                    Ghost(child_fuel),
                );
                match res {
                    Err(e) => {
                        return Err(e);
                    },
                    Ok(()) => {
                        assert(extends(visited@, v1)) by {
                            assert forall|k: int| 0 <= k < v1.len() implies visited@[k] == v1[k] by {
                                assert(before[k] == v1[k]);
                            }
                        }
                    },
                }
            },
        }
        i = i + 1;
    }
    assert(extends(visited@, old(visited)@)) by {
        assert forall|k: int| 0 <= k < old(visited)@.len() implies visited@[k] == old(visited)@[k] by {
            assert(v1[k] == old(visited)@[k]);
        }
    }
    add_step(d, platform, state, installed_by, via, steps, Ghost(ctx), Ghost(visited@))
}

/// Visits `project_slug`/`tool_slug` from the walk state held in `steps`
/// and `visited`, as `plan_visit` does with the detail fetched for it:
/// under `installed_by`, reached as a dependency of type `via`, it visits
/// the followed dependencies first and then plans the tool's own step.
/// From a sound state, the walk stays sound, keeps what was visited and
/// planned, and asks only for a detail neither fetched nor visited.
pub fn resolve_deps(
    store: &Vec<FetchedDetail>,
    project_slug: &str,
    tool_slug: &str,
    platform: &str,
    state: &StateFile,
    steps: &mut Vec<InstallStep>,
    visited: &mut Vec<String>,
    installed_by: Option<&String>,
    via: &str,
    with_optional: bool,
    skip_recommended: bool,
) -> (r: Result<(), PlanError>)
    ensures
        match store_lookup(store@, project_slug@, tool_slug@) {
            None => (r matches Err(PlanError::NeedDetail { project_slug: p, tool_slug: t }) && p@
                == project_slug@ && t@ == tool_slug@) && final(steps)@ == old(steps)@ && final(visited)@
                == old(visited)@,
            Some(d) => match plan_visit(
                store@,
                d,
                context(platform@, *state, with_optional, skip_recommended),
                opt_ref_text(installed_by),
                via@,
                plan_state(old(steps)@, old(visited)@),
                (store@.len() + 1) as nat,
            ) {
                Ok(st) => r is Ok && plan_state(final(steps)@, final(visited)@) == st,
                Err(e) => r matches Err(x) && x@ == e,
            },
        },
        walk_state_sound(plan_state(old(steps)@, old(visited)@)) ==> {
            &&& r is Ok ==> (walk_grows(
                plan_state(old(steps)@, old(visited)@),
                plan_state(final(steps)@, final(visited)@),
            ) && (store_lookup(store@, project_slug@, tool_slug@) matches Some(d) && plan_state(
                final(steps)@,
                final(visited)@,
            ).visited.contains(detail_key(d))))
            &&& store_lookup(store@, project_slug@, tool_slug@) is Some ==> (r matches Err(
                PlanError::NeedDetail { project_slug: p, tool_slug: t },
            ) ==> store_lookup(store@, p@, t@) is None && !plan_state(
                old(steps)@,
                old(visited)@,
            ).visited.contains(tool_key(p@, t@)))
        },
{
    match store_index(store, project_slug, tool_slug) {
        None => Err(
            PlanError::NeedDetail {
                project_slug: text_from(project_slug),
                tool_slug: text_from(tool_slug),
            },
        ),
        Some(j) => {
            proof {
                lemma_unvisited_bound(store@, texts(visited@));
                let ctx = context(platform@, *state, with_optional, skip_recommended);
                let st0 = plan_state(steps@, visited@);
                if walk_state_sound(st0) {
                    law_plan_walk(
                        store@,
                        store@[j as int].detail,
                        ctx,
                        opt_ref_text(installed_by),
                        via@,
                        st0,
                        (store@.len() + 1) as nat,
                    );
                }
            }
            visit_tool(
                store,
                &store[j].detail,
                platform,
                state,
                with_optional,
                skip_recommended,
                installed_by,
                via,
                steps,
                visited,
                Ghost(j as int),
                Ghost((store@.len() + 1) as nat),
            )
        },
    }
}

/// Plans the install of `project_slug`/`tool_slug` from the details fetched
/// so far: the requested tool and its followed dependencies, each at most
/// once, dependencies first. `NeedDetail` names the next detail to fetch.
pub fn plan_install(
    store: &Vec<FetchedDetail>,
    project_slug: &str,
    tool_slug: &str,
    platform: &str,
    state: &StateFile,
    with_optional: bool,
    skip_recommended: bool,
) -> (r: Result<Vec<InstallStep>, PlanError>)
    ensures
        match install_plan(
            store@,
            project_slug@,
            tool_slug@,
            context(platform@, *state, with_optional, skip_recommended),
        ) {
            Ok(steps) => r matches Ok(v) && v@.map_values(|s: InstallStep| s@) == steps,
            Err(e) => r matches Err(x) && x@ == e,
        },
        !(install_plan(
            store@,
            project_slug@,
            tool_slug@,
            context(platform@, *state, with_optional, skip_recommended),
        ) matches Err(PlanFailure::OutOfFuel)),
        r matches Ok(v) ==> keys_distinct(v@.map_values(|s: InstallStep| s@)),
        r matches Err(PlanError::NeedDetail { project_slug: p, tool_slug: t }) ==> store_lookup(
            store@,
            p@,
            t@,
        ) is None,
{
    proof {
        let ctx = context(platform@, *state, with_optional, skip_recommended);
        law_install_plan_shape(store@, project_slug@, tool_slug@, ctx);
        lemma_need_detail_is_unfetched(store@, project_slug@, tool_slug@, ctx);
    }
    match store_index(store, project_slug, tool_slug) {
        None => Err(
            PlanError::NeedDetail {
                project_slug: text_from(project_slug),
                tool_slug: text_from(tool_slug),
            },
        ),
        Some(j) => {
            let mut steps: Vec<InstallStep> = Vec::new();
            let mut visited: Vec<String> = Vec::new();
            assert(steps@.map_values(|s: InstallStep| s@) =~= Seq::<StepView>::empty());
            assert(texts(visited@) =~= Seq::<Seq<char>>::empty());
            match resolve_deps(
                store,
                project_slug,
                tool_slug,
                platform,
                state,
                &mut steps,
                &mut visited,
                None,
                "target",
                with_optional,
                skip_recommended,
            ) {
                Ok(()) => Ok(steps),
                Err(e) => Err(e),
            }
        },
    }
}

proof fn lemma_unvisited_bound(store: Seq<FetchedDetail>, v: Seq<Seq<char>>)
    ensures
        unvisited(store, v) <= store.len(),
    decreases store.len(),
{
    if store.len() > 0 {
        lemma_unvisited_bound(store.drop_last(), v);
    }
}

} // verus!
