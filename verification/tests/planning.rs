use forge::client::api::{
    CatalogProject, CatalogResponse, CatalogTool, PlatformInfo, ToolDependency, ToolDetailProject,
    ToolDetailResponse, ToolDetailTool,
};
use forge::commands::install::{
    ask_about_recommended, choose_project, include_recommended, install_record, plan_install,
    plan_line, presign_request, resolve_deps, resolve_project, retain_steps, step_tag, FetchedDetail, InstallStep,
    PlanError, ProjectError,
};
use forge::state::local::{InstalledTool, StateFile};

fn build(version: &str, sha: Option<&str>, size: i64) -> PlatformInfo {
    PlatformInfo {
        latest_filename: format!("tool-{version}"),
        latest_url: None,
        version: Some(version.to_string()),
        sha256: sha.map(|s| s.to_string()),
        size_bytes: Some(size),
    }
}

fn dep(project: &str, tool: &str, kind: &str) -> ToolDependency {
    ToolDependency {
        tool_id: 1,
        tool_name: tool.to_string(),
        tool_slug: tool.to_string(),
        project_name: project.to_string(),
        project_slug: project.to_string(),
        dependency_type: kind.to_string(),
        sort_order: 0,
    }
}

fn detail(
    project: &str,
    tool: &str,
    platforms: Vec<(&str, PlatformInfo)>,
    deps: Vec<ToolDependency>,
) -> FetchedDetail {
    FetchedDetail {
        project_slug: project.to_string(),
        tool_slug: tool.to_string(),
        detail: ToolDetailResponse {
            project: ToolDetailProject { name: project.to_uppercase(), slug: project.to_string() },
            tool: ToolDetailTool {
                id: 7,
                name: tool.to_uppercase(),
                slug: tool.to_string(),
                prerequisites: None,
                platforms: platforms.into_iter().map(|(k, v)| (k.to_string(), v)).collect(),
                mappings: Vec::new(),
                dependencies: deps,
                releases: Vec::new(),
            },
        },
    }
}

fn readme_store() -> Vec<FetchedDetail> {
    vec![
        detail(
            "security-tools",
            "axxon-one-core",
            vec![("linux-amd64", build("20.0.0", Some("c0"), 8_808_038))],
            vec![
                dep("security-tools", "axxon-drivers-pack", "required"),
                dep("security-tools", "axxon-detector-pack", "required"),
                dep("security-tools", "axxon-analytics", "recommended"),
            ],
        ),
        detail(
            "security-tools",
            "axxon-drivers-pack",
            vec![("linux-amd64", build("2.0.0", Some("d0"), 2_202_010))],
            vec![],
        ),
        detail(
            "security-tools",
            "axxon-detector-pack",
            vec![("linux-amd64", build("1.5.0", Some("e0"), 4_508_877))],
            vec![],
        ),
        detail(
            "security-tools",
            "axxon-analytics",
            vec![("default", build("1.2.0", Some("f0"), 100))],
            vec![],
        ),
    ]
}

fn slugs(steps: &[InstallStep]) -> Vec<String> {
    steps.iter().map(|s| s.tool_slug.clone()).collect()
}

#[test]
fn readme_plan_orders_dependencies_first() {
    let store = readme_store();
    let state = StateFile::empty();
    let steps = match plan_install(&store, "security-tools", "axxon-one-core", "linux-amd64", &state, false, true) {
        Ok(s) => s,
        Err(_) => panic!("plan failed"),
    };
    assert_eq!(slugs(&steps), vec!["axxon-drivers-pack", "axxon-detector-pack", "axxon-one-core"]);
    assert_eq!(steps[0].dep_type, "required");
    assert!(steps[0].auto_dependency);
    assert_eq!(steps[0].installed_by.as_deref(), Some("security-tools/axxon-one-core"));
    assert_eq!(steps[2].dep_type, "target");
    assert!(!steps[2].auto_dependency);
    assert_eq!(steps[2].installed_by, None);
    assert_eq!(steps[2].platform_key, "linux-amd64");
    assert_eq!(steps[2].platform.version.as_deref(), Some("20.0.0"));
}

#[test]
fn recommended_followed_unless_skipped() {
    let store = readme_store();
    let state = StateFile::empty();
    let steps = match plan_install(&store, "security-tools", "axxon-one-core", "linux-amd64", &state, false, false) {
        Ok(s) => s,
        Err(_) => panic!("plan failed"),
    };
    assert_eq!(
        slugs(&steps),
        vec!["axxon-drivers-pack", "axxon-detector-pack", "axxon-analytics", "axxon-one-core"]
    );
    // the recommended dependency falls back to the "default" build
    assert_eq!(steps[2].platform_key, "default");
    // each dependency carries the type it was reached by
    assert_eq!(steps[0].dep_type, "required");
    assert_eq!(steps[2].dep_type, "recommended");
    assert!(steps[2].auto_dependency);
    assert_eq!(steps[3].dep_type, "target");
    // so the user is asked about it, and declining drops only that step
    assert!(ask_about_recommended(&steps, false, false));
    let kept = retain_steps(steps, include_recommended(Some(false), false));
    assert_eq!(slugs(&kept), vec!["axxon-drivers-pack", "axxon-detector-pack", "axxon-one-core"]);
}

#[test]
fn optional_only_with_flag() {
    let mut store = readme_store();
    store[1].detail.tool.dependencies.push(dep("extra", "opt", "optional"));
    store.push(detail("extra", "opt", vec![("linux-amd64", build("0.1", None, 10))], vec![]));
    let state = StateFile::empty();
    let without = plan_install(&store, "security-tools", "axxon-drivers-pack", "linux-amd64", &state, false, false);
    assert_eq!(slugs(&without.ok().unwrap()), vec!["axxon-drivers-pack"]);
    let with = plan_install(&store, "security-tools", "axxon-drivers-pack", "linux-amd64", &state, true, false);
    let with = with.ok().unwrap();
    assert_eq!(slugs(&with), vec!["opt", "axxon-drivers-pack"]);
    assert_eq!(with[0].dep_type, "optional");
}

#[test]
fn missing_detail_is_requested_in_walk_order() {
    let full = readme_store();
    let mut store: Vec<FetchedDetail> = Vec::new();
    let state = StateFile::empty();
    let mut fetched: Vec<String> = Vec::new();
    loop {
        match plan_install(&store, "security-tools", "axxon-one-core", "linux-amd64", &state, false, true) {
            Ok(steps) => {
                assert_eq!(steps.len(), 3);
                break;
            }
            Err(PlanError::NeedDetail { project_slug, tool_slug }) => {
                fetched.push(tool_slug.clone());
                let d = full
                    .iter()
                    .find(|d| d.project_slug == project_slug && d.tool_slug == tool_slug)
                    .unwrap();
                store.push(detail(
                    &d.project_slug,
                    &d.tool_slug,
                    d.detail.tool.platforms.iter().map(|(k, v)| (k.as_str(), v.clone())).collect(),
                    d.detail
                        .tool
                        .dependencies
                        .iter()
                        .map(|x| dep(&x.project_slug, &x.tool_slug, &x.dependency_type))
                        .collect(),
                ));
            }
            Err(_) => panic!("unexpected error"),
        }
    }
    assert_eq!(fetched, vec!["axxon-one-core", "axxon-drivers-pack", "axxon-detector-pack"]);
}

#[test]
fn cycles_are_visited_once() {
    let store = vec![
        detail("p", "a", vec![("x", build("1", None, 1))], vec![dep("p", "b", "required")]),
        detail("p", "b", vec![("x", build("1", None, 1))], vec![dep("p", "a", "required")]),
    ];
    let state = StateFile::empty();
    let steps = plan_install(&store, "p", "a", "x", &state, false, false).ok().unwrap();
    assert_eq!(slugs(&steps), vec!["b", "a"]);
}

#[test]
fn replanning_fetches_each_detail_once() {
    // a needs b and c, b needs c, c needs a: shared and cyclic dependencies
    let full = vec![
        detail("p", "a", vec![("x", build("1", None, 1))], vec![dep("p", "b", "required"), dep("p", "c", "recommended")]),
        detail("p", "b", vec![("x", build("1", None, 1))], vec![dep("p", "c", "required")]),
        detail("p", "c", vec![("x", build("1", None, 1))], vec![dep("p", "a", "required")]),
    ];
    let state = StateFile::empty();
    let mut store: Vec<FetchedDetail> = Vec::new();
    let mut fetched: Vec<String> = Vec::new();
    let steps = loop {
        match plan_install(&store, "p", "a", "x", &state, false, false) {
            Ok(steps) => break steps,
            Err(PlanError::NeedDetail { project_slug, tool_slug }) => {
                assert!(!fetched.contains(&tool_slug));
                fetched.push(tool_slug.clone());
                let i = full.iter().position(|d| d.project_slug == project_slug && d.tool_slug == tool_slug).unwrap();
                store.push(detail(
                    "p",
                    &tool_slug,
                    vec![("x", build("1", None, 1))],
                    full[i].detail.tool.dependencies.iter().map(|x| dep(&x.project_slug, &x.tool_slug, &x.dependency_type)).collect(),
                ));
            }
            Err(_) => panic!("unexpected failure"),
        }
    };
    assert_eq!(fetched, vec!["a", "b", "c"]);
    assert_eq!(slugs(&steps), vec!["c", "b", "a"]);
    // c is reached first through b, so it carries b's "required" tag
    assert_eq!(steps[0].dep_type, "required");
    assert_eq!(steps[0].installed_by.as_deref(), Some("p/b"));
}

#[test]
fn up_to_date_tools_are_skipped() {
    let store = readme_store();
    let mut state = StateFile::empty();
    state.upsert(InstalledTool {
        project_slug: "security-tools".to_string(),
        tool_slug: "axxon-drivers-pack".to_string(),
        version: Some("2.0.0".to_string()),
        sha256: Some("d0".to_string()),
        path: "/opt/tools/d".to_string(),
        installed_at: "2024-01-01T00:00:00Z".to_string(),
        auto_dependency: true,
        installed_by: Some("security-tools/axxon-one-core".to_string()),
    });
    let steps = plan_install(&store, "security-tools", "axxon-one-core", "linux-amd64", &state, false, true)
        .ok()
        .unwrap();
    assert_eq!(slugs(&steps), vec!["axxon-detector-pack", "axxon-one-core"]);
}

#[test]
fn target_without_build_is_an_error() {
    let store = vec![detail(
        "p",
        "a",
        vec![("linux-arm64", build("1", None, 1)), ("darwin-arm64", build("1", None, 1))],
        vec![],
    )];
    let state = StateFile::empty();
    match plan_install(&store, "p", "a", "linux-amd64", &state, false, false) {
        Err(e @ PlanError::NoPlatformBuild { .. }) => {
            assert_eq!(
                e.message(),
                "Tool p/a has no build for platform 'linux-amd64'.\nAvailable: linux-arm64, darwin-arm64"
            );
        }
        _ => panic!("expected an error"),
    }
}

#[test]
fn dependency_without_build_is_skipped() {
    let store = vec![
        detail("p", "a", vec![("x", build("1", None, 1))], vec![dep("p", "b", "required")]),
        detail("p", "b", vec![("y", build("1", None, 1))], vec![]),
    ];
    let state = StateFile::empty();
    let steps = plan_install(&store, "p", "a", "x", &state, false, false).ok().unwrap();
    assert_eq!(slugs(&steps), vec!["a"]);
}

fn catalog() -> CatalogResponse {
    let t = |slug: &str| CatalogTool {
        id: 1,
        name: slug.to_string(),
        slug: slug.to_string(),
        prerequisites: None,
        platforms: Vec::new(),
        mappings: Vec::new(),
    };
    CatalogResponse {
        projects: vec![
            CatalogProject { id: 1, name: "A".into(), slug: "alpha".into(), tools: vec![t("one"), t("two")] },
            CatalogProject { id: 2, name: "B".into(), slug: "beta".into(), tools: vec![t("two"), t("three")] },
        ],
    }
}

#[test]
fn resolve_project_unique_match() {
    assert_eq!(resolve_project("three", None, Some(&catalog())).unwrap().ok().unwrap(), "beta");
    assert_eq!(resolve_project("one", None, Some(&catalog())).unwrap().ok().unwrap(), "alpha");
}

#[test]
fn resolve_project_errors() {
    match resolve_project("nine", None, Some(&catalog())).unwrap() {
        Err(e @ ProjectError::NotFound { .. }) => {
            assert_eq!(e.message(), "Tool 'nine' not found in catalog.")
        }
        _ => panic!("expected not found"),
    }
    match resolve_project("two", None, Some(&catalog())).unwrap() {
        Err(e @ ProjectError::Ambiguous { .. }) => assert_eq!(
            e.message(),
            "Tool 'two' found in multiple projects: alpha, beta. Use --project to specify."
        ),
        _ => panic!("expected ambiguous"),
    }
    assert_eq!(choose_project("t", vec!["only".to_string()]).ok().unwrap(), "only");
}

#[test]
fn given_project_needs_no_catalog() {
    // a given project is taken as it is, even one the catalog does not hold
    assert_eq!(resolve_project("nine", Some("gamma"), None).unwrap().ok().unwrap(), "gamma");
    assert_eq!(resolve_project("two", Some("beta"), Some(&catalog())).unwrap().ok().unwrap(), "beta");
    // without one, the catalog is needed first
    assert!(resolve_project("one", None, None).is_none());
}

fn step(slug: &str, kind: &str) -> InstallStep {
    InstallStep {
        project_slug: "p".into(),
        tool_slug: slug.into(),
        platform: build("1.0", Some("ab"), 5),
        platform_key: "linux-amd64".into(),
        dep_type: kind.into(),
        auto_dependency: kind != "target",
        installed_by: if kind == "target" { None } else { Some("p/t".into()) },
        prerequisites: None,
    }
}

#[test]
fn recommended_steps_prompt_and_filter() {
    let steps = vec![step("a", "required"), step("b", "recommended"), step("t", "target")];
    assert!(ask_about_recommended(&steps, false, false));
    assert!(!ask_about_recommended(&steps, true, false));
    assert!(!ask_about_recommended(&steps, false, true));
    assert!(include_recommended(None, false));
    assert!(!include_recommended(None, true));
    assert!(!include_recommended(Some(false), false));
    assert_eq!(slugs(&retain_steps(steps.clone(), false)), vec!["a", "t"]);
    assert_eq!(slugs(&retain_steps(steps, true)), vec!["a", "b", "t"]);
}

#[test]
fn records_and_requests_for_steps() {
    let s = step("a", "required");
    let req = presign_request(&s);
    assert_eq!(req.project, "p");
    assert_eq!(req.tool, "a");
    assert_eq!(req.platform_arch, "linux-amd64");
    assert_eq!(req.latest_filename, "tool-1.0");
    let rec = install_record(&s, "/opt/tools/a".into(), "ffee".into(), "2024-01-01T00:00:00+00:00".into());
    assert_eq!(rec.version.as_deref(), Some("1.0"));
    assert_eq!(rec.sha256.as_deref(), Some("ffee"));
    assert_eq!(rec.installed_by.as_deref(), Some("p/t"));
    assert!(rec.auto_dependency);
    let now = forge::commands::install::record_installed(&s, "/x".into(), "00".into());
    assert!(now.installed_at.starts_with("20"));
    assert_eq!(now.path, "/x");
}

#[test]
fn recorded_install_is_not_planned_again() {
    let store = readme_store();
    let mut state = StateFile::empty();
    let steps = plan_install(&store, "security-tools", "axxon-one-core", "linux-amd64", &state, false, true)
        .ok()
        .unwrap();
    for s in &steps {
        let sha = s.platform.sha256.clone().unwrap();
        state.upsert(install_record(s, format!("/opt/tools/{}", s.tool_slug), sha, "2024-01-01T00:00:00Z".into()));
    }
    let again = plan_install(&store, "security-tools", "axxon-one-core", "linux-amd64", &state, false, true)
        .ok()
        .unwrap();
    assert!(again.is_empty());
}

#[test]
fn plan_lines_as_in_readme() {
    let steps = match plan_install(&readme_store(), "security-tools", "axxon-one-core", "linux-amd64", &StateFile::empty(), false, false) {
        Ok(s) => s,
        Err(_) => panic!("plan failed"),
    };
    assert_eq!(plan_line(1, &steps[0]), "1. security-tools/axxon-drivers-pack → 2.0.0 linux-amd64 2.1 MB");
    assert_eq!(step_tag(&steps[0]), "[required dep]");
    assert_eq!(plan_line(3, &steps[2]), "3. security-tools/axxon-analytics → 1.2.0 default 100 B");
    assert_eq!(step_tag(&steps[2]), "[recommended]");
    assert_eq!(plan_line(4, &steps[3]), "4. security-tools/axxon-one-core → 20.0.0 linux-amd64 8.4 MB");
    assert_eq!(step_tag(&steps[3]), "");
    let mut s = step("x", "optional");
    s.platform.version = None;
    s.platform.size_bytes = None;
    assert_eq!(plan_line(12, &s), "12. p/x → - linux-amd64 -");
    assert_eq!(step_tag(&s), "[optional]");
}

#[test]
fn walk_from_an_earlier_state_skips_visited_tools() {
    let store = readme_store();
    let state = StateFile::empty();
    let mut steps: Vec<InstallStep> = Vec::new();
    let mut visited = vec!["security-tools/axxon-drivers-pack".to_string()];
    let r = resolve_deps(
        &store, "security-tools", "axxon-one-core", "linux-amd64", &state,
        &mut steps, &mut visited, None, "target", false, true,
    );
    assert!(r.is_ok());
    assert_eq!(slugs(&steps), vec!["axxon-detector-pack", "axxon-one-core"]);
    assert_eq!(
        visited,
        vec![
            "security-tools/axxon-drivers-pack".to_string(),
            "security-tools/axxon-one-core".to_string(),
            "security-tools/axxon-detector-pack".to_string(),
        ]
    );
    // a tool already visited adds nothing
    let before = steps.len();
    assert!(resolve_deps(
        &store, "security-tools", "axxon-one-core", "linux-amd64", &state,
        &mut steps, &mut visited, None, "target", false, true,
    )
    .is_ok());
    assert_eq!(steps.len(), before);
    // a detail not fetched is asked for, and nothing changes
    let mut empty_steps: Vec<InstallStep> = Vec::new();
    let mut empty_visited: Vec<String> = Vec::new();
    match resolve_deps(
        &Vec::new(), "p", "x", "linux-amd64", &state,
        &mut empty_steps, &mut empty_visited, None, "target", false, false,
    ) {
        Err(PlanError::NeedDetail { project_slug, tool_slug }) => {
            assert_eq!((project_slug.as_str(), tool_slug.as_str()), ("p", "x"));
        }
        _ => panic!("expected a request for the detail"),
    }
    assert!(empty_steps.is_empty() && empty_visited.is_empty());
}
