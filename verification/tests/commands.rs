use forge::client::api::{
    CatalogTool, PairingExchangeResponse, PairingStatusResponse, PlatformInfo, ReleaseInfo,
    ToolDetailProject, ToolDetailResponse, ToolDetailTool,
};
use forge::commands::batch::{Batch, BatchAction, BatchMode};
use forge::commands::catalog::catalog_row;
use forge::commands::info::{platform_line, recent_release_lines, release_line};
use forge::commands::list::{installed_date, tool_label, version_label};
use forge::commands::login::{
    credentials_from_exchange, default_org, exchange_request, pairing_request, poll_outcome,
    PairingFailure, PollOutcome,
};
use forge::commands::uninstall::{apply_removals, removal_plan, uninstall_target, UninstallError};
use forge::commands::upgrade::{
    collect_upgrade, plan_upgrade, record_upgraded, upgrade_presign_request, upgrade_record, upgrade_targets,
    SelectionError,
};
use forge::config::Config;
use forge::state::local::{InstalledTool, StateFile};

fn rec(project: &str, slug: &str, sha: Option<&str>, by: Option<&str>) -> InstalledTool {
    InstalledTool {
        project_slug: project.into(),
        tool_slug: slug.into(),
        version: Some("1.0".into()),
        sha256: sha.map(|s| s.into()),
        path: format!("/opt/tools/{slug}"),
        installed_at: "2024-03-02T08:09:10+00:00".into(),
        auto_dependency: by.is_some(),
        installed_by: by.map(|s| s.into()),
    }
}

fn state() -> StateFile {
    let mut s = StateFile::empty();
    s.upsert(rec("sec", "core", Some("aa"), None));
    s.upsert(rec("sec", "drivers", Some("bb"), Some("sec/core")));
    s.upsert(rec("ops", "core", Some("cc"), None));
    s.upsert(rec("sec", "tools", None, None));
    s
}

fn build(version: &str, sha: Option<&str>) -> PlatformInfo {
    PlatformInfo {
        latest_filename: format!("f-{version}"),
        latest_url: None,
        version: Some(version.into()),
        sha256: sha.map(|s| s.into()),
        size_bytes: Some(2048),
    }
}

fn detail(platforms: Vec<(&str, PlatformInfo)>) -> ToolDetailResponse {
    ToolDetailResponse {
        project: ToolDetailProject { name: "Sec".into(), slug: "sec".into() },
        tool: ToolDetailTool {
            id: 1,
            name: "Core".into(),
            slug: "core".into(),
            prerequisites: None,
            platforms: platforms.into_iter().map(|(k, v)| (k.to_string(), v)).collect(),
            mappings: vec![],
            dependencies: vec![],
            releases: vec![],
        },
    }
}

#[test]
fn upgrade_targets_selection() {
    let s = state();
    let v = upgrade_targets(&s, Some("core"), false).ok().unwrap();
    assert_eq!(v.len(), 1);
    assert_eq!(v[0].project_slug, "sec");
    assert_eq!(upgrade_targets(&s, None, true).ok().unwrap().len(), 4);
    match upgrade_targets(&s, Some("nope"), false) {
        Err(e @ SelectionError::NotInstalled { .. }) => assert_eq!(e.upgrade_message(), "Tool 'nope' is not installed."),
        _ => panic!("expected error"),
    }
    match upgrade_targets(&s, None, false) {
        Err(e) => assert_eq!(
            e.upgrade_message(),
            "Specify a tool name or use --all to upgrade all installed tools."
        ),
        _ => panic!("expected error"),
    }
}

#[test]
fn upgrade_planned_only_for_new_builds() {
    let installed = rec("sec", "core", Some("aa"), None);
    assert!(plan_upgrade(&installed, &detail(vec![("linux-amd64", build("2.0", Some("aa")))]), "linux-amd64").is_none());
    assert!(plan_upgrade(&installed, &detail(vec![("darwin-arm64", build("2.0", Some("zz")))]), "linux-amd64").is_none());
    let up = plan_upgrade(&installed, &detail(vec![("default", build("2.0", Some("zz")))]), "linux-amd64").unwrap();
    assert_eq!(up.platform_key, "default");
    assert_eq!(up.new_version.as_deref(), Some("2.0"));
    assert_eq!(up.old_version.as_deref(), Some("1.0"));
    assert_eq!(up.path, "/opt/tools/core");
    // a build without a known digest is always upgraded
    let up = plan_upgrade(&installed, &detail(vec![("linux-amd64", build("2.0", None))]), "linux-amd64").unwrap();
    assert_eq!(up.platform_key, "linux-amd64");
    let req = upgrade_presign_request(&up);
    assert_eq!(req.latest_filename, "f-2.0");
    let r = upgrade_record(&up, "dd".into(), "2024-06-01T00:00:00+00:00".into());
    assert_eq!(r.sha256.as_deref(), Some("dd"));
    assert_eq!(r.version.as_deref(), Some("2.0"));
    assert_eq!(r.path, "/opt/tools/core");
    let r2 = record_upgraded(&up, "ee".into());
    assert_eq!(r2.sha256.as_deref(), Some("ee"));
}

#[test]
fn upgraded_record_needs_no_second_upgrade() {
    let installed = rec("sec", "core", Some("aa"), None);
    let d = detail(vec![("linux-amd64", build("2.0", Some("zz")))]);
    let up = plan_upgrade(&installed, &d, "linux-amd64").unwrap();
    let r = upgrade_record(&up, "zz".into(), "2024-06-01T00:00:00+00:00".into());
    assert!(plan_upgrade(&r, &d, "linux-amd64").is_none());
}

#[test]
fn uninstall_target_resolution() {
    let s = state();
    assert_eq!(uninstall_target(&s, "core", Some("ops")).ok().unwrap().sha256.as_deref(), Some("cc"));
    assert_eq!(uninstall_target(&s, "drivers", None).ok().unwrap().project_slug, "sec");
    match uninstall_target(&s, "core", None) {
        Err(e @ UninstallError::Ambiguous { .. }) => assert_eq!(
            e.message(),
            "Tool 'core' found in multiple projects: sec, ops. Use --project to specify."
        ),
        _ => panic!("expected ambiguous"),
    }
    match uninstall_target(&s, "ghost", None) {
        Err(e) => assert_eq!(e.message(), "Tool 'ghost' is not installed."),
        _ => panic!("expected error"),
    }
    assert!(uninstall_target(&s, "core", Some("zzz")).is_err());
}

#[test]
fn uninstall_refused_with_dependents() {
    let s = state();
    // sec/core installed sec/drivers, which depends on it being there
    let target = rec("sec", "core", Some("aa"), None);
    match removal_plan(&s, &target, false, false) {
        Err(e @ UninstallError::HasDependents { .. }) => {
            assert_eq!(e.message(), "Cannot uninstall: has dependents.");
            if let UninstallError::HasDependents { dependents } = e {
                assert_eq!(dependents, vec![("sec".to_string(), "drivers".to_string())]);
            }
        }
        _ => panic!("expected refusal"),
    }
    let forced = removal_plan(&s, &target, true, false).ok().unwrap();
    assert_eq!(forced.len(), 1);
    assert_eq!(forced[0].tool_slug, "core");
    // a tool that installed nothing goes without flags
    let drivers = rec("sec", "drivers", Some("bb"), Some("sec/core"));
    let plan = removal_plan(&s, &drivers, false, false).ok().unwrap();
    let names: Vec<&str> = plan.iter().map(|r| r.tool_slug.as_str()).collect();
    assert_eq!(names, vec!["drivers"]);
}

#[test]
fn cascade_removes_auto_dependencies() {
    let mut s = state();
    let target = rec("sec", "core", Some("aa"), None);
    let plan = removal_plan(&s, &target, false, true).ok().unwrap();
    let names: Vec<&str> = plan.iter().map(|r| r.tool_slug.as_str()).collect();
    assert_eq!(names, vec!["core", "drivers"]);
    assert_eq!(plan[1].path, "/opt/tools/drivers");
    apply_removals(&mut s, &plan);
    assert!(s.find("sec", "core").is_none());
    assert!(s.find("sec", "drivers").is_none());
    assert!(s.find("ops", "core").is_some());
    assert_eq!(s.installed.len(), 2);
}

fn status(s: &str, token: Option<&str>) -> PairingStatusResponse {
    PairingStatusResponse {
        status: s.into(),
        exchange_token: token.map(|t| t.into()),
        exchange_expires_in: None,
        effective_ttl_seconds: None,
        expires_at: None,
    }
}

#[test]
fn pairing_poll_outcomes() {
    assert!(matches!(poll_outcome(&status("approved", Some("x"))), PollOutcome::Approved(t) if t == "x"));
    match poll_outcome(&status("approved", None)) {
        PollOutcome::Failed(f) => assert_eq!(f.message(), "Approved but no exchange token received"),
        _ => panic!(),
    }
    assert!(matches!(poll_outcome(&status("pending", None)), PollOutcome::Pending));
    match poll_outcome(&status("denied", None)) {
        PollOutcome::Failed(f @ PairingFailure::Denied) => assert_eq!(f.message(), "Pairing was denied."),
        _ => panic!(),
    }
    match poll_outcome(&status("expired", None)) {
        PollOutcome::Failed(f) => assert_eq!(f.message(), "Pairing code expired. Run `forge login` again."),
        _ => panic!(),
    }
    match poll_outcome(&status("exchanged", None)) {
        PollOutcome::Failed(f) => assert_eq!(f.message(), "Pairing code was already exchanged."),
        _ => panic!(),
    }
    match poll_outcome(&status("weird", None)) {
        PollOutcome::Failed(f) => assert_eq!(f.message(), "Unexpected pairing status: weird"),
        _ => panic!(),
    }
}

#[test]
fn pairing_request_and_credentials() {
    let r = pairing_request("org".into(), "host1".into(), "linux-amd64".into(), "x86_64".into());
    assert_eq!(r.app_id, "forge-cli");
    assert_eq!(r.instance_id, "host1");
    assert_eq!(r.requested_scopes, vec!["registry:read", "download", "manifest:read", "latest:read"]);
    assert_eq!(r.metadata.hostname, "host1");
    let x = exchange_request("CODE".into(), "tok".into());
    assert_eq!(x.pairing_code, "CODE");
    let c = credentials_from_exchange(
        PairingExchangeResponse {
            access_token: "at".into(),
            token_type: "bearer".into(),
            expires_at: "2030-01-01T00:00:00Z".into(),
            scopes: vec!["download".into()],
        },
        "https://p".into(),
        "org".into(),
    );
    assert_eq!(c.expires_at.as_deref(), Some("2030-01-01T00:00:00Z"));
    assert_eq!(c.org_slug, "org");
    assert_eq!(default_org(&Config::default()), "");
}

#[test]
fn info_lines() {
    let rel = ReleaseInfo { id: 1, version: Some("2.0".into()), created_at: Some("2024-05-01T10:00:00Z".into()), notes: Some("fixes".into()) };
    assert_eq!(release_line(&rel), "2.0 (2024-05-01) — fixes");
    let rel = ReleaseInfo { id: 1, version: None, created_at: None, notes: Some("".into()) };
    assert_eq!(release_line(&rel), "- (-)");
    let info = build("1.2.3", None);
    assert_eq!(platform_line("linux-amd64", &info), "linux-amd64      version: 1.2.3      size: 2 KB");
    let mut d = detail(vec![]);
    for i in 0..7 {
        d.tool.releases.push(ReleaseInfo { id: i, version: Some(format!("v{i}")), created_at: None, notes: None });
    }
    let lines = recent_release_lines(&d.tool);
    assert_eq!(lines.len(), 5);
    assert_eq!(lines[4], "v4 (-)");
}

#[test]
fn list_columns() {
    let t = rec("sec", "drivers", None, Some("sec/core"));
    assert_eq!(tool_label(&t), "sec/drivers");
    assert_eq!(version_label(&t), "1.0");
    assert_eq!(installed_date(&t), "2024-03-02");
}

#[test]
fn catalog_rows() {
    let t = CatalogTool {
        id: 1,
        name: "Core".into(),
        slug: "core".into(),
        prerequisites: None,
        platforms: vec![("linux-amd64".into(), build("1.0", None)), ("darwin-arm64".into(), build("0.9", None))],
        mappings: vec![],
    };
    assert_eq!(
        catalog_row("sec", &t),
        format!("  {:<20} {:<20} {:<12} {}", "sec", "core", "1.0", "linux-amd64, darwin-arm64")
    );
}

#[test]
fn upgraded_record_is_current() {
    let installed = rec("sec", "core", Some("aa"), None);
    let d = detail(vec![("linux-amd64", build("2.0", Some("zz")))]);
    let up = plan_upgrade(&installed, &d, "linux-amd64").unwrap();
    let r = upgrade_record(&up, "zz".into(), "2024-06-01T00:00:00+00:00".into());
    assert!(plan_upgrade(&r, &d, "linux-amd64").is_none());
}

fn run_batch(mode: BatchMode, outcomes: &[bool]) -> (Vec<usize>, usize) {
    let mut b = Batch::new(outcomes.len(), mode);
    let mut ran = Vec::new();
    loop {
        match b.action() {
            BatchAction::Run(i) => {
                ran.push(i);
                b.record(outcomes[i]);
            }
            BatchAction::Done { failures } => return (ran, failures),
        }
    }
}

#[test]
fn install_stops_at_first_failure() {
    assert_eq!(run_batch(BatchMode::StopOnFailure, &[true, false, true]), (vec![0, 1], 1));
    assert_eq!(run_batch(BatchMode::StopOnFailure, &[true, true]), (vec![0, 1], 0));
    assert_eq!(run_batch(BatchMode::StopOnFailure, &[]), (vec![], 0));
}

#[test]
fn upgrade_continues_past_failures() {
    assert_eq!(run_batch(BatchMode::ContinueOnFailure, &[false, true, false]), (vec![0, 1, 2], 2));
}

#[test]
fn upgrades_skip_tools_that_could_not_be_checked() {
    let a = rec("sec", "core", Some("aa"), None);
    let b = rec("ops", "core", Some("cc"), None);
    let d_new = detail(vec![("linux-amd64", build("2.0", Some("zz")))]);
    let d_same = detail(vec![("linux-amd64", build("1.0", Some("cc")))]);
    let mut plans = Vec::new();
    collect_upgrade(&mut plans, &a, None, "linux-amd64");
    assert!(plans.is_empty());
    collect_upgrade(&mut plans, &b, Some(&d_same), "linux-amd64");
    assert!(plans.is_empty());
    collect_upgrade(&mut plans, &a, Some(&d_new), "linux-amd64");
    assert_eq!(plans.len(), 1);
    assert_eq!(plans[0].new_version.as_deref(), Some("2.0"));
    assert_eq!(plans[0].project_slug, "sec");
}
