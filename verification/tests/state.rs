use forge::state::local::{InstalledTool, StateFile};

fn tool(project: &str, slug: &str, sha: Option<&str>, by: Option<&str>) -> InstalledTool {
    InstalledTool {
        project_slug: project.to_string(),
        tool_slug: slug.to_string(),
        version: Some("1.0.0".to_string()),
        sha256: sha.map(|s| s.to_string()),
        path: format!("/opt/tools/{slug}"),
        installed_at: "2024-05-01T10:00:00Z".to_string(),
        auto_dependency: by.is_some(),
        installed_by: by.map(|s| s.to_string()),
    }
}

fn sample() -> StateFile {
    let mut s = StateFile::empty();
    s.upsert(tool("sec", "core", Some("aa"), None));
    s.upsert(tool("sec", "drivers", Some("bb"), Some("sec/core")));
    s.upsert(tool("sec", "detector", None, Some("sec/core")));
    s.upsert(tool("ops", "core", Some("cc"), None));
    s
}

#[test]
fn empty_state_has_version_one() {
    let s = StateFile::empty();
    assert_eq!(s.version, 1);
    assert!(s.installed.is_empty());
    assert!(s.find("sec", "core").is_none());
}

#[test]
fn find_matches_project_and_tool() {
    let s = sample();
    let t = s.find("sec", "core").unwrap();
    assert_eq!(t.sha256.as_deref(), Some("aa"));
    let t = s.find("ops", "core").unwrap();
    assert_eq!(t.sha256.as_deref(), Some("cc"));
    assert!(s.find("sec", "missing").is_none());
    assert!(s.find("other", "core").is_none());
}

#[test]
fn upsert_replaces_in_place() {
    let mut s = sample();
    s.upsert(tool("sec", "drivers", Some("new"), None));
    assert_eq!(s.installed.len(), 4);
    assert_eq!(s.installed[1].sha256.as_deref(), Some("new"));
    assert_eq!(s.installed[1].installed_by, None);
}

#[test]
fn upsert_appends_new_tool() {
    let mut s = sample();
    s.upsert(tool("sec", "analytics", Some("dd"), None));
    assert_eq!(s.installed.len(), 5);
    assert_eq!(s.installed[4].tool_slug, "analytics");
}

#[test]
fn lookup_after_upsert_returns_written_record() {
    let mut s = sample();
    let t = tool("sec", "detector", Some("ee"), Some("sec/core"));
    s.upsert(t.clone());
    let found = s.find("sec", "detector").unwrap();
    assert_eq!(found.sha256.as_deref(), Some("ee"));
    assert_eq!(found.path, t.path);
    // other keys read as before
    assert_eq!(s.find("ops", "core").unwrap().sha256.as_deref(), Some("cc"));
}

#[test]
fn upsert_twice_same_as_once() {
    let mut a = sample();
    let mut b = sample();
    let t = tool("new", "thing", Some("ff"), None);
    a.upsert(t.clone());
    b.upsert(t.clone());
    b.upsert(t);
    assert_eq!(a.installed.len(), b.installed.len());
    for (x, y) in a.installed.iter().zip(b.installed.iter()) {
        assert_eq!(x.project_slug, y.project_slug);
        assert_eq!(x.tool_slug, y.tool_slug);
        assert_eq!(x.sha256, y.sha256);
    }
}

#[test]
fn remove_returns_record_and_clears_key() {
    let mut s = sample();
    let r = s.remove("sec", "drivers").unwrap();
    assert_eq!(r.sha256.as_deref(), Some("bb"));
    assert!(s.find("sec", "drivers").is_none());
    assert_eq!(s.installed.len(), 3);
    assert!(s.remove("sec", "drivers").is_none());
    assert_eq!(s.installed.len(), 3);
}

#[test]
fn remove_undoes_upsert_of_new_tool() {
    let mut s = sample();
    let before: Vec<String> = s.installed.iter().map(|t| t.tool_slug.clone()).collect();
    s.upsert(tool("x", "y", None, None));
    let r = s.remove("x", "y").unwrap();
    assert_eq!(r.tool_slug, "y");
    let after: Vec<String> = s.installed.iter().map(|t| t.tool_slug.clone()).collect();
    assert_eq!(before, after);
}

#[test]
fn dependencies_installed_by_lists_auto_deps() {
    let s = sample();
    let deps = s.dependencies_installed_by("sec", "core");
    let names: Vec<&str> = deps.iter().map(|t| t.tool_slug.as_str()).collect();
    assert_eq!(names, vec!["drivers", "detector"]);
    assert!(s.dependencies_installed_by("ops", "core").is_empty());
}

#[test]
fn dependents_of_lists_what_the_tool_installed() {
    let s = sample();
    let a: Vec<&str> = s.dependents_of("sec", "core").iter().map(|t| t.tool_slug.as_str()).collect();
    assert_eq!(a, vec!["drivers", "detector"]);
    let b: Vec<&str> =
        s.dependencies_installed_by("sec", "core").iter().map(|t| t.tool_slug.as_str()).collect();
    assert_eq!(a, b);
    assert!(s.dependents_of("sec", "drivers").is_empty());
    assert!(s.dependents_of("ops", "core").is_empty());
}
