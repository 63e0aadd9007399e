use forge::config::{
    expiry_passed, require_token, resolve_org_slug, resolve_portal_url, resolve_token, resolve_token_at, Config,
    Credentials,
};
use forge::error::ForgeError;
use forge::platform::detect_platform;

fn creds(expires_at: Option<&str>) -> Credentials {
    Credentials {
        access_token: "tok-123".into(),
        expires_at: expires_at.map(|s| s.into()),
        scopes: vec!["download".into()],
        portal_url: "https://p.example".into(),
        org_slug: "my-org".into(),
    }
}

#[test]
fn portal_url_priority() {
    let cfg = Config { portal_url: Some("https://cfg".into()), default_install_path: None, org_slug: None };
    assert_eq!(resolve_portal_url(Some("https://flag"), Some("https://env".into()), &cfg), "https://flag");
    assert_eq!(resolve_portal_url(None, Some("https://env".into()), &cfg), "https://env");
    assert_eq!(resolve_portal_url(None, None, &cfg), "https://cfg");
    assert_eq!(
        resolve_portal_url(None, None, &Config::default()),
        "https://artifacts.digitalsecurityguard.com"
    );
}

#[test]
fn install_path_default() {
    assert_eq!(Config::default().install_path(), "/opt/tools");
    let cfg = Config { portal_url: None, default_install_path: Some("/srv/bin".into()), org_slug: None };
    assert_eq!(cfg.install_path(), "/srv/bin");
}

#[test]
fn env_token_wins() {
    assert_eq!(resolve_token(Some("env".into()), Some(creds(Some("2000-01-01T00:00:00Z")))).ok().unwrap(), Some("env".to_string()));
    assert_eq!(resolve_token(None, None).ok().unwrap(), None);
}

#[test]
fn expired_credentials_are_refused() {
    match resolve_token(None, Some(creds(Some("2000-01-01T00:00:00Z")))) {
        Err(e @ ForgeError::TokenExpired) => assert_eq!(
            e.message(),
            "Token has expired. Run `forge login` to re-authenticate."
        ),
        _ => panic!("expected expiry"),
    }
    assert!(creds(Some("2000-01-01T00:00:00Z")).is_expired());
}

#[test]
fn unexpired_or_unreadable_expiry_keeps_token() {
    assert_eq!(resolve_token(None, Some(creds(Some("2999-01-01T00:00:00Z")))).ok().unwrap(), Some("tok-123".to_string()));
    assert_eq!(resolve_token(None, Some(creds(Some("not a date")))).ok().unwrap(), Some("tok-123".to_string()));
    assert_eq!(resolve_token(None, Some(creds(None))).ok().unwrap(), Some("tok-123".to_string()));
    assert!(!creds(None).is_expired());
    assert!(!creds(Some("soon")).is_expired());
}

#[test]
fn expiry_before_the_epoch_is_always_past() {
    assert!(creds(Some("1969-12-31T23:59:59Z")).is_expired());
    assert!(creds(Some("1900-01-01T00:00:00+01:00")).is_expired());
}

#[test]
fn expiry_compared_to_given_instant() {
    let c = creds(Some("2024-05-01T12:00:00Z"));
    let at = 1_714_564_800i64; // 2024-05-01T12:00:00Z
    assert!(resolve_token_at(None, Some(creds(Some("2024-05-01T12:00:00Z"))), (at, 1)).is_err());
    assert!(resolve_token_at(None, Some(creds(Some("2024-05-01T12:00:00Z"))), (at, 0)).is_ok());
    assert!(c.is_expired_at((at + 1, 0)));
    assert!(!c.is_expired_at((at - 1, 999_999_999)));
    assert!(creds(Some("2024-05-01T14:00:00+02:00")).is_expired_at((at, 1)));
}

#[test]
fn require_token_needs_some_token() {
    match require_token(None, None) {
        Err(e @ ForgeError::NotAuthenticated) => {
            assert_eq!(e.message(), "Not authenticated. Run `forge login` first.")
        }
        _ => panic!("expected not authenticated"),
    }
    assert_eq!(require_token(Some("t".into()), None).ok().unwrap(), "t");
}

#[test]
fn org_slug_from_credentials() {
    assert_eq!(resolve_org_slug(Some(creds(None))), Some("my-org".to_string()));
    assert_eq!(resolve_org_slug(None), None);
}

#[test]
fn platform_names() {
    assert_eq!(detect_platform("linux", "x86_64"), "linux-amd64");
    assert_eq!(detect_platform("macos", "aarch64"), "darwin-arm64");
    assert_eq!(detect_platform("windows", "arm"), "windows-armv7");
    assert_eq!(detect_platform("freebsd", "riscv64"), "freebsd-riscv64");
}

#[test]
fn expiry_passed_only_strictly_before_now() {
    assert!(expiry_passed(Some((10, 0)), (10, 1)));
    assert!(expiry_passed(Some((9, 999_999_999)), (10, 0)));
    assert!(!expiry_passed(Some((10, 1)), (10, 1)));
    assert!(!expiry_passed(Some((11, 0)), (10, 5)));
    assert!(!expiry_passed(None, (10, 0)));
}
