use forge::client::download::{check_download, download_accepted, expected_total, finish_download, DownloadError, Sha256Stream};
use forge::commands::verify::{count_failures, failures_message, precheck, verify_contents, verify_targets, VerifyStatus};
use forge::commands::upgrade::SelectionError;
use forge::state::local::{InstalledTool, StateFile};
use forge::text::to_hex_lower;

const ABC_SHA256: &str = "ba7816bf8f01cfea414140de5dae2223b00361a396177a9cb410ff61f20015ad";
const EMPTY_SHA256: &str = "e3b0c44298fc1c149afbf4c8996fb92427ae41e4649b934ca495991b7852b855";

fn unhex(s: &str) -> Vec<u8> {
    (0..s.len()).step_by(2).map(|i| u8::from_str_radix(&s[i..i + 2], 16).unwrap()).collect()
}

fn sha256_digest(data: &[u8]) -> Vec<u8> {
    if data == b"abc" {
        unhex(ABC_SHA256)
    } else {
        unhex("a1a2a3a4a5a6a7a8a9aaabacadaeafb0b1b2b3b4b5b6b7b8b9babbbcbdbebfc0")
    }
}

#[test]
fn sha256_of_known_inputs() {
    assert!(matches!(verify_contents(ABC_SHA256, b"abc"), VerifyStatus::Intact));
    assert!(matches!(verify_contents(EMPTY_SHA256, b""), VerifyStatus::Intact));
    assert!(matches!(verify_contents(EMPTY_SHA256, b"abc"), VerifyStatus::Modified));
}

#[test]
fn streamed_digest_covers_every_chunk() {
    let mut h = Sha256Stream::new();
    h.update(b"a");
    h.update(b"");
    h.update(b"bc");
    assert_eq!(finish_download(h, Some(ABC_SHA256)).ok().unwrap(), ABC_SHA256);
    let empty = Sha256Stream::new();
    assert_eq!(finish_download(empty, None).ok().unwrap(), EMPTY_SHA256);
    let mut h = Sha256Stream::new();
    h.update(b"ab");
    match finish_download(h, Some(ABC_SHA256)) {
        Err(e @ DownloadError::Mismatch { .. }) => {
            assert!(e.message().starts_with(&format!("SHA-256 mismatch: expected {ABC_SHA256}, got ")));
        }
        _ => panic!("expected mismatch"),
    }
}

#[test]
fn hex_is_lowercase_two_digits_per_byte() {
    assert_eq!(to_hex_lower(&[0x00, 0x0f, 0xab, 0xff]), "000fabff");
    assert_eq!(to_hex_lower(&[]), "");
}

#[test]
fn download_accepted_when_digest_matches() {
    let d = sha256_digest(b"abc");
    assert_eq!(check_download(&d, Some(ABC_SHA256)).ok().unwrap(), ABC_SHA256);
    assert_eq!(check_download(&d, None).ok().unwrap(), ABC_SHA256);
}

#[test]
fn download_refused_on_mismatch() {
    let d = sha256_digest(b"abd");
    assert_eq!(d.len(), 32);
    match check_download(&d, Some(ABC_SHA256)) {
        Err(e @ DownloadError::Mismatch { .. }) => {
            let actual = to_hex_lower(&d);
            assert_eq!(e.message(), format!("SHA-256 mismatch: expected {ABC_SHA256}, got {actual}"));
        }
        Ok(_) => panic!("mismatch accepted"),
    }
    // uppercase is not the same text
    assert!(check_download(&sha256_digest(b"abc"), Some(&ABC_SHA256.to_uppercase())).is_err());
}

#[test]
fn expected_total_prefers_content_length() {
    assert_eq!(expected_total(Some(10), Some(20)), Some(10));
    assert_eq!(expected_total(None, Some(20)), Some(20));
    assert_eq!(expected_total(None, Some(-1)), Some(u64::MAX));
    assert_eq!(expected_total(None, None), None);
}

fn rec(project: &str, slug: &str, sha: Option<&str>) -> InstalledTool {
    InstalledTool {
        project_slug: project.into(),
        tool_slug: slug.into(),
        version: None,
        sha256: sha.map(|s| s.into()),
        path: format!("/opt/tools/{slug}"),
        installed_at: "2024-01-01T00:00:00Z".into(),
        auto_dependency: false,
        installed_by: None,
    }
}

#[test]
fn verify_contents_detects_modification() {
    assert!(matches!(verify_contents(ABC_SHA256, b"abc"), VerifyStatus::Intact));
    assert!(matches!(verify_contents(ABC_SHA256, b"abc\n"), VerifyStatus::Modified));
}

#[test]
fn precheck_missing_and_skipped() {
    assert!(matches!(precheck(&rec("p", "a", Some("x")), false), Some(VerifyStatus::Missing)));
    assert!(matches!(precheck(&rec("p", "a", None), true), Some(VerifyStatus::Skipped)));
    assert!(precheck(&rec("p", "a", Some("x")), true).is_none());
}

#[test]
fn failures_are_counted() {
    let statuses = vec![VerifyStatus::Intact, VerifyStatus::Missing, VerifyStatus::Skipped, VerifyStatus::Modified];
    assert_eq!(count_failures(&statuses), 2);
    assert_eq!(failures_message(2), "2 verification failure(s).");
}

#[test]
fn verify_targets_selection() {
    let mut s = StateFile::empty();
    s.upsert(rec("p", "a", None));
    s.upsert(rec("q", "a", None));
    s.upsert(rec("q", "b", None));
    let v = verify_targets(&s, Some("a"), false).ok().unwrap();
    assert_eq!(v.iter().map(|t| t.project_slug.as_str()).collect::<Vec<_>>(), vec!["p", "q"]);
    assert_eq!(verify_targets(&s, None, true).ok().unwrap().len(), 3);
    match verify_targets(&s, Some("z"), true) {
        Err(e @ SelectionError::NotInstalled { .. }) => assert_eq!(e.verify_message(), "Tool 'z' is not installed."),
        _ => panic!("expected error"),
    }
    match verify_targets(&s, None, false) {
        Err(e @ SelectionError::NothingSelected) => assert_eq!(
            e.verify_message(),
            "Specify a tool name or use --all to verify all installed tools."
        ),
        _ => panic!("expected error"),
    }
}

#[test]
fn only_success_statuses_are_downloaded() {
    assert!(download_accepted(200));
    assert!(download_accepted(299));
    assert!(!download_accepted(199));
    assert!(!download_accepted(300));
    assert!(!download_accepted(404));
}
