//! Tests of the attachment path sandbox against a real temporary directory
//! tree.

use std::path::{Path, PathBuf};

use tempfile::{Builder, TempDir};
use vikunja_rust_mcp::error::Error;
use vikunja_rust_mcp::sandbox::{
    check_roots, download_parent, is_within, AttachmentSandbox, InvalidRoot,
};

fn text(p: &Path) -> String {
    p.to_str().unwrap().to_string()
}

fn sandbox(upload: &[&Path], download: &[&Path]) -> AttachmentSandbox {
    AttachmentSandbox::new(
        &upload.iter().map(|p| text(p)).collect::<Vec<_>>(),
        &download.iter().map(|p| text(p)).collect::<Vec<_>>(),
    )
    .expect("test roots should validate")
}

/// Creates an empty file with exactly this name inside `dir`.
fn file_in(dir: &Path, name: &str) -> PathBuf {
    let file = Builder::new().prefix(name).rand_bytes(0).tempfile_in(dir).unwrap();
    let (_, path) = file.keep().unwrap();
    path
}

/// Creates a directory with exactly this name inside `dir`.
fn dir_in(dir: &Path, name: &str) -> PathBuf {
    let d: TempDir = Builder::new().prefix(name).rand_bytes(0).tempdir_in(dir).unwrap();
    d.keep()
}

#[test]
fn permissive_default_allows_any_path() {
    let sandbox = AttachmentSandbox::default();
    assert!(sandbox.is_permissive());
    assert_eq!(sandbox.resolve_upload_path("/anywhere/file.txt").unwrap(), "/anywhere/file.txt");
    assert_eq!(sandbox.resolve_download_path("/anywhere/out.txt").unwrap(), "/anywhere/out.txt");
}

#[test]
fn missing_root_fails_closed() {
    let dir = tempfile::tempdir().unwrap();
    let missing = text(&dir.path().join("does-not-exist"));
    let err = AttachmentSandbox::new(std::slice::from_ref(&missing), &[]).unwrap_err();
    assert!(err.path.contains("does-not-exist"));
    assert!(err.message().starts_with("attachment root `"));
}

#[test]
fn file_as_root_fails_closed() {
    let dir = tempfile::tempdir().unwrap();
    let file = file_in(dir.path(), "root.txt");
    let err = AttachmentSandbox::new(&[], &[text(&file)]).unwrap_err();
    assert!(err.reason.contains("not a directory"));
}

#[test]
fn upload_inside_root_is_allowed() {
    let dir = tempfile::tempdir().unwrap();
    let file = file_in(dir.path(), "report.txt");
    let sandbox = sandbox(&[dir.path()], &[]);
    assert!(!sandbox.is_permissive());
    let resolved = sandbox.resolve_upload_path(file.to_str().unwrap()).unwrap();
    assert_eq!(resolved, text(&dir.path().canonicalize().unwrap().join("report.txt")));
}

#[test]
fn sibling_directory_sharing_a_name_prefix_is_rejected() {
    let dir = tempfile::tempdir().unwrap();
    let root = dir_in(dir.path(), "allowed");
    let sibling = dir_in(dir.path(), "allowed-evil");
    let file = file_in(&sibling, "secret.txt");
    let sandbox = sandbox(&[&root], &[&root]);
    assert!(sandbox.resolve_upload_path(file.to_str().unwrap()).is_err());
    assert!(sandbox.resolve_download_path(sibling.join("out.bin").to_str().unwrap()).is_err());
}

#[test]
fn upload_outside_root_is_rejected() {
    let root = tempfile::tempdir().unwrap();
    let outside = tempfile::tempdir().unwrap();
    let file = file_in(outside.path(), "secret.txt");
    let sandbox = sandbox(&[root.path()], &[]);
    let err = sandbox.resolve_upload_path(file.to_str().unwrap()).unwrap_err();
    assert!(matches!(err, Error::InvalidArgument(_)), "{err:?}");
    assert!(err.message().contains("upload"));
    assert!(!err.message().contains(root.path().to_str().unwrap()));
}

#[test]
fn upload_traversal_is_rejected() {
    let root = tempfile::tempdir().unwrap();
    let outside = tempfile::tempdir().unwrap();
    file_in(outside.path(), "secret.txt");
    let sneaky = format!(
        "{}/../{}/secret.txt",
        root.path().to_str().unwrap(),
        outside.path().file_name().unwrap().to_str().unwrap()
    );
    let sandbox = sandbox(&[root.path()], &[]);
    let err = sandbox.resolve_upload_path(&sneaky).unwrap_err();
    assert!(matches!(err, Error::InvalidArgument(_)), "{err:?}");
}

#[test]
fn upload_of_missing_file_is_an_io_error() {
    let root = tempfile::tempdir().unwrap();
    let sandbox = sandbox(&[root.path()], &[]);
    let missing = root.path().join("missing.txt");
    let err = sandbox.resolve_upload_path(missing.to_str().unwrap()).unwrap_err();
    assert!(matches!(err, Error::Io { .. }), "{err:?}");
}

#[test]
fn upload_checks_second_root_too() {
    let first = tempfile::tempdir().unwrap();
    let second = tempfile::tempdir().unwrap();
    let file = file_in(second.path(), "ok.txt");
    let sandbox = sandbox(&[first.path(), second.path()], &[]);
    assert!(sandbox.resolve_upload_path(file.to_str().unwrap()).is_ok());
}

#[test]
fn download_to_new_file_inside_root_is_allowed() {
    let root = tempfile::tempdir().unwrap();
    let sandbox = sandbox(&[], &[root.path()]);
    let target = root.path().join("new-file.bin");
    let resolved = sandbox.resolve_download_path(target.to_str().unwrap()).unwrap();
    assert_eq!(resolved, text(&root.path().canonicalize().unwrap().join("new-file.bin")));
}

#[test]
fn download_outside_root_is_rejected() {
    let root = tempfile::tempdir().unwrap();
    let outside = tempfile::tempdir().unwrap();
    let sandbox = sandbox(&[], &[root.path()]);
    let err = sandbox.resolve_download_path(outside.path().join("out.bin").to_str().unwrap()).unwrap_err();
    assert!(matches!(err, Error::InvalidArgument(_)), "{err:?}");
    assert!(err.message().contains("download"));
    assert!(!err.message().contains(root.path().to_str().unwrap()));
}

#[test]
fn download_traversal_is_rejected() {
    let root = tempfile::tempdir().unwrap();
    let sandbox = sandbox(&[], &[root.path()]);
    let sneaky = format!("{}/../escape.bin", root.path().to_str().unwrap());
    let err = sandbox.resolve_download_path(&sneaky).unwrap_err();
    assert!(matches!(err, Error::InvalidArgument(_)), "{err:?}");
}

#[test]
fn download_with_missing_parent_is_an_io_error() {
    let root = tempfile::tempdir().unwrap();
    let sandbox = sandbox(&[], &[root.path()]);
    let target = root.path().join("no-such-dir").join("out.bin");
    let err = sandbox.resolve_download_path(target.to_str().unwrap()).unwrap_err();
    assert!(matches!(err, Error::Io { .. }), "{err:?}");
}

#[test]
fn download_without_file_name_is_rejected() {
    let root = tempfile::tempdir().unwrap();
    let sandbox = sandbox(&[], &[root.path()]);
    for raw in ["..", "/"] {
        let err = sandbox.resolve_download_path(raw).unwrap_err();
        assert!(matches!(err, Error::InvalidArgument(_)), "{raw}: {err:?}");
    }
}

#[test]
fn upload_roots_do_not_restrict_downloads_and_vice_versa() {
    let up = tempfile::tempdir().unwrap();
    let sandbox = sandbox(&[up.path()], &[]);
    let anywhere = tempfile::tempdir().unwrap();
    assert!(sandbox.resolve_download_path(anywhere.path().join("x.bin").to_str().unwrap()).is_ok());
}

#[test]
fn containment_compares_whole_components() {
    let roots = vec!["/data/allowed".to_string()];
    assert!(is_within("/data/allowed", &roots));
    assert!(is_within("/data/allowed/x/y", &roots));
    assert!(!is_within("/data/allowed-evil/x", &roots));
    assert!(!is_within("/data", &roots));
    assert!(is_within("/etc/passwd", &["/".to_string()]));
}

fn roots(names: &[&str]) -> Vec<String> {
    names.iter().map(|n| n.to_string()).collect()
}

#[test]
fn check_roots_keeps_canonical_forms_in_order() {
    let reports = vec![(Ok("/srv/a".to_string()), true), (Ok("/srv/b".to_string()), true)];
    assert_eq!(
        check_roots(&roots(&["a", "./b"]), reports).unwrap(),
        vec!["/srv/a".to_string(), "/srv/b".to_string()]
    );
}

#[test]
fn check_roots_reports_the_first_unusable_root() {
    let reports = vec![
        (Ok("/srv/a".to_string()), true),
        (Ok("/srv/file".to_string()), false),
        (Err("No such file or directory".to_string()), false),
    ];
    assert_eq!(
        check_roots(&roots(&["a", "file", "missing"]), reports).unwrap_err(),
        InvalidRoot { path: "file".to_string(), reason: "not a directory".to_string() }
    );
    let reports = vec![(Err("No such file or directory".to_string()), false)];
    assert_eq!(
        check_roots(&roots(&["missing"]), reports).unwrap_err(),
        InvalidRoot { path: "missing".to_string(), reason: "No such file or directory".to_string() }
    );
}

#[test]
fn upload_roots_are_checked_before_download_roots() {
    let up = roots(&["up"]);
    let down = roots(&["down"]);
    let err = AttachmentSandbox::from_reports(
        &up,
        vec![(Err("gone".to_string()), false)],
        &down,
        vec![(Ok("/srv/down".to_string()), false)],
    )
    .unwrap_err();
    assert_eq!(err.path, "up");
    let ok = AttachmentSandbox::from_reports(
        &up,
        vec![(Ok("/srv/up".to_string()), true)],
        &down,
        vec![(Ok("/srv/down".to_string()), true)],
    )
    .unwrap();
    assert!(!ok.is_permissive());
}

#[test]
fn download_parent_defaults_to_the_current_directory() {
    assert_eq!(download_parent("/tmp/out/file.txt"), "/tmp/out");
    assert_eq!(download_parent("file.txt"), ".");
    assert_eq!(download_parent("dir/file.txt"), "dir");
}

#[test]
fn download_decision_checks_root_then_symlink() {
    let root = TempDir::new().unwrap();
    let canonical = text(&root.path().canonicalize().unwrap());
    let s = sandbox(&[], &[root.path()]);
    let ok = s.download_decision("x/f.txt", "f.txt", Ok(canonical.clone()), false).unwrap();
    assert_eq!(ok, format!("{canonical}/f.txt"));
    match s.download_decision("x/f.txt", "f.txt", Ok(canonical.clone()), true) {
        Err(Error::InvalidArgument(m)) => assert_eq!(
            m,
            "save_path `x/f.txt` is an existing symlink; refusing to write through it"
        ),
        other => panic!("unexpected {other:?}"),
    }
    match s.download_decision("x/f.txt", "f.txt", Ok("/elsewhere".to_string()), true) {
        Err(Error::InvalidArgument(m)) => assert_eq!(
            m,
            "save_path `x/f.txt` is outside the allowed attachment download directories"
        ),
        other => panic!("unexpected {other:?}"),
    }
    match s.download_decision("x/f.txt", "f.txt", Err("gone".to_string()), false) {
        Err(Error::Io { detail }) => {
            assert_eq!(detail, "could not resolve the directory of x/f.txt: gone")
        }
        other => panic!("unexpected {other:?}"),
    }
}
