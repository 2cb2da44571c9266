use quick_copy::archive::{archive_file_name, build_archive, read_archive, ArchiveEntry};
use quick_copy::clock::{date_string, format_timestamp, timestamp};
use quick_copy::pattern::{compile_excludes, is_excluded};

fn file(path: &str, data: &[u8]) -> ArchiveEntry {
    ArchiveEntry {
        path: path.to_string(),
        is_dir: false,
        data: data.to_vec(),
    }
}

fn dir(path: &str) -> ArchiveEntry {
    ArchiveEntry {
        path: path.to_string(),
        is_dir: true,
        data: Vec::new(),
    }
}

fn patterns(pats: Vec<&str>) -> Vec<glob::Pattern> {
    compile_excludes(&pats.into_iter().map(|s| s.to_string()).collect())
}

fn entry_names(bytes: Vec<u8>) -> Vec<(String, bool)> {
    read_archive(bytes)
        .unwrap()
        .into_iter()
        .map(|e| (e.path, e.is_dir))
        .collect()
}

#[test]
fn exclude_glob_strikes_whole_path_and_components() {
    let pats = patterns(vec!["*.log"]);
    assert!(is_excluded("a.log", &pats));
    assert!(is_excluded("sub/b.log", &pats));
    assert!(!is_excluded("keep.txt", &pats));
    assert!(!is_excluded("sub", &pats));
}

#[test]
fn exclude_trailing_slash_is_exact_directory_name() {
    let pats = patterns(vec![".git/"]);
    assert!(is_excluded(".git", &pats));
    assert!(is_excluded(".git/config", &pats));
    assert!(is_excluded("sub/.git/hooks", &pats));
    assert!(!is_excluded(".gitignore", &pats));
    assert!(!is_excluded("git", &pats));
}

#[test]
fn invalid_patterns_are_dropped() {
    let pats = patterns(vec!["[", "*.log", "a**b"]);
    assert_eq!(pats.len(), 1);
    assert!(is_excluded("x.log", &pats));
    assert!(!is_excluded("[", &pats));
}

#[test]
fn archive_excludes_log_files() {
    let tree = vec![
        file("a.log", b"one"),
        dir("sub"),
        file("sub/b.log", b"two"),
        file("keep.txt", b"three"),
    ];
    let bytes = build_archive(&tree, &patterns(vec!["*.log"])).unwrap();
    let names = entry_names(bytes);
    assert_eq!(
        names,
        vec![("sub".to_string(), true), ("keep.txt".to_string(), false)]
    );
}

#[test]
fn archive_excludes_git_directory() {
    let tree = vec![
        dir(".git"),
        file(".git/config", b"[core]"),
        dir("src"),
        file("src/main.c", b"int main;"),
    ];
    let bytes = build_archive(&tree, &patterns(vec![".git/"])).unwrap();
    let names = entry_names(bytes);
    assert!(names.iter().all(|(p, _)| !p.contains(".git")));
    assert_eq!(
        names,
        vec![("src".to_string(), true), ("src/main.c".to_string(), false)]
    );
}

#[test]
fn archive_round_trip_reproduces_non_excluded_entries() {
    let tree = vec![
        dir("docs"),
        file("docs/readme.md", b"hello"),
        file("notes.txt", b"alpha\nbeta\n"),
        file("trace.log", b"noise"),
        dir("node_modules"),
        file("node_modules/x.js", b"js"),
        file("empty.bin", b""),
    ];
    let bytes = build_archive(&tree, &patterns(vec!["*.log", "node_modules/"])).unwrap();
    let restored = read_archive(bytes).unwrap();

    let expected: Vec<(&str, bool, &[u8])> = vec![
        ("docs", true, b""),
        ("docs/readme.md", false, b"hello"),
        ("notes.txt", false, b"alpha\nbeta\n"),
        ("empty.bin", false, b""),
    ];
    assert_eq!(restored.len(), expected.len());
    for (got, (path, is_dir, data)) in restored.iter().zip(expected) {
        assert_eq!(got.path, path);
        assert_eq!(got.is_dir, is_dir);
        assert_eq!(got.data.as_slice(), data);
    }
}

#[test]
fn archive_with_no_excludes_keeps_everything() {
    let tree = vec![file("a", b"1"), file("b", b"2")];
    let bytes = build_archive(&tree, &patterns(vec![])).unwrap();
    assert_eq!(
        entry_names(bytes),
        vec![("a".to_string(), false), ("b".to_string(), false)]
    );
}

#[test]
fn read_archive_rejects_junk_with_zip_error() {
    let r = read_archive(vec![0, 1, 2, 3]);
    assert!(matches!(r, Err(quick_copy::archive::ArchiveError::ZipError(_))));
}

#[test]
fn duplicate_entry_names_fail_with_zip_error() {
    let tree = vec![file("a.txt", b"one"), file("a.txt", b"two")];
    let r = build_archive(&tree, &patterns(vec![]));
    assert!(matches!(r, Err(quick_copy::archive::ArchiveError::ZipError(_))));
}

#[test]
fn distinct_entry_names_always_build() {
    let tree = vec![file("a.txt", b"one"), dir("a"), file("a/a.txt", b"two")];
    assert!(build_archive(&tree, &patterns(vec![])).is_ok());
}

#[test]
fn archive_name_from_dir_and_timestamp() {
    assert_eq!(
        archive_file_name("project", "20260101-120000", None),
        "project-20260101-120000.zip"
    );
    let custom = "my.zip".to_string();
    assert_eq!(archive_file_name("project", "20260101-120000", Some(&custom)), "my.zip");
}

#[test]
fn test_timestamp_format() {
    let ts = timestamp();
    assert!(ts.len() == 15); // YYYYMMDD-HHMMSS
    assert!(ts.contains('-'));
}

#[test]
fn timestamp_rendering_is_zero_padded() {
    assert_eq!(format_timestamp(2026, 1, 2, 3, 4, 5), "20260102-030405");
    assert_eq!(format_timestamp(987, 12, 31, 23, 59, 59), "09871231-235959");
    let date = date_string();
    assert_eq!(date.len(), 8);
}
