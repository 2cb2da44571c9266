use quick_copy::config::{
    default_layout, default_path_alias, default_port, default_share, default_staging_dir,
};
use quick_copy::output::{format_bytes, TransferResult};
use quick_copy::remote::{
    build_layout_path, extract_dir_of, join_spaces, mkdir_command, parent_dir, path_join,
    replace_all, rm_command, test_exists_command, unzip_command, zip_command, zip_exclude_args,
};

#[test]
fn bytes_formatting() {
    assert_eq!(format_bytes(0), "0 bytes");
    assert_eq!(format_bytes(1), "1 bytes");
    assert_eq!(format_bytes(1023), "1023 bytes");
    assert_eq!(format_bytes(1536), "1.50 KB");
    assert_eq!(format_bytes(1_048_576), "1.00 MB");
    assert_eq!(format_bytes(1024), "1.00 KB");
    assert_eq!(format_bytes(1_073_741_824), "1.00 GB");
    assert_eq!(format_bytes(1_610_612_736), "1.50 GB");
}

#[test]
fn human_rendering() {
    let result = TransferResult {
        source: "/home/chris/notes.txt".to_string(),
        dest_host: "andromeda.example.net".to_string(),
        dest_path: "/data/scratch/notes.txt".to_string(),
        bytes: 1536,
        duration_ms: 42,
        mode: "file".to_string(),
        archive_path: None,
    };
    assert_eq!(
        result.render_human(),
        "sent: /home/chris/notes.txt\nto:   andromeda.example.net:/data/scratch/notes.txt\nsize: 1.50 KB\ntime: 42ms\nok\n"
    );
}

#[test]
fn human_rendering_skips_zero_size_and_time() {
    let result = TransferResult {
        source: "a".to_string(),
        dest_host: "h".to_string(),
        dest_path: "/p".to_string(),
        bytes: 0,
        duration_ms: 0,
        mode: "file (dry-run)".to_string(),
        archive_path: None,
    };
    assert_eq!(result.render_human(), "sent: a\nto:   h:/p\nok\n");
}

#[test]
fn remote_commands() {
    assert_eq!(mkdir_command("/data/scratch"), "mkdir -p '/data/scratch'");
    assert_eq!(test_exists_command("/p/f.txt"), "test -e '/p/f.txt'");
    assert_eq!(rm_command("/tmp/a.zip"), "rm -f '/tmp/a.zip'");
    assert_eq!(
        unzip_command("/tmp/a.zip", "/tmp/a"),
        "unzip -o '/tmp/a.zip' -d '/tmp/a'"
    );
}

#[test]
fn remote_zip_command() {
    let excludes = vec!["*.log".to_string(), ".git/".to_string()];
    let args = zip_exclude_args(&excludes);
    assert_eq!(args, vec!["-x", "'*.log'", "-x", "'.git/'"]);
    let cmd = zip_command("/data/proj", "/tmp/proj.zip", &args);
    assert_eq!(
        cmd,
        "cd '/data/proj' && zip -r '/tmp/proj.zip' . -x '*.log' -x '.git/'"
    );
    let empty: Vec<String> = vec![];
    assert_eq!(
        zip_command("/d", "/t.zip", &empty),
        "cd '/d' && zip -r '/t.zip' . "
    );
}

#[test]
fn join_and_paths() {
    let parts = vec!["a".to_string(), "b".to_string(), "c".to_string()];
    assert_eq!(join_spaces(&parts), "a b c");
    let one = vec!["solo".to_string()];
    assert_eq!(join_spaces(&one), "solo");
    assert_eq!(path_join("/data/scratch", "a.zip"), "/data/scratch/a.zip");
}

#[test]
fn parent_directories() {
    assert_eq!(parent_dir("/data/scratch/file.txt"), "/data/scratch");
    assert_eq!(parent_dir("/data/scratch/"), "/data/scratch/");
    assert_eq!(parent_dir("/file"), "/");
    assert_eq!(parent_dir("file"), "");
    assert_eq!(parent_dir(""), "/");
}

#[test]
fn extraction_directory() {
    assert_eq!(extract_dir_of("/tmp/proj.zip"), "/tmp/proj");
    assert_eq!(extract_dir_of("/tmp/proj"), "/tmp/proj");
    assert_eq!(extract_dir_of("a.zip.zip"), "a");
}

#[test]
fn layout_expansion() {
    assert_eq!(replace_all("x{a}y{a}z", "{a}", "-"), "x-y-z");
    assert_eq!(replace_all("abc", "", "-"), "abc");
    assert_eq!(
        build_layout_path("{source}/{date}", "laptop", "20260101"),
        "laptop/20260101"
    );
    assert_eq!(
        build_layout_path("dumps/{date}/{source}", "laptop", "20260101"),
        "dumps/20260101/laptop"
    );
}

#[test]
fn configured_defaults() {
    assert_eq!(default_port(), 22);
    assert_eq!(default_path_alias(), "scratch");
    assert_eq!(default_staging_dir(), "/tmp");
    assert_eq!(default_share(), "ganymede:dumps");
    assert_eq!(default_layout(), "{source}/{date}");
}
