use lx::FileEntry;
use lx::FileType;
use lx::Color;
use lx::config::parse_color;
use lx::missing_target_message;

fn entry(name: &str, is_dir: bool, is_exec: bool, mode: u32, size: u64) -> FileEntry {
    FileEntry {
        name: name.to_string(),
        is_dir,
        is_executable: is_exec,
        mode,
        size,
        modified: Some(0),
        owner: "user".to_string(),
        group: "user".to_string(),
        nlink: 1,
    }
}

#[test]
fn permissions_dir_755() {
    let e = entry("d", true, false, 0o755, 0);
    assert_eq!(e.format_permissions(), "drwxr-xr-x");
}

#[test]
fn permissions_file_644() {
    let e = entry("f", false, false, 0o644, 0);
    assert_eq!(e.format_permissions(), "-rw-r--r--");
}

#[test]
fn permissions_file_000_and_777() {
    assert_eq!(entry("f", false, false, 0o000, 0).format_permissions(), "----------");
    assert_eq!(entry("f", false, false, 0o777, 0).format_permissions(), "-rwxrwxrwx");
}

#[test]
fn size_below_one_kibibyte_is_exact() {
    assert_eq!(entry("f", false, false, 0, 0).format_size(), "0B");
    assert_eq!(entry("f", false, false, 0, 1023).format_size(), "1023B");
}

#[test]
fn size_kibibyte_boundary() {
    assert_eq!(entry("f", false, false, 0, 1024).format_size(), "1.0K");
}

#[test]
fn size_mebibyte_boundary() {
    assert_eq!(entry("f", false, false, 0, 1048576).format_size(), "1.0M");
}

#[test]
fn size_gibibyte_tier_and_rounding() {
    assert_eq!(entry("f", false, false, 0, 1073741824).format_size(), "1.0G");
    // 1536 bytes is exactly 1.5 KiB.
    assert_eq!(entry("f", false, false, 0, 1536).format_size(), "1.5K");
    // The K tier tops out at 1024.0K just below one mebibyte.
    assert_eq!(entry("f", false, false, 0, 1048575).format_size(), "1024.0K");
}

#[test]
fn modified_epoch_and_known_timestamp() {
    let mut e = entry("f", false, false, 0, 0);
    e.modified = Some(0);
    assert_eq!(e.format_modified(), "1970-01-01 00:00:00");
    e.modified = Some(1431648000);
    assert_eq!(e.format_modified(), "2015-05-15 00:00:00");
}

#[test]
fn modified_unknown_when_unexpressible() {
    let mut e = entry("f", false, false, 0, 0);
    e.modified = None;
    assert_eq!(e.format_modified(), "Unknown");
}

#[test]
fn modified_unknown_when_out_of_calendar_range() {
    let mut e = entry("f", false, false, 0, 0);
    // About 294,000 years from the epoch: beyond any representable date.
    e.modified = Some(9_300_000_000_000);
    assert_eq!(e.format_modified(), "Unknown");
}

#[test]
fn classification_rule() {
    assert_eq!(entry("d", true, true, 0, 0).get_file_type(), FileType::Directory);
    assert_eq!(entry("x", false, true, 0, 0).get_file_type(), FileType::Executable);
    assert_eq!(entry("f", false, false, 0, 0).get_file_type(), FileType::RegularFile);
}

#[test]
fn color_names_fold_case_and_fall_back_to_white() {
    assert_eq!(parse_color("BLUE"), Color::Blue);
    assert_eq!(parse_color("bright_magenta"), Color::BrightMagenta);
    assert_eq!(parse_color("no-such-color"), Color::White);
    assert_eq!(parse_color(""), Color::White);
}

#[test]
fn missing_target_diagnostic_text() {
    assert_eq!(
        missing_target_message("/nope"),
        "lx: cannot access '/nope': No such file or directory"
    );
}
