use lx::Config;
use lx::FileEntry;
use lx::Formatter;
use lx::Line;
use lx::format_long;
use lx::format_one_per_line;
use lx::format_short;
use unicode_width::UnicodeWidthStr;

fn lay_entry(name: &str, is_dir: bool, is_exec: bool, size: u64) -> FileEntry {
    FileEntry {
        name: name.to_string(),
        is_dir,
        is_executable: is_exec,
        mode: 0o644,
        size,
        modified: Some(0),
        owner: "user".to_string(),
        group: "user".to_string(),
        nlink: 1,
    }
}

fn text(l: &Line) -> String {
    let mut s = String::new();
    for seg in &l.segs {
        s.push_str(&seg.text);
    }
    s
}

const DIR_ICON: &str = "\u{f114}";
const EXEC_ICON: &str = "\u{f489}";
const FILE_ICON: &str = "\u{f4a5}";

#[test]
fn one_per_line_groups_types_in_order() {
    let entries = vec![
        lay_entry("b", false, false, 0),
        lay_entry("a", true, false, 0),
        lay_entry("c", false, true, 0),
    ];
    let lines = format_one_per_line(entries, &Config::default());
    let texts: Vec<String> = lines.iter().map(text).collect();
    assert_eq!(
        texts,
        vec![
            format!("{} a", DIR_ICON),
            format!("{} c", EXEC_ICON),
            format!("{} b", FILE_ICON),
        ]
    );
}

#[test]
fn one_per_line_bolds_directories_and_executables_only() {
    let entries = vec![
        lay_entry("f", false, false, 0),
        lay_entry("d", true, false, 0),
        lay_entry("x", false, true, 0),
    ];
    let lines = format_one_per_line(entries, &Config::default());
    // Lines come grouped: directory, executable, regular file; the name is
    // the last segment of each line.
    assert!(lines[0].segs.last().unwrap().bold);
    assert!(lines[1].segs.last().unwrap().bold);
    assert!(!lines[2].segs.last().unwrap().bold);
}

#[test]
fn short_places_groups_side_by_side() {
    let entries = vec![
        lay_entry("b", true, false, 0),
        lay_entry("a", true, false, 0),
        lay_entry("z", false, false, 0),
    ];
    let lines = format_short(entries, &Config::default());
    let texts: Vec<String> = lines.iter().map(text).collect();
    assert_eq!(
        texts,
        vec![
            format!("{} a  {} z", DIR_ICON, FILE_ICON),
            format!("{} b", DIR_ICON),
        ]
    );
}

#[test]
fn short_grouping_keeps_every_directory_left_of_every_file() {
    let entries = vec![
        lay_entry("file1", false, false, 0),
        lay_entry("dir1", true, false, 0),
        lay_entry("file2", false, false, 0),
        lay_entry("dir2", true, false, 0),
    ];
    let lines = format_short(entries, &Config::default());
    for l in &lines {
        let t = text(l);
        if let (Some(d), Some(f)) = (t.find(DIR_ICON), t.find(FILE_ICON)) {
            assert!(d < f);
        }
    }
}

#[test]
fn short_widths_follow_display_width_not_length() {
    // The wide-glyph name occupies four columns with two characters; the
    // narrow name needs two columns of padding to match.
    let entries = vec![
        lay_entry("\u{65e5}\u{65e5}", true, false, 0),
        lay_entry("aa", true, false, 0),
        lay_entry("x", false, false, 0),
        lay_entry("y", false, false, 0),
    ];
    let lines = format_short(entries, &Config::default());
    assert_eq!(lines.len(), 2);
    let t0 = text(&lines[0]);
    let t1 = text(&lines[1]);
    let head0 = &t0[..t0.find(FILE_ICON).unwrap()];
    let head1 = &t1[..t1.find(FILE_ICON).unwrap()];
    assert_eq!(
        UnicodeWidthStr::width(head0),
        UnicodeWidthStr::width(head1)
    );
}

#[test]
fn short_with_row_cap_fills_columns_top_to_bottom() {
    // Five entries under a cap of two rows need ceil(5/2) = 3 columns; the
    // last column's second row stays empty.
    let entries = vec![
        lay_entry("f1", false, false, 0),
        lay_entry("f2", false, false, 0),
        lay_entry("f3", false, false, 0),
        lay_entry("f4", false, false, 0),
        lay_entry("f5", false, false, 0),
    ];
    let mut config = Config::default();
    config.display.max_rows = 2;
    let lines = format_short(entries, &config);
    let texts: Vec<String> = lines.iter().map(text).collect();
    assert_eq!(
        texts,
        vec![
            format!("{i} f1  {i} f3  {i} f5", i = FILE_ICON),
            format!("{i} f2  {i} f4", i = FILE_ICON),
        ]
    );
}

#[test]
fn long_renders_the_canonical_field_order() {
    let entries = vec![lay_entry("a.txt", false, false, 5)];
    let lines = format_long(entries, &Config::default());
    assert_eq!(lines.len(), 1);
    assert_eq!(
        text(&lines[0]),
        format!(
            "a.txt  {}  5B  1970-01-01 00:00:00  user  user  1  -rw-r--r--",
            FILE_ICON
        )
    );
}

#[test]
fn long_right_aligns_sizes() {
    let entries = vec![
        lay_entry("small", false, false, 5),
        lay_entry("large", false, false, 1024),
    ];
    let lines = format_long(entries, &Config::default());
    let texts: Vec<String> = lines.iter().map(text).collect();
    // "large" sorts first; its size "1.0K" sets a four-column width, so
    // "5B" gains two blanks of left padding.
    assert!(texts[0].contains("  1.0K  "));
    assert!(texts[1].contains("    5B  "));
}

#[test]
fn long_groups_types_before_sorting_names() {
    let entries = vec![
        lay_entry("zz-dir", true, false, 0),
        lay_entry("aa-file", false, false, 0),
    ];
    let lines = format_long(entries, &Config::default());
    let texts: Vec<String> = lines.iter().map(text).collect();
    assert!(texts[0].starts_with("zz-dir"));
    assert!(texts[1].starts_with("aa-file"));
}

#[test]
fn formatter_short_keeps_incoming_order_within_groups() {
    let entries = vec![
        lay_entry("zeta", true, false, 0),
        lay_entry("alpha", true, false, 0),
    ];
    let lines = Formatter::format_short(entries);
    let texts: Vec<String> = lines.iter().map(text).collect();
    assert_eq!(
        texts,
        vec![
            format!("{} zeta", DIR_ICON),
            format!("{} alpha", DIR_ICON),
        ]
    );
}

#[test]
fn theme_colors_reach_the_segments() {
    let entries = vec![
        lay_entry("d", true, false, 0),
        lay_entry("x", false, true, 0),
        lay_entry("f", false, false, 0),
    ];
    let lines = format_one_per_line(entries, &Config::default());
    // Default label palette: directories blue, executables green, regular
    // files white; icons follow the same default palette.
    assert_eq!(lines[0].segs.last().unwrap().color, Some(lx::Color::Blue));
    assert_eq!(lines[1].segs.last().unwrap().color, Some(lx::Color::Green));
    assert_eq!(lines[2].segs.last().unwrap().color, Some(lx::Color::White));
    assert_eq!(lines[0].segs[0].color, Some(lx::Color::Blue));
}

#[test]
fn configured_icons_and_colors_override_defaults() {
    let mut config = Config::default();
    config.icons.directory = "D".to_string();
    config.colors.directory = "RED".to_string();
    let entries = vec![lay_entry("docs", true, false, 0)];
    let lines = format_one_per_line(entries, &config);
    assert_eq!(lines[0].segs[0].text, "D");
    assert_eq!(lines[0].segs.last().unwrap().color, Some(lx::Color::Red));
}

#[test]
fn unknown_color_name_falls_back_to_white() {
    let mut config = Config::default();
    config.colors.directory = "turquoise-ish".to_string();
    let entries = vec![lay_entry("docs", true, false, 0)];
    let lines = format_one_per_line(entries, &config);
    assert_eq!(lines[0].segs.last().unwrap().color, Some(lx::Color::White));
}

#[test]
fn default_config_values() {
    let c = Config::default();
    assert_eq!(c.display.column_spacing, 2);
    assert_eq!(c.display.max_rows, 0);
    assert_eq!(c.colors.directory, "blue");
    assert_eq!(c.colors.executable, "green");
    assert_eq!(c.colors.regular, "white");
}
