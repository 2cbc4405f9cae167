use lx::Config;
use lx::FileEntry;
use lx::Line;
use lx::TreeNode;
use lx::format_recursive;

fn rec_entry(name: &str, is_dir: bool) -> FileEntry {
    FileEntry {
        name: name.to_string(),
        is_dir,
        is_executable: false,
        mode: if is_dir { 0o755 } else { 0o644 },
        size: 1,
        modified: Some(0),
        owner: "user".to_string(),
        group: "user".to_string(),
        nlink: 1,
    }
}

fn leaf(name: &str) -> TreeNode {
    TreeNode { entry: rec_entry(name, false), children: Vec::new() }
}

fn dir(name: &str, children: Vec<TreeNode>) -> TreeNode {
    TreeNode { entry: rec_entry(name, true), children }
}

fn text(l: &Line) -> String {
    let mut s = String::new();
    for seg in &l.segs {
        s.push_str(&seg.text);
    }
    s
}

const DIR_ICON: &str = "\u{f114}";
const FILE_ICON: &str = "\u{f4a5}";

#[test]
fn tree_style_draws_connectors_depth_first() {
    let root = dir("root", vec![leaf("zz"), dir("sub", vec![leaf("x")])]);
    let lines = format_recursive(root, &Config::default(), false, false);
    let texts: Vec<String> = lines.iter().map(text).collect();
    assert_eq!(
        texts,
        vec![
            format!("{} root", DIR_ICON),
            format!("\u{251c}\u{2500}\u{2500}{} sub", DIR_ICON),
            format!("\u{2502}   \u{2514}\u{2500}\u{2500}{} x", FILE_ICON),
            format!("\u{2514}\u{2500}\u{2500}{} zz", FILE_ICON),
        ]
    );
}

#[test]
fn tree_indent_style_uses_plain_indentation() {
    let root = dir("root", vec![dir("sub", vec![leaf("x")])]);
    let mut config = Config::default();
    config.display.tree_style = "indent".to_string();
    let lines = format_recursive(root, &config, false, false);
    let texts: Vec<String> = lines.iter().map(text).collect();
    assert_eq!(
        texts,
        vec![
            format!("{} root", DIR_ICON),
            format!("{} sub", DIR_ICON),
            format!("  {} x", FILE_ICON),
        ]
    );
}

#[test]
fn tree_skips_hidden_entries_unless_shown() {
    let root = dir("root", vec![leaf(".hidden"), leaf("plain")]);
    let lines = format_recursive(root, &Config::default(), false, false);
    assert_eq!(lines.len(), 2);
    let root2 = dir("root", vec![leaf(".hidden"), leaf("plain")]);
    let lines2 = format_recursive(root2, &Config::default(), true, false);
    assert_eq!(lines2.len(), 3);
    assert!(text(&lines2[1]).contains(".hidden"));
}

#[test]
fn tree_orders_siblings_by_raw_name() {
    let root = dir("root", vec![leaf("b"), leaf("A"), leaf("a")]);
    let lines = format_recursive(root, &Config::default(), false, false);
    let texts: Vec<String> = lines.iter().map(text).collect();
    // Raw scalar order: 'A' before 'a' before 'b'.
    assert!(texts[1].ends_with(" A"));
    assert!(texts[2].ends_with(" a"));
    assert!(texts[3].ends_with(" b"));
}

#[test]
fn nested_long_interleaves_a_subtree_after_its_row() {
    let root = dir("root", vec![leaf("a"), dir("d", vec![leaf("c")])]);
    let lines = format_recursive(root, &Config::default(), false, true);
    let texts: Vec<String> = lines.iter().map(text).collect();
    assert_eq!(texts.len(), 4);
    assert!(texts[0].ends_with(" root"));
    assert!(texts[1].starts_with("a"));
    assert!(texts[2].starts_with("d"));
    // The subdirectory's table follows its own row at once, one step deeper.
    assert!(texts[3].starts_with("    c"));
}

#[test]
fn header_long_prints_the_whole_parent_table_first() {
    let root = dir("root", vec![leaf("a.txt"), dir("sub", vec![leaf("b.txt")])]);
    let mut config = Config::default();
    config.display.recursive_style = "header".to_string();
    let lines = format_recursive(root, &config, false, true);
    let texts: Vec<String> = lines.iter().map(text).collect();
    // Two parent rows, then a blank separator, the child's path header, and
    // only then the child's table: nothing of the child interleaves.
    assert_eq!(texts.len(), 5);
    assert!(texts[0].starts_with("a.txt"));
    assert!(texts[1].starts_with("sub"));
    assert_eq!(texts[2], "");
    assert_eq!(texts[3], "root/sub:");
    assert!(texts[4].starts_with("b.txt"));
}

#[test]
fn header_long_recurses_in_sibling_order() {
    let root = dir(
        "root",
        vec![dir("beta", vec![leaf("y")]), dir("alpha", vec![leaf("x")])],
    );
    let mut config = Config::default();
    config.display.recursive_style = "header".to_string();
    let lines = format_recursive(root, &config, false, true);
    let texts: Vec<String> = lines.iter().map(text).collect();
    let alpha_at = texts.iter().position(|t| t == "root/alpha:").unwrap();
    let beta_at = texts.iter().position(|t| t == "root/beta:").unwrap();
    assert!(alpha_at < beta_at);
}

#[test]
fn unreadable_directory_contributes_no_output_below_its_row() {
    // A directory handed over with no children — for instance one that
    // could not be read — shows only its own line.
    let root = dir("root", vec![dir("locked", Vec::new()), leaf("ok")]);
    let lines = format_recursive(root, &Config::default(), false, false);
    assert_eq!(lines.len(), 3);
}
