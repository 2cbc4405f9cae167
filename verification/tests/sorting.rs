use lx::FileEntry;
use lx::SortField;
use lx::sort_default;
use lx::sort_entries;

fn sort_entry(name: &str, is_dir: bool, is_exec: bool, size: u64, modified: Option<u64>) -> FileEntry {
    FileEntry {
        name: name.to_string(),
        is_dir,
        is_executable: is_exec,
        mode: 0o644,
        size,
        modified,
        owner: "user".to_string(),
        group: "user".to_string(),
        nlink: 1,
    }
}

fn names(v: &Vec<FileEntry>) -> Vec<String> {
    v.iter().map(|e| e.name.clone()).collect()
}

#[test]
fn default_sort_is_case_insensitive() {
    let mut v = vec![
        sort_entry("B.txt", false, false, 0, Some(0)),
        sort_entry("a.txt", false, false, 0, Some(0)),
    ];
    sort_default(&mut v);
    assert_eq!(names(&v), vec!["a.txt", "B.txt"]);
}

#[test]
fn default_sort_is_idempotent() {
    let mut v = vec![
        sort_entry("B.txt", false, false, 0, Some(0)),
        sort_entry("a.txt", false, false, 0, Some(0)),
        sort_entry("c", true, false, 0, Some(0)),
        sort_entry("A.txt", false, true, 0, Some(0)),
    ];
    sort_default(&mut v);
    let once = names(&v);
    sort_default(&mut v);
    assert_eq!(names(&v), once);
}

#[test]
fn explicit_name_sort_is_case_sensitive() {
    let mut v = vec![
        sort_entry("b.txt", false, false, 0, Some(0)),
        sort_entry("A.txt", false, false, 0, Some(0)),
    ];
    sort_entries(&mut v, SortField::Name);
    assert_eq!(names(&v), vec!["A.txt", "b.txt"]);
}

#[test]
fn size_sort_is_descending_within_group() {
    let mut v = vec![
        sort_entry("ten", false, false, 10, Some(0)),
        sort_entry("thousand", false, false, 1000, Some(0)),
        sort_entry("hundred", false, false, 100, Some(0)),
    ];
    sort_entries(&mut v, SortField::Size);
    assert_eq!(names(&v), vec!["thousand", "hundred", "ten"]);
}

#[test]
fn size_sort_keeps_type_groups_apart() {
    let mut v = vec![
        sort_entry("small-file", false, false, 1, Some(0)),
        sort_entry("big-dir", true, false, 999, Some(0)),
        sort_entry("big-exec", false, true, 500, Some(0)),
    ];
    sort_entries(&mut v, SortField::Size);
    assert_eq!(names(&v), vec!["big-dir", "big-exec", "small-file"]);
}

#[test]
fn date_sort_is_newest_first_with_name_ties() {
    let mut v = vec![
        sort_entry("old", false, false, 0, Some(100)),
        sort_entry("new", false, false, 0, Some(300)),
        sort_entry("tie-b", false, false, 0, Some(200)),
        sort_entry("tie-a", false, false, 0, Some(200)),
        sort_entry("unknown", false, false, 0, None),
    ];
    sort_entries(&mut v, SortField::Date);
    assert_eq!(names(&v), vec!["new", "tie-a", "tie-b", "old", "unknown"]);
}

#[test]
fn type_sort_groups_then_names() {
    let mut v = vec![
        sort_entry("zeta", false, false, 0, Some(0)),
        sort_entry("beta", true, false, 0, Some(0)),
        sort_entry("alpha", false, true, 0, Some(0)),
        sort_entry("delta", true, false, 0, Some(0)),
    ];
    sort_entries(&mut v, SortField::Type);
    assert_eq!(names(&v), vec!["beta", "delta", "alpha", "zeta"]);
}

#[test]
fn stable_on_equal_keys() {
    let mut v = vec![
        sort_entry("first", false, false, 7, Some(0)),
        sort_entry("second", false, false, 7, Some(0)),
        sort_entry("third", false, false, 7, Some(0)),
    ];
    sort_entries(&mut v, SortField::Size);
    assert_eq!(names(&v), vec!["first", "second", "third"]);
}

#[test]
fn sort_field_from_string_folds_case() {
    assert_eq!(SortField::from_string("SIZE"), SortField::Size);
    assert_eq!(SortField::from_string("Date"), SortField::Date);
    assert_eq!(SortField::from_string("type"), SortField::Type);
    assert_eq!(SortField::from_string("name"), SortField::Name);
    assert_eq!(SortField::from_string("anything-else"), SortField::Name);
}
