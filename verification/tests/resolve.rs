use chrono::Local;
use kno::resolve::{is_date, resolve, resolve_note, ResolvedNote};
use std::path::PathBuf;

#[test]
fn test_resolve_daily_note() {
    let ResolvedNote { relative_path: path, heading: header } = resolve_note(None);
    let today = Local::now().format("%Y-%m-%d").to_string();
    let parts: Vec<&str> = today.splitn(2, '-').collect();
    let expected_path = PathBuf::from("daily")
        .join(parts[0])
        .join(format!("{}.md", parts[1]));
    assert_eq!(PathBuf::from(path), expected_path);
    assert_eq!(header, format!("# {today}"));
}

#[test]
fn test_resolve_simple_note() {
    let ResolvedNote { relative_path: path, heading: header } = resolve_note(Some("foo"));
    assert_eq!(PathBuf::from(path), PathBuf::from("foo.md"));
    assert_eq!(header, "# Foo");
}

#[test]
fn test_resolve_nested_note() {
    let ResolvedNote { relative_path: path, heading: header } = resolve_note(Some("sql/joins"));
    assert_eq!(PathBuf::from(path), PathBuf::from("sql/joins.md"));
    assert_eq!(header, "# Joins");
}

#[test]
fn test_resolve_hyphenated_name() {
    let ResolvedNote { relative_path: path, heading: header } =
        resolve_note(Some("my-project/design-decisions"));
    assert_eq!(PathBuf::from(path), PathBuf::from("my-project/design-decisions.md"));
    assert_eq!(header, "# Design Decisions");
}

#[test]
fn test_resolve_trailing_slash_uses_date() {
    let today = Local::now().format("%Y-%m-%d").to_string();
    let ResolvedNote { relative_path: path, heading: header } = resolve_note(Some("my-dir/"));
    assert_eq!(PathBuf::from(path), PathBuf::from(format!("my-dir/{today}.md")));
    assert_eq!(header, format!("# {today}"));
}

#[test]
fn test_resolve_nested_trailing_slash() {
    let today = Local::now().format("%Y-%m-%d").to_string();
    let ResolvedNote { relative_path: path, heading: header } =
        resolve_note(Some("projects/myproject/"));
    assert_eq!(
        PathBuf::from(path),
        PathBuf::from(format!("projects/myproject/{today}.md"))
    );
    assert_eq!(header, format!("# {today}"));
}

#[test]
fn resolve_daily_note_on_a_given_day() {
    let note = resolve(None, "2026-02-15");
    assert_eq!(note.relative_path, "daily/2026/02-15.md");
    assert_eq!(note.heading, "# 2026-02-15");
}

#[test]
fn resolve_daily_note_splits_at_the_first_hyphen() {
    let note = resolve(None, "+12026-02-15");
    assert_eq!(note.relative_path, "daily/+12026/02-15.md");
    assert_eq!(note.heading, "# +12026-02-15");
}

#[test]
fn resolve_directory_on_a_given_day() {
    let note = resolve(Some("my-dir/"), "2026-02-15");
    assert_eq!(note.relative_path, "my-dir/2026-02-15.md");
    assert_eq!(note.heading, "# 2026-02-15");
    let note = resolve(Some("a/b/"), "2026-02-15");
    assert_eq!(note.relative_path, "a/b/2026-02-15.md");
    assert_eq!(note.heading, "# 2026-02-15");
    let note = resolve(Some("/"), "2026-02-15");
    assert_eq!(note.relative_path, "/2026-02-15.md");
}

#[test]
fn resolve_named_note_ignores_the_day() {
    let one = resolve(Some("sql/joins"), "2026-02-15");
    let other = resolve(Some("sql/joins"), "1999-12-31");
    assert_eq!(one, other);
    assert_eq!(one.relative_path, "sql/joins.md");
    assert_eq!(one.heading, "# Joins");
}

#[test]
fn resolve_takes_the_heading_from_the_last_segment() {
    let note = resolve(Some("a/b"), "2026-02-15");
    assert_eq!(note.relative_path, "a/b.md");
    assert_eq!(note.heading, "# B");
    let note = resolve(Some("my_area/to-do_list"), "2026-02-15");
    assert_eq!(note.relative_path, "my_area/to-do_list.md");
    assert_eq!(note.heading, "# To Do List");
    let note = resolve(Some("../up"), "2026-02-15");
    assert_eq!(note.relative_path, "../up.md");
    assert_eq!(note.heading, "# Up");
    let note = resolve(Some("a.b"), "2026-02-15");
    assert_eq!(note.relative_path, "a.b.md");
    assert_eq!(note.heading, "# A.b");
}

#[test]
fn resolve_empty_name_has_an_empty_heading() {
    let note = resolve(Some(""), "2026-02-15");
    assert_eq!(note.relative_path, ".md");
    assert_eq!(note.heading, "# ");
}

#[test]
fn resolve_agrees_with_the_stem_of_the_path() {
    for name in ["foo", "sql/joins", "a/b/c.d", ".hidden", "x/.y", "a//b", "a/b.", "..", "a/..", "é/ü"] {
        let note = resolve(Some(name), "2026-02-15");
        let stem = PathBuf::from(&note.relative_path)
            .file_stem()
            .unwrap()
            .to_string_lossy()
            .to_string();
        assert_eq!(note.heading, format!("# {}", kno::title::titlecase(&stem)), "{name}");
    }
}

#[test]
fn is_date_knows_how_dates_are_written() {
    for text in ["2026-02-15", "0001-01-01", "9999-12-31", "+12026-02-15", "12345-00-99"] {
        assert!(is_date(text), "{text}");
    }
    for text in [
        "",
        "2026",
        "2026-2-15",
        "2026-02-1",
        "226-02-15",
        "2026/02/15",
        "2026-02-15 ",
        "-2026-02-15",
        "20-26-02-15",
        "2026-0a-15",
        "2026-02-1٣",
        "2026-02--5",
        "../x-01-01",
        "ab/c-01-01",
        "20a6-02-15",
        "+123-01-01",
        "+-026-02-15",
        "2+026-02-15",
        "++2026-02-15",
    ] {
        assert!(!is_date(text), "{text}");
    }
}

#[test]
fn is_date_holds_of_the_date_of_today() {
    assert!(is_date(&Local::now().format("%Y-%m-%d").to_string()));
}

#[test]
fn resolve_adds_no_way_up() {
    let has_parent = |path: &str| path.split('/').any(|segment| segment == "..");
    for today in ["2026-02-15", "+12026-02-15"] {
        assert!(!has_parent(&resolve(None, today).relative_path));
        for name in ["", ".", "a/.", "./", "...", "a..", "..a", "a/..b/", "sql/joins", "x/"] {
            assert!(!has_parent(name));
            assert!(!has_parent(&resolve(Some(name), today).relative_path), "{name}");
        }
    }
    assert!(has_parent(&resolve(Some("../up"), "2026-02-15").relative_path));
}
