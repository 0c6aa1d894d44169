use chrono::Local;
use kno::resolve::{resolve, resolve_note, ResolvedNote};
use kno::store::{appended_line, blank, new_note_contents, NoteFile, StoreError};

// Opens the note that `path` means in `file`, as the program does with the
// file it finds at the note's place.
fn open_note(file: &mut NoteFile, path: Option<&str>) -> ResolvedNote {
    let note = resolve_note(path);
    file.ensure(&note.heading);
    note
}

#[test]
fn test_daily_note_creates_dirs_and_file() {
    let mut file = NoteFile::missing();
    let note = open_note(&mut file, None);

    assert!(note.relative_path.starts_with("daily/"));
    let content = file.text().unwrap();
    assert!(content.starts_with("# 2"));
    assert!(content.ends_with("\n\n"));
}

#[test]
fn test_nested_note_creates_dirs() {
    let mut file = NoteFile::missing();
    let note = open_note(&mut file, Some("sql/joins"));

    assert_eq!(note.relative_path, "sql/joins.md");
    assert_eq!(file.text(), Some("# Joins\n\n"));
}

#[test]
fn test_existing_file_not_overwritten() {
    let mut file = NoteFile::missing();

    open_note(&mut file, Some("foo"));
    file = NoteFile::holding("# Foo\n\nMy notes here\n".to_string());

    open_note(&mut file, Some("foo"));
    assert_eq!(file.text(), Some("# Foo\n\nMy notes here\n"));
}

#[test]
fn test_trailing_slash_creates_dir_and_dated_note() {
    let mut file = NoteFile::missing();
    let today = Local::now().format("%Y-%m-%d").to_string();
    let note = open_note(&mut file, Some("my-dir/"));

    assert_eq!(note.relative_path, format!("my-dir/{today}.md"));
    assert_eq!(file, NoteFile::holding(format!("# {today}\n\n")));
}

#[test]
fn test_empty_file_gets_header() {
    let mut file = NoteFile::holding(String::new());

    open_note(&mut file, Some("foo"));

    assert_eq!(file.text(), Some("# Foo\n\n"));
}

#[test]
fn test_append_to_note() {
    let mut file = NoteFile::missing();
    open_note(&mut file, Some("foo"));

    file.append("first line").unwrap();
    file.append("second line").unwrap();

    assert_eq!(file.text(), Some("# Foo\n\nfirst line\nsecond line\n"));
}

#[test]
fn test_append_to_daily_note() {
    let mut file = NoteFile::missing();
    open_note(&mut file, None);

    file.append("quick thought").unwrap();

    assert!(file.text().unwrap().ends_with("quick thought\n"));
}

#[test]
fn test_append_creates_note_if_new() {
    let mut file = NoteFile::missing();
    open_note(&mut file, Some("new-note"));

    file.append("first entry").unwrap();

    assert_eq!(file.text(), Some("# New Note\n\nfirst entry\n"));
}

#[test]
fn test_append_text_starting_with_hyphen() {
    let mut file = NoteFile::missing();
    open_note(&mut file, Some("foo"));

    file.append("- my note").unwrap();

    assert_eq!(file.text(), Some("# Foo\n\n- my note\n"));
}

#[test]
fn new_note_is_written_and_an_old_one_is_not() {
    let mut file = NoteFile::missing();
    assert!(file.needs_heading());
    assert!(file.ensure("# Joins"));
    assert_eq!(file, NoteFile::holding("# Joins\n\n".to_string()));
    assert!(!file.needs_heading());
    assert!(!file.ensure("# Other"));
    assert_eq!(file, NoteFile::holding("# Joins\n\n".to_string()));
}

#[test]
fn daily_note_gets_the_date_as_heading() {
    let mut file = NoteFile::missing();
    let note = resolve(None, "2026-02-15");
    assert!(file.ensure(&note.heading));
    assert_eq!(file.text(), Some("# 2026-02-15\n\n"));
}

fn files() -> Vec<NoteFile> {
    let mut files = vec![NoteFile::missing(), NoteFile::unreadable()];
    for text in ["", " \n", "# Foo\n\n", "text"] {
        files.push(NoteFile::holding(text.to_string()));
    }
    files
}

#[test]
fn opening_twice_changes_nothing_the_second_time() {
    for heading in ["# Foo", "", " "] {
        for mut file in files() {
            file.ensure(heading);
            let first = file.text().map(|text| text.to_string());
            let unreadable = file == NoteFile::unreadable();
            file.ensure(heading);
            assert_eq!(file.text().map(|text| text.to_string()), first);
            assert_eq!(file == NoteFile::unreadable(), unreadable);
        }
    }
}

#[test]
fn unreadable_file_is_left_alone() {
    let mut file = NoteFile::unreadable();
    assert!(!file.needs_heading());
    assert!(!file.ensure("# Foo"));
    assert_eq!(file, NoteFile::Unreadable);
    assert_eq!(file.text(), None);
    assert_eq!(file.append("more"), Ok(()));
    assert_eq!(file, NoteFile::Unreadable);
}

#[test]
fn whitespace_only_file_gets_header() {
    let mut blank_file = NoteFile::holding(" \n\t\r\n\u{a0}\u{3000} ".to_string());
    let mut missing = NoteFile::missing();
    assert!(blank_file.needs_heading());
    assert!(blank_file.ensure("# Foo"));
    assert!(missing.ensure("# Foo"));
    assert_eq!(blank_file, missing);
    assert_eq!(blank_file.text(), Some("# Foo\n\n"));
}

#[test]
fn blank_knows_unicode_white_space() {
    assert!(blank(""));
    assert!(blank(
        " \t\n\u{b}\u{c}\r\u{85}\u{a0}\u{1680}\u{2000}\u{200a}\u{2028}\u{2029}\u{202f}\u{205f}\u{3000}"
    ));
    assert!(!blank("#"));
    assert!(!blank("   x   "));
    assert!(!blank("\u{200b}"));
    assert!(!blank(" \n越"));
}

#[test]
fn new_note_contents_is_heading_and_two_line_feeds() {
    assert_eq!(new_note_contents("# Foo"), "# Foo\n\n");
    assert_eq!(new_note_contents(""), "\n\n");
}

#[test]
fn append_needs_a_file() {
    let mut file = NoteFile::missing();
    assert_eq!(file.append("lost"), Err(StoreError::Missing));
    assert_eq!(file, NoteFile::missing());
}

#[test]
fn appended_line_ends_in_a_line_feed() {
    assert_eq!(appended_line("first line"), "first line\n");
    assert_eq!(appended_line(""), "\n");
}
