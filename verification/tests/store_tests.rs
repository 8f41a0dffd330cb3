use stratonotes::digits::u64_to_string;
use stratonotes::errors::StoreError;
use stratonotes::settings::PathSettings;
use stratonotes::store::is_md_name;
use stratonotes::store::FileEntry;
use stratonotes::store::NoteStore;
use stratonotes::text::extract_title;

fn entry(path: &str, content: &str) -> FileEntry {
    FileEntry {
        path: path.to_string(),
        content: Some(content.to_string()),
        created: Some(100),
        updated: Some(200),
    }
}

fn store(entries: Vec<FileEntry>) -> NoteStore {
    NoteStore::from_entries("/n".to_string(), true, entries).unwrap()
}

#[test]
fn list_returns_only_markdown_files() {
    let s = store(vec![
        entry("/n/a.md", "# A"),
        entry("/n/b.txt", "plain"),
        entry("/n/c.MD", "# C"),
        entry("/n/noext", "bare"),
    ]);
    let notes = s.fetch_notes().unwrap();
    assert_eq!(notes.len(), 2);
    assert_eq!(notes[0].path, "/n/a.md");
    assert_eq!(notes[1].path, "/n/c.MD");
    assert_eq!(notes[0].created, 100);
    assert_eq!(notes[0].updated, 200);
}

#[test]
fn list_fails_when_not_a_directory() {
    let s = NoteStore::from_entries("/n".to_string(), false, vec![]).unwrap();
    assert_eq!(s.fetch_notes().unwrap_err(), StoreError::NotADirectory);
}

#[test]
fn list_fails_when_markdown_metadata_is_missing() {
    let mut e = entry("/n/a.md", "# A");
    e.created = None;
    let s = store(vec![e]);
    assert_eq!(s.fetch_notes().unwrap_err(), StoreError::IoError);
}

#[test]
fn list_ignores_missing_metadata_of_non_markdown_files() {
    let mut e = entry("/n/b.txt", "plain");
    e.updated = None;
    let s = store(vec![entry("/n/a.md", "# A"), e]);
    assert_eq!(s.fetch_notes().unwrap().len(), 1);
}

#[test]
fn title_is_first_heading_after_blank_lines() {
    assert_eq!(extract_title("\n\n# Hello\nbody"), Some("Hello".to_string()));
}

#[test]
fn title_is_absent_without_heading() {
    assert_eq!(extract_title("plain text\nmore text"), None);
    assert_eq!(extract_title(""), None);
}

#[test]
fn title_takes_only_the_first_of_two_headings() {
    assert_eq!(
        extract_title("# First\n# Second"),
        Some("First".to_string())
    );
}

#[test]
fn title_line_is_trimmed_before_the_heading_test() {
    assert_eq!(extract_title("  # Hi  \r\nrest"), Some("Hi".to_string()));
    assert_eq!(extract_title("text\n\t# Later one\n# No"), Some("Later one".to_string()));
}

#[test]
fn title_appears_in_the_catalog() {
    let s = store(vec![entry("/n/a.md", "\n# A note\ntext"), entry("/n/b.md", "no heading")]);
    let notes = s.fetch_notes().unwrap();
    assert_eq!(notes[0].title, Some("A note".to_string()));
    assert_eq!(notes[1].title, None);
}

#[test]
fn create_uses_the_plain_name_when_free() {
    let mut s = store(vec![]);
    let path = s.create_note("note", None).unwrap();
    assert!(path.ends_with("note.md"));
    assert_eq!(path, "/n/note.md");
    assert_eq!(s.open_note(&path).unwrap(), "# note");
}

#[test]
fn create_probes_past_taken_names() {
    let mut s = store(vec![entry("/n/note.md", "x"), entry("/n/note-1.md", "y")]);
    let path = s.create_note("note", None).unwrap();
    assert_eq!(path, "/n/note-2.md");
}

#[test]
fn repeated_creates_probe_one_past_the_other() {
    let mut s = store(vec![]);
    assert_eq!(s.create_note("note", None).unwrap(), "/n/note.md");
    assert_eq!(s.create_note("note", None).unwrap(), "/n/note-1.md");
    assert_eq!(s.create_note("note", None).unwrap(), "/n/note-2.md");
    assert_eq!(s.fetch_notes().unwrap().len(), 3);
}

#[test]
fn create_reuses_a_gap_left_by_deletion() {
    let mut s = store(vec![entry("/n/note.md", "x"), entry("/n/note-1.md", "y")]);
    s.delete_note("/n/note-1.md").unwrap();
    assert_eq!(s.create_note("note", None).unwrap(), "/n/note-1.md");
}

#[test]
fn create_synthesizes_heading_and_body() {
    let mut s = store(vec![]);
    let path = s.create_note("plan", Some("the body")).unwrap();
    assert_eq!(s.open_note(&path).unwrap(), "# plan\n\nthe body");
}

#[test]
fn create_fails_when_not_a_directory() {
    let mut s = NoteStore::from_entries("/n".to_string(), false, vec![]).unwrap();
    assert_eq!(s.create_note("note", None).unwrap_err(), StoreError::NotADirectory);
}

#[test]
fn save_on_missing_path_fails_and_writes_nothing() {
    let mut s = store(vec![entry("/n/a.md", "# A")]);
    let r = s.save_note("/n/ghost.md", "new content");
    assert_eq!(r.unwrap_err(), StoreError::NotFound);
    assert_eq!(s.open_note("/n/ghost.md").unwrap_err(), StoreError::NotFound);
    assert_eq!(s.open_note("/n/a.md").unwrap(), "# A");
}

#[test]
fn save_replaces_content_fully() {
    let mut s = store(vec![entry("/n/a.md", "# A")]);
    s.save_note("/n/a.md", "replaced").unwrap();
    assert_eq!(s.open_note("/n/a.md").unwrap(), "replaced");
}

#[test]
fn delete_then_open_fails_with_not_found() {
    let mut s = store(vec![entry("/n/a.md", "# A"), entry("/n/b.md", "# B")]);
    s.delete_note("/n/a.md").unwrap();
    assert_eq!(s.open_note("/n/a.md").unwrap_err(), StoreError::NotFound);
    assert_eq!(s.fetch_notes().unwrap().len(), 1);
}

#[test]
fn delete_of_missing_path_fails_with_not_found() {
    let mut s = store(vec![]);
    assert_eq!(s.delete_note("/n/a.md").unwrap_err(), StoreError::NotFound);
}

#[test]
fn open_fails_with_io_error_on_unreadable_content() {
    let mut e = entry("/n/a.md", "");
    e.content = None;
    let s = store(vec![e]);
    assert_eq!(s.open_note("/n/a.md").unwrap_err(), StoreError::IoError);
}

#[test]
fn snapshot_refuses_duplicate_paths() {
    let r = NoteStore::from_entries(
        "/n".to_string(),
        true,
        vec![entry("/n/a.md", "x"), entry("/n/a.md", "y")],
    );
    assert!(r.is_none());
}

#[test]
fn snapshot_refuses_files_under_a_non_directory() {
    let r = NoteStore::from_entries("/n".to_string(), false, vec![entry("/n/a.md", "x")]);
    assert!(r.is_none());
}

#[test]
fn markdown_names_are_recognized_case_insensitively() {
    assert!(is_md_name("/n/a.md"));
    assert!(is_md_name("/n/a.MD"));
    assert!(is_md_name("/n/a.Md"));
    assert!(!is_md_name("/n/a.txt"));
    assert!(!is_md_name("/n/.md"));
    assert!(!is_md_name("/n/amd"));
    assert!(!is_md_name(".md"));
    assert!(is_md_name("/n/b.tar.md"));
}

#[test]
fn decimal_rendering_is_exact() {
    assert_eq!(u64_to_string(0), "0");
    assert_eq!(u64_to_string(7), "7");
    assert_eq!(u64_to_string(1234567890), "1234567890");
    assert_eq!(u64_to_string(u64::MAX), "18446744073709551615");
}

#[test]
fn error_messages_name_each_failure() {
    assert_eq!(
        StoreError::NotADirectory.message(),
        "the configured notes path is not a directory"
    );
    assert_eq!(StoreError::NotFound.message(), "the target path does not exist");
    assert_eq!(StoreError::IoError.message(), "a filesystem operation failed");
    assert_eq!(
        StoreError::Unavailable.message(),
        "the summarization backend is unavailable"
    );
    assert_eq!(StoreError::NotDueToday.message(), "no digest is due today");
}

#[test]
fn settings_resolve_under_the_home_directory() {
    let s = PathSettings::new("/home/me");
    assert_eq!(s.root, "/home/me/.stratonotes");
    assert_eq!(s.journal, "/home/me/.stratonotes/journal");
    assert_eq!(s.notes, "/home/me/.stratonotes/notes");
    assert!(s.exists_all(true, true, true));
    assert!(!s.exists_all(true, false, true));
}
