use stratonotes::clock::LocalStamp;
use stratonotes::digest::digest_preamble;
use stratonotes::digest::format_date;
use stratonotes::errors::StoreError;
use stratonotes::store::FileEntry;
use stratonotes::store::NoteStore;

// 2001-09-08 was a Saturday; the instant is noon UTC that day.
const SATURDAY_NOON: i64 = 999950400;

const DAY: i64 = 86400;

fn saturday() -> LocalStamp {
    LocalStamp { secs: SATURDAY_NOON, year: 2001, month: 9, day: 8, weekday: 5 }
}

fn note(path: &str, body: &str, created: i64) -> FileEntry {
    FileEntry {
        path: path.to_string(),
        content: Some(body.to_string()),
        created: Some(created),
        updated: Some(created),
    }
}

fn store(entries: Vec<FileEntry>) -> NoteStore {
    NoteStore::from_entries("/n".to_string(), true, entries).unwrap()
}

#[test]
fn digest_aggregates_the_trailing_week_and_is_once_per_day() {
    let mut s = store(vec![
        note("/n/old.md", "A", SATURDAY_NOON - 8 * DAY),
        note("/n/mid.md", "B", SATURDAY_NOON - 5 * DAY),
        note("/n/new.md", "C", SATURDAY_NOON - 2 * DAY),
    ]);
    let today = saturday();

    let plan = s.plan_digest_at(&today).unwrap();
    assert_eq!(plan.date, "2001-09-08");
    assert_eq!(plan.path, "/n/2001-09-08.md");
    assert_eq!(plan.body, "B\n\nC");

    // A stub backend answers "X"; the digest note is persisted.
    let written = s.apply_digest(&plan, "X").unwrap();
    assert_eq!(written, "# Summary 2001-09-08\n\nX");
    assert_eq!(s.open_note("/n/2001-09-08.md").unwrap(), written);

    // Re-invoking immediately afterwards finds the digest note present.
    assert_eq!(s.plan_digest_at(&today).unwrap_err(), StoreError::NotDueToday);
}

#[test]
fn digest_is_not_due_off_the_boundary_day() {
    let s = store(vec![note("/n/a.md", "A", SATURDAY_NOON - DAY)]);
    for wd in [0u8, 1, 2, 3, 4, 6] {
        let mut t = saturday();
        t.weekday = wd;
        assert_eq!(s.plan_digest_at(&t).unwrap_err(), StoreError::NotDueToday);
    }
}

#[test]
fn digest_is_not_due_when_its_note_exists() {
    let s = store(vec![note("/n/2001-09-08.md", "# Summary", SATURDAY_NOON)]);
    assert_eq!(s.plan_digest_at(&saturday()).unwrap_err(), StoreError::NotDueToday);
}

#[test]
fn due_digest_fails_without_a_directory() {
    let s = NoteStore::from_entries("/n".to_string(), false, vec![]).unwrap();
    assert_eq!(s.plan_digest_at(&saturday()).unwrap_err(), StoreError::IoError);
}

#[test]
fn due_digest_fails_on_missing_metadata_of_any_entry() {
    let mut bad = note("/n/b.txt", "text", 0);
    bad.created = None;
    let s = store(vec![note("/n/a.md", "A", SATURDAY_NOON - DAY), bad]);
    assert_eq!(s.plan_digest_at(&saturday()).unwrap_err(), StoreError::IoError);
}

#[test]
fn due_digest_fails_on_unreadable_text_in_the_window() {
    let mut bad = note("/n/a.md", "", SATURDAY_NOON - DAY);
    bad.content = None;
    let s = store(vec![bad]);
    assert_eq!(s.plan_digest_at(&saturday()).unwrap_err(), StoreError::IoError);
}

#[test]
fn unreadable_text_outside_the_window_does_not_block() {
    let mut old = note("/n/old.md", "", SATURDAY_NOON - 30 * DAY);
    old.content = None;
    let s = store(vec![old, note("/n/a.md", "A", SATURDAY_NOON - DAY)]);
    assert_eq!(s.plan_digest_at(&saturday()).unwrap().body, "A");
}

#[test]
fn window_bounds_are_inclusive_below_and_exclude_the_future() {
    let s = store(vec![
        note("/n/at-start.md", "S", SATURDAY_NOON - 7 * DAY),
        note("/n/before.md", "E", SATURDAY_NOON - 7 * DAY - 1),
        note("/n/now.md", "N", SATURDAY_NOON),
        note("/n/skewed.md", "F", SATURDAY_NOON + 1),
    ]);
    assert_eq!(s.plan_digest_at(&saturday()).unwrap().body, "S\n\nN");
}

#[test]
fn empty_window_gives_an_empty_aggregate() {
    let s = store(vec![]);
    let plan = s.plan_digest_at(&saturday()).unwrap();
    assert_eq!(plan.body, "");
}

#[test]
fn applying_twice_reports_not_due() {
    let mut s = store(vec![]);
    let plan = s.plan_digest_at(&saturday()).unwrap();
    s.apply_digest(&plan, "X").unwrap();
    assert_eq!(s.apply_digest(&plan, "X").unwrap_err(), StoreError::NotDueToday);
}

#[test]
fn dates_format_as_iso_with_padding() {
    assert_eq!(format_date(2025, 3, 7), "2025-03-07");
    assert_eq!(format_date(2025, 10, 11), "2025-10-11");
    assert_eq!(format_date(1, 1, 1), "0001-01-01");
    assert_eq!(format_date(-44, 12, 31), "-0044-12-31");
    assert_eq!(format_date(12345, 6, 30), "12345-06-30");
    assert_eq!(format_date(999, 2, 28), "0999-02-28");
}

#[test]
fn the_preamble_asks_for_an_objective_narrative() {
    assert!(digest_preamble().starts_with("Summarize and create a report"));
}
