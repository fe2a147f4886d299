use noters::config::Config;
use noters::crypto::Crypto;
use noters::error::NoterError;
use noters::index::{contains_text, search_records, NoteRecord};
use noters::naming::Timestamp;
use noters::note::{tally, Effect, NotesManager};

fn config(editor: Option<&str>) -> Config {
    Config {
        notes_dir: "/n/notes".to_string(),
        db_path: "/n/noters.db".to_string(),
        default_extension: "md".to_string(),
        editor: editor.map(|e| e.to_string()),
        encryption_key: "k3y".to_string(),
        export_dir: "/n/exports".to_string(),
    }
}

fn manager() -> NotesManager {
    NotesManager::new(config(None))
}

fn stamp() -> Timestamp {
    Timestamp { year: 2024, month: 3, day: 14, hour: 15, minute: 9, second: 26 }
}

fn record(id: i64, title: &str, filename: &str) -> NoteRecord {
    NoteRecord {
        id,
        title: title.to_string(),
        filename: filename.to_string(),
        created_at: "2024-03-14T15:09:26+00:00".to_string(),
        updated_at: "2024-03-14T15:09:26+00:00".to_string(),
    }
}

fn written_blob(effs: &[Effect]) -> (String, String) {
    match &effs[0] {
        Effect::WriteFile { name, contents } => (name.clone(), contents.clone()),
        other => panic!("unexpected first step {:?}", other),
    }
}

#[test]
fn create_rejects_blank_titles() {
    let m = manager();
    assert!(matches!(m.create_note("", &stamp()), Err(NoterError::InvalidTitle(_))));
    assert!(matches!(m.create_note("   ", &stamp()), Err(NoterError::InvalidTitle(_))));
}

#[test]
fn create_writes_blob_then_row() {
    let m = manager();
    let effs = m.create_note("Report", &stamp()).unwrap();
    assert_eq!(effs.len(), 2);
    let (name, blob) = written_blob(&effs);
    assert_eq!(name, "20240314-150926-Report.md");
    match &effs[1] {
        Effect::InsertRow { title, filename } => {
            assert_eq!(title, "Report");
            assert_eq!(filename, &name);
        }
        other => panic!("unexpected second step {:?}", other),
    }
    let text = m.open_blob(&blob).unwrap();
    assert!(text.contains("Report"));
}

#[test]
fn create_then_read_gives_content_back() {
    let m = manager();
    let effs = m.create_note("Report", &stamp()).unwrap();
    let (name, blob) = written_blob(&effs);
    let rec = record(1, "Report", &name);
    let text = m.read_note(1, Some(&rec), Some(&blob)).unwrap();
    assert_eq!(text, "---\ntitle: Report\ndate: 2024-03-14 15:09:26\n---\n\n");
}

#[test]
fn read_failures() {
    let m = manager();
    let rec = record(3, "x", "a.md");
    assert_eq!(m.read_note(3, None, Some("AAAA")), Err(NoterError::NoteNotFound(3)));
    assert!(matches!(m.read_note(3, Some(&rec), None), Err(NoterError::Io(_))));
    assert!(matches!(m.read_note(3, Some(&rec), Some("AAAA")), Err(NoterError::Encryption(_))));
}

#[test]
fn read_rejects_non_utf8_plaintext() {
    let m = manager();
    let blob = Crypto::new("k3y").encrypt(&[0xff, 0xfe]).unwrap();
    let rec = record(1, "x", "a.md");
    assert!(matches!(m.read_note(1, Some(&rec), Some(&blob)), Err(NoterError::InvalidInput(_))));
}

#[test]
fn delete_unknown_changes_nothing() {
    let m = manager();
    let (found, effs) = m.delete_note(42, None);
    assert!(!found);
    assert!(effs.is_empty());
}

#[test]
fn delete_existing_removes_file_then_row() {
    let m = manager();
    let rec = record(7, "t", "20240314-150926-t.md");
    let (found, effs) = m.delete_note(7, Some(&rec));
    assert!(found);
    assert_eq!(
        effs,
        vec![
            Effect::RemoveFileIfPresent { name: "20240314-150926-t.md".to_string() },
            Effect::DeleteRow { id: 7 },
        ]
    );
}

#[test]
fn export_of_nothing() {
    let m = manager();
    assert!(m.export_notes(&Vec::new()).is_empty());
    assert_eq!(tally(&Vec::new()), (0, 0));
}

#[test]
fn export_with_one_corrupted_note() {
    let m = manager();
    let a = m.create_note("Alpha", &stamp()).unwrap();
    let b = m.create_note("Beta", &stamp()).unwrap();
    let (_, blob_a) = written_blob(&a);
    let (_, blob_b) = written_blob(&b);
    let first = if blob_b.starts_with('A') { "B" } else { "A" };
    let corrupted = format!("{}{}", first, &blob_b[1..]);
    let records = vec![record(2, "Beta", "b.md"), record(1, "Alpha", "a.md")];
    let targets = m.export_notes(&records);
    assert_eq!(targets.len(), 2);
    assert_eq!(targets[0].file_name, "Beta.md");
    assert_eq!(targets[1].file_name, "Alpha.md");
    let outcomes: Vec<bool> = [corrupted, blob_a].iter().map(|blob| m.open_blob(blob).is_ok()).collect();
    assert_eq!(tally(&outcomes), (1, 2));
    assert_eq!(tally(&vec![true, false, true, true]), (3, 4));
}

#[test]
fn export_directory_choice() {
    let m = manager();
    assert_eq!(m.export_target_dir(Some("/tmp/out")), "/tmp/out");
    assert_eq!(m.export_target_dir(None), "/n/exports");
}

#[test]
fn search_is_case_sensitive_substring() {
    let m = manager();
    let records = vec![
        record(3, "Groceries", "20240101-000000-Groceries.md"),
        record(2, "work log", "20240102-000000-work-log.md"),
        record(1, "Ideas", "20240103-000000-Ideas.md"),
    ];
    let ids = |q: &str| m.search_notes(&records, q).iter().map(|r| r.id).collect::<Vec<_>>();
    assert_eq!(ids("ro"), vec![3]);
    assert_eq!(ids("groceries"), Vec::<i64>::new());
    assert_eq!(ids("work-log"), vec![2]);
    assert_eq!(ids("2024010"), vec![3, 2, 1]);
    assert_eq!(ids(""), vec![3, 2, 1]);
    assert_eq!(search_records(&records, "Ideas").len(), 1);
}

#[test]
fn substring_test() {
    assert!(contains_text("abc", ""));
    assert!(contains_text("abc", "bc"));
    assert!(!contains_text("abc", "abcd"));
    assert!(!contains_text("abc", "B"));
}

#[test]
fn editor_choice() {
    let configured = NotesManager::new(config(Some("vim")));
    assert_eq!(configured.choose_editor(Some("nano".to_string())).unwrap(), "vim");
    let m = manager();
    assert_eq!(m.choose_editor(Some("nano".to_string())).unwrap(), "nano");
    assert_eq!(m.choose_editor(None), Err(NoterError::EditorNotFound));
}

#[test]
fn edit_protocol() {
    let m = manager();
    let effs = m.create_note("Plan", &stamp()).unwrap();
    let (name, blob) = written_blob(&effs);
    let rec = record(1, "Plan", &name);
    assert_eq!(
        m.edit_note(1, Some(&rec), Some(&blob), None).err(),
        Some(NoterError::EditorNotFound)
    );
    assert_eq!(m.edit_note(9, None, None, None).err(), Some(NoterError::NoteNotFound(9)));
    let session = m.edit_note(1, Some(&rec), Some(&blob), Some("ed".to_string())).unwrap();
    assert_eq!(session.editor, "ed");
    assert_eq!(session.temp_name, format!("{}.temp", name));
    assert!(session.plaintext.contains("title: Plan"));

    let (steps, res) = m.finish_edit(&session, None);
    assert!(matches!(res, Err(NoterError::EditorError(_))));
    assert_eq!(steps, vec![Effect::RemoveFile { name: session.temp_name.clone() }]);

    let (steps, res) = m.finish_edit(&session, Some(b"edited body"));
    assert_eq!(res, Ok(()));
    assert_eq!(steps.len(), 2);
    let (written, new_blob) = written_blob(&steps);
    assert_eq!(written, name);
    assert_eq!(steps[1], Effect::RemoveFile { name: session.temp_name.clone() });
    assert_eq!(m.open_blob(&new_blob).unwrap(), "edited body");
}

#[test]
fn generated_secrets() {
    let a = Config::generate_encryption_key();
    let b = Config::generate_encryption_key();
    assert_eq!(a.chars().count(), 32);
    assert!(a.chars().all(|c| c.is_ascii_alphanumeric()));
    assert_ne!(a, b);
}

fn dated(id: i64, created_at: &str) -> NoteRecord {
    let mut r = record(id, "t", &format!("{}.md", id));
    r.created_at = created_at.to_string();
    r
}

#[test]
fn listing_most_recent_first() {
    let m = manager();
    let records = vec![
        dated(1, "2024-01-01T10:00:00+00:00"),
        dated(2, "2024-03-01T10:00:00+00:00"),
        dated(3, "2024-01-01T10:00:00+00:00"),
        dated(4, "2023-12-31T23:59:59+00:00"),
        dated(5, "2024-03-01T10:00:00+00:00"),
    ];
    let ids: Vec<i64> = m.list_notes(&records).iter().map(|r| r.id).collect();
    assert_eq!(ids, vec![5, 2, 3, 1, 4]);
    assert!(m.list_notes(&Vec::new()).is_empty());
    assert_eq!(noters::index::order_by_recency(&records).len(), 5);
}
