use noters::naming::{
    chars_of, export_filename, is_blank, note_filename, note_header, sanitize_filename,
    string_of, temp_filename, Timestamp,
};

fn stamp() -> Timestamp {
    Timestamp { year: 2024, month: 1, day: 5, hour: 9, minute: 3, second: 7 }
}

#[test]
fn sanitize_replaces_unsafe_characters() {
    assert_eq!(sanitize_filename("Hello, World!"), "Hello--World");
    assert_eq!(sanitize_filename("snake_case-name"), "snake_case-name");
    assert_eq!(sanitize_filename("a/b\\c.d"), "a-b-c-d");
}

#[test]
fn sanitize_trims_dashes() {
    assert_eq!(sanitize_filename("--a b--"), "a-b");
    assert_eq!(sanitize_filename("  x  "), "x");
    assert_eq!(sanitize_filename("!!!"), "");
    assert_eq!(sanitize_filename(""), "");
}

#[test]
fn sanitize_keeps_unicode_letters() {
    assert_eq!(sanitize_filename("Café déjà"), "Café-déjà");
}

#[test]
fn sanitize_caps_length() {
    let long = "a".repeat(300);
    assert_eq!(sanitize_filename(&long), "a".repeat(255));
    let exact = "b".repeat(255);
    assert_eq!(sanitize_filename(&exact), exact);
}

#[test]
fn blank_titles() {
    assert!(is_blank(""));
    assert!(is_blank("   "));
    assert!(is_blank("\t\n\r "));
    assert!(!is_blank(" a "));
    assert!(!is_blank("Report"));
}

#[test]
fn timestamp_texts() {
    assert_eq!(stamp().compact(), "20240105-090307");
    assert_eq!(stamp().display(), "2024-01-05 09:03:07");
    let late = Timestamp { year: 999, month: 12, day: 31, hour: 23, minute: 59, second: 59 };
    assert_eq!(late.compact(), "09991231-235959");
}

#[test]
fn file_names() {
    assert_eq!(note_filename(&stamp(), "My Report!", "md"), "20240105-090307-My-Report.md");
    assert_eq!(export_filename("My Report!", "txt"), "My-Report.txt");
    assert_eq!(temp_filename("20240105-090307-a.md"), "20240105-090307-a.md.temp");
}

#[test]
fn header_text() {
    assert_eq!(
        note_header("Report", &stamp()),
        "---\ntitle: Report\ndate: 2024-01-05 09:03:07\n---\n\n"
    );
}

#[test]
fn chars_round_trip() {
    let cs = chars_of("añb");
    assert_eq!(cs, vec!['a', 'ñ', 'b']);
    assert_eq!(string_of(&cs), "añb");
}
