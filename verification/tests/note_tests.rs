use herdr_quicknotes::clock::Timestamp;
use herdr_quicknotes::note::{parse_edited, Note};

fn ts(secs: i64) -> Timestamp {
    Timestamp { secs, nanos: 0 }
}

fn note(id: &str, title: &str, content: &str) -> Note {
    Note::new(id, ts(100), title.to_string(), content.to_string(), Vec::new())
}

#[test]
fn new_keeps_the_first_group_of_the_uuid() {
    let n = Note::new(
        "67e55044-10b1-426f-9247-bb680e5fe0c8",
        Timestamp { secs: 1_700_000_000, nanos: 5 },
        "T".to_string(),
        "C".to_string(),
        vec!["x".to_string()],
    );
    assert_eq!(n.id, "67e55044");
    assert_eq!(n.title, "T");
    assert_eq!(n.content, "C");
    assert_eq!(n.tags, vec!["x".to_string()]);
    assert_eq!(n.created_at, Timestamp { secs: 1_700_000_000, nanos: 5 });
    assert_eq!(n.updated_at, n.created_at);
}

#[test]
fn new_note_from_a_random_uuid_has_a_short_hex_id() {
    let uuid = uuid::Uuid::new_v4().to_string();
    let now = Timestamp { secs: 1_700_000_123, nanos: 9 };
    let n = Note::new(&uuid, now, "Título".to_string(), "Cuerpo".to_string(), Vec::new());
    assert_eq!(n.id.chars().count(), 8);
    assert!(n.id.chars().all(|c| c.is_ascii_digit() || ('a'..='f').contains(&c)));
    assert_eq!(n.id, uuid[..8]);
    assert_eq!(n.title, "Título");
    assert_eq!(n.content, "Cuerpo");
    assert!(n.tags.is_empty());
    assert_eq!(n.created_at, now);
    assert_eq!(n.updated_at, now);
}

#[test]
fn clipboard_text_is_title_blank_line_body() {
    assert_eq!(note("abcdef01", "Idea", "Usar Rust").clipboard_text(), "Idea\n\nUsar Rust");
}

#[test]
fn editor_text_is_a_heading_then_the_body() {
    assert_eq!(note("abcdef01", "Idea", "Usar Rust").editor_text(), "# Idea\n\nUsar Rust");
}

#[test]
fn editor_file_name_carries_the_id() {
    assert_eq!(note("1a2b3c4d", "t", "c").editor_file_name(), "quicknote_1a2b3c4d.md");
}

#[test]
fn parse_edited_reads_heading_and_body() {
    let (t, c) = parse_edited("# Nueva idea\n\nprimera línea\nsegunda\n\n");
    assert_eq!(t, "Nueva idea");
    assert_eq!(c, "primera línea\nsegunda");
}

#[test]
fn parse_edited_uses_default_title_for_blank_first_line() {
    let (t, c) = parse_edited("   \ncuerpo");
    assert_eq!(t, "Sin título");
    assert_eq!(c, "cuerpo");
    let (t, c) = parse_edited("");
    assert_eq!(t, "Sin título");
    assert_eq!(c, "");
    let (t, _) = parse_edited("###\nx");
    assert_eq!(t, "Sin título");
}

#[test]
fn parse_edited_strips_all_heading_marks_and_crlf() {
    let (t, c) = parse_edited("### Titulo \r\n  a\r\nb  \r\n");
    assert_eq!(t, "Titulo");
    assert_eq!(c, "a\nb");
}

#[test]
fn parse_edited_matches_the_original_steps() {
    let samples = ["#a\nb", "x", "# t\r\n\r\n c \n", "\n\n\nz", "# #t\n#c"];
    for s in samples {
        let mut lines = s.lines();
        let first = lines.next().unwrap_or("").trim_start_matches('#').trim();
        let title = if first.is_empty() { "Sin título".to_string() } else { first.to_string() };
        let content = lines.collect::<Vec<&str>>().join("\n").trim().to_string();
        assert_eq!(parse_edited(s), (title, content), "{:?}", s);
    }
}

#[test]
fn editing_without_changes_gives_the_note_back() {
    let cases = [
        ("Idea", "Usar Rust"),
        ("#etiqueta", ""),
        ("a\rb", "uno\n\ndos\rtres"),
        ("Título largo", "línea 1\nlínea 2"),
    ];
    for (title, content) in cases {
        let n = note("abcdef01", title, content);
        let (t, c) = parse_edited(&n.editor_text());
        assert_eq!(t, title);
        assert_eq!(c, content);
    }
}
