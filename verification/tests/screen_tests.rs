use herdr_quicknotes::clock::Timestamp;
use herdr_quicknotes::layout::{centered_rect, screen_areas, Area};
use herdr_quicknotes::note::Note;
use herdr_quicknotes::screen::{dialog_size, long_time_text, push_decimal, Popup};
use herdr_quicknotes::tui::InputMode;
use herdr_quicknotes::store::NoteStore;
use herdr_quicknotes::tui::{App, Key};
use ratatui::layout::{Constraint, Direction, Layout};

fn note(id: &str, title: &str, content: &str, secs: i64) -> Note {
    Note::new(id, Timestamp { secs, nanos: 0 }, title.to_string(), content.to_string(), Vec::new())
}

fn sample_app() -> App {
    let notes = vec![
        note("aaaaaaaa", "Arquitectura", "Usar Rust", 1_431_648_000),
        note("bbbbbbbb", "Compras", "pan", 0),
    ];
    App::new(NoteStore::new(None), notes)
}

#[test]
fn decimal_text() {
    for n in [0usize, 7, 10, 42, 1000, 98765] {
        let mut s = "x".to_string();
        push_decimal(&mut s, n);
        assert_eq!(s, format!("x{}", n));
    }
}

#[test]
fn long_time_is_chrono_format() {
    assert_eq!(long_time_text(Timestamp { secs: 1_431_648_000, nanos: 0 }), "2015-05-15 00:00:00");
    assert_eq!(long_time_text(Timestamp { secs: 0, nanos: 0 }), "1970-01-01 00:00:00");
    assert_eq!(long_time_text(Timestamp { secs: 0, nanos: 1_500_000_000 }), "");
}

#[test]
fn screen_of_a_fresh_app() {
    let app = sample_app();
    let s = app.screen();
    assert!(!s.search_focused);
    assert_eq!(
        s.search_title,
        " Buscar con '/' | [n] Nueva | [y] Copiar | [e] Editar | [d] Borrar | [q] Salir "
    );
    assert_eq!(s.search_text, " 🔍 ");
    assert_eq!(s.list_title, " Notas (2) ");
    assert_eq!(s.lines.len(), 2);
    assert!(s.lines[0].selected);
    assert_eq!(s.lines[0].title, " ▶ Arquitectura");
    assert_eq!(s.lines[0].date, " [15/05 00:00]");
    assert!(!s.lines[1].selected);
    assert_eq!(s.lines[1].title, "   Compras");
    assert_eq!(s.lines[1].date, " [01/01 00:00]");
    assert_eq!(s.preview_title, " Vista Previa: Arquitectura ");
    assert_eq!(
        s.preview_text,
        format!("ID: aaaaaaaa | Actualizada: 2015-05-15 00:00:00\n{}\n\nUsar Rust", "-".repeat(60))
    );
    assert_eq!(s.footer, "herdr-quicknotes v0.1.0 • QuantumEdu");
    assert!(!s.footer_is_status);
    assert!(matches!(s.popup, Popup::Nothing));
}

#[test]
fn screen_while_searching_and_typing() {
    let mut app = sample_app();
    app.handle_key(Key::Char('/'));
    app.handle_key(Key::Char('z'));
    app.handle_key(Key::Char('q'));
    let s = app.screen();
    assert!(s.search_focused);
    assert_eq!(s.search_title, " Filtrando notas ");
    assert_eq!(s.search_text, " 🔍 zq");
    assert_eq!(s.list_title, " Notas (0) ");
    assert_eq!(s.preview_title, " Vista Previa ");
    assert_eq!(
        s.preview_text,
        "No hay notas seleccionadas o encontradas.\nPresiona [n] para crear una nueva nota."
    );
    app.handle_key(Key::Esc);
    app.handle_key(Key::Char('n'));
    app.handle_key(Key::Char('T'));
    match app.screen().popup {
        Popup::NewTitle(t) => assert_eq!(t, "T"),
        _ => panic!("expected the title dialog"),
    }
    app.handle_key(Key::Enter);
    app.handle_key(Key::Char('c'));
    match app.screen().popup {
        Popup::NewContent(t) => assert_eq!(t, "c"),
        _ => panic!("expected the body dialog"),
    }
}

#[test]
fn footer_shows_the_status() {
    let mut app = sample_app();
    app.note_updated();
    let s = app.screen();
    assert_eq!(s.footer, "✓ Nota actualizada");
    assert!(s.footer_is_status);
}

fn rl(a: Area) -> ratatui::layout::Rect {
    ratatui::layout::Rect { x: a.x, y: a.y, width: a.width, height: a.height }
}

#[test]
fn centered_rect_matches_ratatui() {
    let area = Area { x: 0, y: 0, width: 100, height: 40 };
    let c = centered_rect(60, 20, area);
    let rows = Layout::default()
        .direction(Direction::Vertical)
        .constraints([Constraint::Percentage(40), Constraint::Percentage(20), Constraint::Percentage(40)])
        .split(rl(area));
    let cols = Layout::default()
        .direction(Direction::Horizontal)
        .constraints([Constraint::Percentage(20), Constraint::Percentage(60), Constraint::Percentage(20)])
        .split(rows[1]);
    assert_eq!(rl(c), cols[1]);
    assert_eq!((c.x, c.y, c.width, c.height), (20, 16, 60, 8));
}

#[test]
fn screen_areas_split_the_terminal() {
    let a = screen_areas(Area { x: 0, y: 0, width: 100, height: 30 });
    assert_eq!(a.search, Area { x: 0, y: 0, width: 100, height: 3 });
    assert_eq!(a.footer, Area { x: 0, y: 28, width: 100, height: 2 });
    assert_eq!(a.list.y, 3);
    assert_eq!(a.list.height, 25);
    assert_eq!(a.list.width + a.preview.width, 100);
    assert_eq!(a.preview.x, a.list.width);
}

fn inside(a: Area, b: Area) -> bool {
    b.x <= a.x
        && a.x as u32 + a.width as u32 <= b.x as u32 + b.width as u32
        && b.y <= a.y
        && a.y as u32 + a.height as u32 <= b.y as u32 + b.height as u32
}

#[test]
fn layout_parts_lie_within_the_area() {
    for (w, h) in [(100u16, 30u16), (7, 3), (0, 0), (250, 80), (1, 1)] {
        let full = Area { x: 3, y: 2, width: w, height: h };
        let a = screen_areas(full);
        for part in [a.search, a.list, a.preview, a.footer] {
            assert!(inside(part, full), "{:?} in {:?}", part, full);
        }
        for (px, py) in [(60u16, 20u16), (70, 40), (50, 20), (0, 0), (100, 100)] {
            assert!(inside(centered_rect(px, py, full), full));
        }
    }
}

#[test]
fn dialogs_take_their_share() {
    assert_eq!(dialog_size(InputMode::NewTitle), Some((60, 20)));
    assert_eq!(dialog_size(InputMode::NewContent), Some((70, 40)));
    assert_eq!(dialog_size(InputMode::ConfirmDelete), Some((50, 20)));
    assert_eq!(dialog_size(InputMode::Normal), None);
    assert_eq!(dialog_size(InputMode::Search), None);
    let full = Area { x: 0, y: 0, width: 100, height: 40 };
    let mut app = sample_app();
    assert_eq!(app.dialog_area(full), None);
    app.handle_key(Key::Char('n'));
    assert_eq!(app.dialog_area(full), Some(centered_rect(60, 20, full)));
    app.handle_key(Key::Enter);
    assert_eq!(app.dialog_area(full), Some(centered_rect(70, 40, full)));
    app.handle_key(Key::Esc);
    app.handle_key(Key::Char('d'));
    assert_eq!(app.dialog_area(full), Some(centered_rect(50, 20, full)));
}
