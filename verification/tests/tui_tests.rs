use fuzzy_matcher::skim::SkimMatcherV2;
use fuzzy_matcher::FuzzyMatcher;
use herdr_quicknotes::clock::Timestamp;
use herdr_quicknotes::note::Note;
use herdr_quicknotes::search::{all_positions_vec, filter_notes, rank_matches, search_target_of};
use herdr_quicknotes::store::NoteStore;
use herdr_quicknotes::tui::{choose_editor, Action, App, CopyOutcome, InputMode, Key};

fn note(id: &str, title: &str, content: &str, secs: i64) -> Note {
    Note::new(id, Timestamp { secs, nanos: 0 }, title.to_string(), content.to_string(), Vec::new())
}

fn sample_app() -> App {
    let notes = vec![
        note("aaaaaaaa", "Arquitectura", "Usar Rust y Ratatui", 30),
        note("bbbbbbbb", "Compras", "leche, pan", 20),
        note("cccccccc", "Rust tips", "borrow checker", 10),
    ];
    App::new(NoteStore::new(None), notes)
}

fn type_text(app: &mut App, s: &str) {
    for c in s.chars() {
        assert_eq!(app.handle_key(Key::Char(c)), Action::Nothing);
    }
}

#[test]
fn new_app_shows_every_note() {
    let app = sample_app();
    assert_eq!(app.filtered_indices, vec![0, 1, 2]);
    assert_eq!(app.selected_idx, 0);
    assert_eq!(app.input_mode, InputMode::Normal);
    assert!(app.status_msg.is_none());
    assert!(!app.should_quit);
    assert_eq!(app.selected_note().unwrap().id, "aaaaaaaa");
}

#[test]
fn moving_stays_within_the_list() {
    let mut app = sample_app();
    app.handle_key(Key::Up);
    assert_eq!(app.selected_idx, 0);
    app.handle_key(Key::Down);
    app.handle_key(Key::Char('j'));
    app.handle_key(Key::Down);
    assert_eq!(app.selected_idx, 2);
    app.handle_key(Key::Char('k'));
    assert_eq!(app.selected_idx, 1);
    assert_eq!(app.selected_note().unwrap().id, "bbbbbbbb");
}

#[test]
fn quitting_with_q_or_esc() {
    let mut app = sample_app();
    app.handle_key(Key::Char('q'));
    assert!(app.should_quit);
    let mut app = sample_app();
    app.handle_key(Key::Esc);
    assert!(app.should_quit);
}

#[test]
fn search_filters_and_ranks() {
    let mut app = sample_app();
    app.handle_key(Key::Char('/'));
    assert_eq!(app.input_mode, InputMode::Search);
    type_text(&mut app, "rust");
    assert_eq!(app.search_query, "rust");
    let ids: Vec<&str> = app.filtered_indices.iter().map(|&i| app.notes[i].id.as_str()).collect();
    assert!(ids.contains(&"aaaaaaaa"));
    assert!(ids.contains(&"cccccccc"));
    assert!(!ids.contains(&"bbbbbbbb"));
    app.handle_key(Key::Backspace);
    assert_eq!(app.search_query, "rus");
    app.handle_key(Key::Enter);
    assert_eq!(app.input_mode, InputMode::Normal);
    assert_eq!(app.search_query, "rus");
}

#[test]
fn search_order_follows_the_matcher_scores() {
    let app = sample_app();
    let matcher = SkimMatcherV2::default();
    let mut expected: Vec<(usize, i64)> = app
        .notes
        .iter()
        .enumerate()
        .filter_map(|(i, n)| {
            matcher.fuzzy_match(&format!("{} {}", n.title, n.content), "ru").map(|s| (i, s))
        })
        .collect();
    expected.sort_by(|a, b| b.1.cmp(&a.1));
    let expected: Vec<usize> = expected.into_iter().map(|(i, _)| i).collect();
    assert_eq!(filter_notes(&app.notes, "ru"), expected);
}

#[test]
fn search_target_is_title_space_body() {
    let n = note("aaaaaaaa", "T", "C", 0);
    assert_eq!(search_target_of(&n), "T C");
}

#[test]
fn rank_matches_orders_by_score_then_position() {
    let scores = vec![Some(5), None, Some(9), Some(5), None, Some(-1)];
    assert_eq!(rank_matches(&scores), vec![2, 0, 3, 5]);
    assert!(rank_matches(&vec![None, None]).is_empty());
}

#[test]
fn all_positions_counts_up() {
    assert_eq!(all_positions_vec(4), vec![0, 1, 2, 3]);
    assert!(all_positions_vec(0).is_empty());
}

#[test]
fn search_with_no_match_keeps_selection_index() {
    let mut app = sample_app();
    app.handle_key(Key::Down);
    app.handle_key(Key::Down);
    app.handle_key(Key::Char('/'));
    type_text(&mut app, "zzzzqqq");
    assert!(app.filtered_indices.is_empty());
    assert!(app.selected_note().is_none());
    assert_eq!(app.selected_idx, 2);
}

#[test]
fn filter_clamps_the_selection() {
    let mut app = sample_app();
    app.handle_key(Key::Down);
    app.handle_key(Key::Down);
    app.handle_key(Key::Char('/'));
    type_text(&mut app, "compras");
    assert_eq!(app.filtered_indices, vec![1]);
    assert_eq!(app.selected_idx, 0);
}

#[test]
fn new_note_flow() {
    let mut app = sample_app();
    app.handle_key(Key::Char('n'));
    assert_eq!(app.input_mode, InputMode::NewTitle);
    type_text(&mut app, "  Hola ");
    app.handle_key(Key::Backspace);
    assert_eq!(app.new_title, "  Hola");
    assert_eq!(app.handle_key(Key::Enter), Action::Nothing);
    assert_eq!(app.input_mode, InputMode::NewContent);
    type_text(&mut app, " mundo ");
    assert_eq!(app.handle_key(Key::Enter), Action::SaveNewNote);
    assert_eq!(app.draft_fields(), ("Hola".to_string(), "mundo".to_string()));
    let now = Timestamp { secs: 77, nanos: 3 };
    let n = app.draft_note("0a1b2c3d-1111-4222-8333-444455556666", now);
    assert_eq!(n.id, "0a1b2c3d");
    assert_eq!(n.title, "Hola");
    assert_eq!(n.content, "mundo");
    assert!(n.tags.is_empty());
    assert_eq!(n.created_at, now);
    assert_eq!(n.updated_at, now);
    let id = n.id.clone();
    app.save_new_note(n);
    assert_eq!(app.notes.len(), 4);
    assert_eq!(app.notes[0].id, id);
    assert_eq!(app.selected_idx, 0);
    assert_eq!(app.selected_note().unwrap().id, id);
    assert_eq!(app.input_mode, InputMode::Normal);
    assert!(app.new_title.is_empty() && app.new_content.is_empty());
    assert_eq!(app.status_msg.as_deref(), Some("✓ Nueva nota guardada"));
}

#[test]
fn blank_title_gets_the_default() {
    let mut app = sample_app();
    app.handle_key(Key::Char('n'));
    type_text(&mut app, "   ");
    assert_eq!(app.draft_fields(), ("Nota rápida".to_string(), String::new()));
}

#[test]
fn escape_leaves_the_dialogs() {
    let mut app = sample_app();
    app.handle_key(Key::Char('n'));
    app.handle_key(Key::Esc);
    assert_eq!(app.input_mode, InputMode::Normal);
    app.handle_key(Key::Char('n'));
    app.handle_key(Key::Enter);
    app.handle_key(Key::Esc);
    assert_eq!(app.input_mode, InputMode::Normal);
}

#[test]
fn delete_asks_first_and_removes_the_note() {
    let mut app = sample_app();
    app.handle_key(Key::Down);
    app.handle_key(Key::Char('d'));
    assert_eq!(app.input_mode, InputMode::ConfirmDelete);
    assert_eq!(app.handle_key(Key::Char('y')), Action::DeleteSelected);
    assert_eq!(app.selected_id().as_deref(), Some("bbbbbbbb"));
    app.delete_selected();
    let ids: Vec<&str> = app.notes.iter().map(|n| n.id.as_str()).collect();
    assert_eq!(ids, vec!["aaaaaaaa", "cccccccc"]);
    assert_eq!(app.filtered_indices, vec![0, 1]);
    assert_eq!(app.input_mode, InputMode::Normal);
    assert_eq!(app.status_msg.as_deref(), Some("✓ Nota eliminada"));
}

#[test]
fn delete_of_last_note_moves_selection_up() {
    let mut app = sample_app();
    app.handle_key(Key::Down);
    app.handle_key(Key::Down);
    app.delete_selected();
    assert_eq!(app.notes.len(), 2);
    assert_eq!(app.selected_idx, 1);
}

#[test]
fn other_key_cancels_delete() {
    let mut app = sample_app();
    app.handle_key(Key::Char('x'));
    assert_eq!(app.input_mode, InputMode::ConfirmDelete);
    assert_eq!(app.handle_key(Key::Char('n')), Action::Nothing);
    assert_eq!(app.input_mode, InputMode::Normal);
    assert_eq!(app.notes.len(), 3);
}

#[test]
fn delete_needs_a_selected_note() {
    let mut app = App::new(NoteStore::new(None), Vec::new());
    app.handle_key(Key::Char('d'));
    assert_eq!(app.input_mode, InputMode::Normal);
    app.delete_selected();
    assert!(app.status_msg.is_none());
}

#[test]
fn copy_and_edit_are_asked_for() {
    let mut app = sample_app();
    assert_eq!(app.handle_key(Key::Char('y')), Action::CopySelected);
    assert_eq!(app.handle_key(Key::Char('e')), Action::EditSelected);
    assert_eq!(app.copy_text().as_deref(), Some("Arquitectura\n\nUsar Rust y Ratatui"));
}

#[test]
fn copy_outcomes_become_messages() {
    let mut app = sample_app();
    app.copy_current_note(CopyOutcome::Copied);
    assert_eq!(app.status_msg.as_deref(), Some("✓ Nota copiada al portapapeles"));
    app.copy_current_note(CopyOutcome::Unavailable("sin X11".to_string()));
    assert_eq!(app.status_msg.as_deref(), Some("Clipboard no disponible: sin X11"));
    app.copy_current_note(CopyOutcome::Failed("ocupado".to_string()));
    assert_eq!(app.status_msg.as_deref(), Some("Error al copiar: ocupado"));
    let mut empty = App::new(NoteStore::new(None), Vec::new());
    empty.copy_current_note(CopyOutcome::Copied);
    assert!(empty.status_msg.is_none());
    assert!(empty.copy_text().is_none());
}

#[test]
fn apply_edit_updates_the_note() {
    let mut app = sample_app();
    let k = app.apply_edit("bbbbbbbb", "# Lista\n\nleche\nhuevos\n", Timestamp { secs: 21, nanos: 0 });
    assert_eq!(k, Some(1));
    assert_eq!(app.notes[1].title, "Lista");
    assert_eq!(app.notes[1].content, "leche\nhuevos");
    assert_eq!(app.notes[1].created_at, Timestamp { secs: 20, nanos: 0 });
    assert!(app.notes[1].updated_at.secs > 20);
    assert!(app.status_msg.is_none());
    app.note_updated();
    assert_eq!(app.status_msg.as_deref(), Some("✓ Nota actualizada"));
    assert_eq!(app.apply_edit("zzzzzzzz", "# x", Timestamp { secs: 22, nanos: 0 }), None);
}

#[test]
fn editor_choice_prefers_editor_then_visual() {
    assert_eq!(choose_editor(Some("vim".into()), Some("code".into())), "vim");
    assert_eq!(choose_editor(None, Some("code".into())), "code");
    assert_eq!(choose_editor(None, None), "nano");
}

#[test]
fn apply_edit_stamps_the_given_time() {
    let mut app = sample_app();
    let now = Timestamp { secs: 5_000, nanos: 7 };
    assert_eq!(app.apply_edit("cccccccc", "Sin marca\ncuerpo", now), Some(2));
    assert_eq!(app.notes[2].title, "Sin marca");
    assert_eq!(app.notes[2].content, "cuerpo");
    assert_eq!(app.notes[2].updated_at, now);
    assert_eq!(app.notes[0].title, "Arquitectura");
}

#[test]
fn apply_edit_changes_the_first_note_with_the_id() {
    let notes = vec![
        note("dddddddd", "uno", "", 1),
        note("dddddddd", "dos", "", 2),
    ];
    let mut app = App::new(NoteStore::new(None), notes);
    assert_eq!(app.apply_edit("dddddddd", "# nuevo", Timestamp { secs: 9, nanos: 0 }), Some(0));
    assert_eq!(app.notes[0].title, "nuevo");
    assert_eq!(app.notes[1].title, "dos");
}

#[test]
fn delete_removes_every_note_with_the_id() {
    let notes = vec![
        note("dddddddd", "uno", "", 1),
        note("eeeeeeee", "dos", "", 2),
        note("dddddddd", "tres", "", 3),
    ];
    let mut app = App::new(NoteStore::new(None), notes);
    app.delete_selected();
    let ids: Vec<&str> = app.notes.iter().map(|n| n.id.as_str()).collect();
    assert_eq!(ids, vec!["eeeeeeee"]);
    assert_eq!(app.filtered_indices, vec![0]);
    assert_eq!(app.selected_idx, 0);
}

#[test]
fn selection_stays_on_a_shown_note_through_any_keys() {
    let mut app = sample_app();
    let keys = [
        Key::Down, Key::Down, Key::Down, Key::Char('/'), Key::Char('r'), Key::Char('u'),
        Key::Backspace, Key::Backspace, Key::Char('p'), Key::Esc, Key::Up, Key::Char('d'),
        Key::Other, Key::Down, Key::Char('/'), Key::Char('z'), Key::Backspace, Key::Enter,
        Key::Down, Key::Down,
    ];
    for k in keys {
        app.handle_key(k);
        assert!(app.filtered_indices.iter().all(|&i| i < app.notes.len()));
        if !app.filtered_indices.is_empty() {
            assert!(app.selected_idx < app.filtered_indices.len());
            assert!(app.selected_note().is_some());
        }
    }
}

#[test]
fn search_shows_exactly_the_matching_notes() {
    let app = sample_app();
    let matcher = SkimMatcherV2::default();
    for q in ["a", "rust", "pan", "xyz", "R"] {
        let shown = filter_notes(&app.notes, q);
        for (i, n) in app.notes.iter().enumerate() {
            let matches = matcher.fuzzy_match(&format!("{} {}", n.title, n.content), q).is_some();
            assert_eq!(shown.contains(&i), matches, "{:?} {}", q, i);
        }
    }
}

#[test]
fn new_note_is_selected_after_saving_without_search() {
    let mut app = sample_app();
    app.handle_key(Key::Down);
    app.handle_key(Key::Down);
    let n = note("ffffffff", "Nueva", "", 99);
    app.save_new_note(n);
    assert_eq!(app.selected_note().unwrap().id, "ffffffff");
}

#[test]
fn saving_during_a_search_keeps_the_query() {
    let mut app = sample_app();
    app.handle_key(Key::Char('/'));
    type_text(&mut app, "compras");
    app.handle_key(Key::Enter);
    app.save_new_note(note("ffffffff", "Compras extra", "", 99));
    assert_eq!(app.search_query, "compras");
    assert_eq!(app.selected_idx, 0);
    assert_eq!(app.filtered_indices.len(), 2);
}

#[test]
fn update_filter_twice_is_update_filter_once() {
    let mut app = sample_app();
    app.handle_key(Key::Char('/'));
    type_text(&mut app, "r");
    app.selected_idx = 7;
    app.update_filter();
    let shown = app.filtered_indices.clone();
    let sel = app.selected_idx;
    app.update_filter();
    assert_eq!(app.filtered_indices, shown);
    assert_eq!(app.selected_idx, sel);
}

#[test]
fn shown_positions_stay_distinct() {
    let mut app = sample_app();
    for k in [Key::Char('/'), Key::Char('a'), Key::Backspace, Key::Char('u'), Key::Enter] {
        app.handle_key(k);
        let mut seen = app.filtered_indices.clone();
        seen.sort();
        seen.dedup();
        assert_eq!(seen.len(), app.filtered_indices.len());
    }
}
