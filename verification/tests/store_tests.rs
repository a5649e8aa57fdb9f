use herdr_quicknotes::clock::Timestamp;
use herdr_quicknotes::note::Note;
use herdr_quicknotes::store::{join_path_str, ListedFile, NoteStore};
use std::path::{Path, PathBuf};

#[test]
fn store_lives_under_the_config_dir() {
    let s = NoteStore::new(Some("/home/u/.config".to_string()));
    assert_eq!(s.base_dir(), "/home/u/.config/herdr/quicknotes");
    let s = NoteStore::new(Some("/home/u/.config/".to_string()));
    assert_eq!(s.base_dir(), "/home/u/.config/herdr/quicknotes");
}

#[test]
fn store_falls_back_to_the_current_dir() {
    let s = NoteStore::new(None);
    assert_eq!(s.base_dir(), "./herdr/quicknotes");
}

#[test]
fn join_agrees_with_pathbuf() {
    let cases = [("/a/b", "c"), ("/a/b/", "c"), ("", "c"), ("a", "/abs"), ("a", ""), (".", "x.json")];
    for (b, c) in cases {
        let expected = PathBuf::from(b).join(c).to_string_lossy().to_string();
        assert_eq!(join_path_str(b, c), expected, "{:?} + {:?}", b, c);
    }
}

#[test]
fn note_path_is_id_dot_json_in_the_dir() {
    let s = NoteStore::new(Some("/cfg".to_string()));
    assert_eq!(s.note_path("1a2b3c4d"), Some("/cfg/herdr/quicknotes/1a2b3c4d.json".to_string()));
}

#[test]
fn note_files_are_the_json_ones() {
    assert!(NoteStore::is_note_file("1a2b3c4d.json"));
    assert!(NoteStore::is_note_file("..json"));
    assert!(!NoteStore::is_note_file(".json"));
    assert!(!NoteStore::is_note_file("json"));
    assert!(!NoteStore::is_note_file("a.JSON"));
    assert!(!NoteStore::is_note_file("a.json.bak"));
    assert!(!NoteStore::is_note_file("a.jsonl"));
    assert!(!NoteStore::is_note_file("notes.txt"));
}

#[test]
fn note_files_agree_with_path_extension() {
    let names = ["a.json", ".json", "..json", "a.b.json", "a.json.", "json", "x.jso", "ñ.json", ".a.json", "a..json"];
    for n in names {
        let expected = Path::new("/d").join(n).extension().and_then(|s| s.to_str()) == Some("json");
        assert_eq!(NoteStore::is_note_file(n), expected, "{:?}", n);
    }
}

fn note_at(id: &str, secs: i64, nanos: u32) -> Note {
    Note::new(id, Timestamp { secs, nanos }, id.to_string(), String::new(), Vec::new())
}

fn file(name: &str, note: Option<Note>) -> ListedFile {
    ListedFile { file_name: name.to_string(), note }
}

#[test]
fn list_gives_newest_first_and_skips_other_files() {
    let s = NoteStore::new(None);
    let files = vec![
        file("aaaaaaaa.json", Some(note_at("aaaaaaaa", 10, 0))),
        file("readme.txt", Some(note_at("tttttttt", 99, 0))),
        file("bbbbbbbb.json", Some(note_at("bbbbbbbb", 30, 0))),
        file("broken.json", None),
        file("cccccccc.json", Some(note_at("cccccccc", 10, 500))),
        file("dddddddd.json", Some(note_at("dddddddd", 30, 0))),
    ];
    let ids: Vec<String> = s.list(files).into_iter().map(|n| n.id).collect();
    assert_eq!(ids, vec!["bbbbbbbb", "dddddddd", "cccccccc", "aaaaaaaa"]);
}

#[test]
fn list_orders_a_leap_second_before_the_next_second() {
    let s = NoteStore::new(None);
    let files = vec![
        file("aaaaaaaa.json", Some(note_at("aaaaaaaa", 60, 0))),
        file("bbbbbbbb.json", Some(note_at("bbbbbbbb", 59, 1_500_000_000))),
    ];
    let ids: Vec<String> = s.list(files).into_iter().map(|n| n.id).collect();
    assert_eq!(ids, vec!["aaaaaaaa", "bbbbbbbb"]);
}

#[test]
fn saved_note_file_is_listed() {
    let uuid = uuid::Uuid::new_v4().to_string();
    let n = Note::new(&uuid, Timestamp { secs: 1, nanos: 0 }, "t".to_string(), "c".to_string(), Vec::new());
    let name = format!("{}.json", n.id);
    assert!(NoteStore::is_note_file(&name));
}

#[test]
fn distinct_ids_get_distinct_paths() {
    let s = NoteStore::new(Some("/cfg".to_string()));
    let ids = ["a", "b", "ab", "a.json", "..", "ab..cd", "1a2b3c4d"];
    for i in ids {
        assert!(s.note_path(i).is_some(), "{:?}", i);
        for j in ids {
            if i != j {
                assert_ne!(s.note_path(i), s.note_path(j), "{:?} {:?}", i, j);
            }
        }
    }
}

#[test]
fn ids_that_leave_the_notes_dir_get_no_path() {
    let s = NoteStore::new(Some("/cfg".to_string()));
    for id in ["", "/abs", "a/b", "../x", "/cfg/herdr/quicknotes/a", "x/"] {
        assert_eq!(s.note_path(id), None, "{:?}", id);
    }
}

#[test]
fn a_saved_note_is_listed_again() {
    let s = NoteStore::new(None);
    let n = note_at("abcdef01", 42, 0);
    let files = vec![
        file("zzzzzzzz.json", Some(note_at("zzzzzzzz", 50, 0))),
        file("abcdef01.json", Some(note_at("abcdef01", 42, 0))),
    ];
    let listed = s.list(files);
    assert!(listed.iter().any(|m| m.id == n.id && m.updated_at == n.updated_at && m.title == n.title));
}

#[test]
fn a_plain_id_is_stored_directly_in_the_dir() {
    let s = NoteStore::new(Some("/cfg".to_string()));
    let p = s.note_path("ab..cd").unwrap();
    assert_eq!(p, "/cfg/herdr/quicknotes/ab..cd.json");
    assert_eq!(Path::new(&p).parent().unwrap(), Path::new("/cfg/herdr/quicknotes"));
}
