use vstd::prelude::*;
use vstd::string::*;
use crate::clock::Timestamp;
use crate::note::{Note, clipboard_seq, edited_content, edited_title, parse_edited};
use crate::search::{
    all_positions, filter_notes, is_filter_of, lemma_filter_shows_notes,
    lemma_filter_unique, lemma_matched_positions_bounded, matched_positions,
    note_score, note_scores, score_at,
};
use crate::order::{keeps_ties_in_order, keys_descending, rearranged_by};
use crate::store::NoteStore;
use crate::text::{pop_char, push_char, trim, trimmed};

verus! {

broadcast use vstd::string::group_string_axioms;

/// What the keyboard is being used for.
#[derive(Clone, Copy, Debug, PartialEq, Eq, Structural)]
pub enum InputMode {
    Normal,
    Search,
    NewTitle,
    NewContent,
    ConfirmDelete,
}

/// A key press, as far as the notes screen tells keys apart.
#[derive(Clone, Copy, Debug, PartialEq, Eq, Structural)]
pub enum Key {
    Char(char),
    Enter,
    Esc,
    Backspace,
    Up,
    Down,
    Other,
}

/// Work that a key press asks of the caller, outside the screen's state.
#[derive(Clone, Copy, Debug, PartialEq, Eq, Structural)]
pub enum Action {
    Nothing,
    CopySelected,
    EditSelected,
    SaveNewNote,
    DeleteSelected,
}

/// How putting a note on the clipboard went.
pub enum CopyOutcome {
    Copied,
    /// No clipboard could be opened; the text says why.
    Unavailable(String),
    /// The clipboard refused the text; the text says why.
    Failed(String),
}

/// The state of the notes screen.
pub struct App {
    pub store: NoteStore,
    pub notes: Vec<Note>,
    pub filtered_indices: Vec<usize>,
    pub selected_idx: usize,
    pub input_mode: InputMode,
    pub search_query: String,
    pub new_title: String,
    pub new_content: String,
    pub status_msg: Option<String>,
    pub should_quit: bool,
}

/// The title of a new note: what was typed without surrounding white space,
/// or the default title when nothing is left.
pub open spec fn draft_title(typed: Seq<char>) -> Seq<char> {
    if trimmed(typed).len() == 0 {
        "Nota rápida"@
    } else {
        trimmed(typed)
    }
}

/// The notes whose identifier differs from `id`, in their order.
pub open spec fn without_id(notes: Seq<Note>, id: Seq<char>) -> Seq<Note>
    decreases notes.len(),
{
    if notes.len() == 0 {
        Seq::empty()
    } else {
        let rest = without_id(notes.drop_last(), id);
        if notes.last().id@ != id {
            rest.push(notes.last())
        } else {
            rest
        }
    }
}

/// The message after a new note was stored.
pub open spec fn status_saved() -> Seq<char> {
    "✓ Nueva nota guardada"@
}

/// The message after a note was deleted.
pub open spec fn status_deleted() -> Seq<char> {
    "✓ Nota eliminada"@
}

/// The message after an edited note was stored.
pub open spec fn status_updated() -> Seq<char> {
    "✓ Nota actualizada"@
}

/// The message that reports a clipboard outcome.
pub open spec fn copy_status(outcome: CopyOutcome) -> Seq<char> {
    match outcome {
        CopyOutcome::Copied => "✓ Nota copiada al portapapeles"@,
        CopyOutcome::Unavailable(e) => "Clipboard no disponible: "@ + e@,
        CopyOutcome::Failed(e) => "Error al copiar: "@ + e@,
    }
}

/// `b` is `a` with perhaps another status message.
pub open spec fn same_but_status(a: App, b: App) -> bool {
    b == App { status_msg: b.status_msg, ..a }
}

/// The status message of `a` is `msg`.
pub open spec fn status_is(a: App, msg: Seq<char>) -> bool {
    a.status_msg matches Some(m) && m@ == msg
}

/// What `update_filter` does: the shown notes recomputed for the query,
/// which stays as it was.
pub open spec fn filter_effect(a: App, b: App) -> bool {
    &&& refiltered(a, b, a.input_mode, a.search_query@)
    &&& b.search_query == a.search_query
}

/// What `save_new_note` does with `note`.
pub open spec fn saved_effect(a: App, b: App, note: Note) -> bool {
    &&& b.notes@ == seq![note] + a.notes@
    &&& b.store == a.store
    &&& b.search_query == a.search_query
    &&& is_filter_of(b.notes@, b.search_query@, b.filtered_indices@)
    &&& b.selected_idx == 0
    &&& b.input_mode == InputMode::Normal
    &&& b.new_title@.len() == 0
    &&& b.new_content@.len() == 0
    &&& status_is(b, status_saved())
    &&& b.should_quit == a.should_quit
}

/// What `delete_selected` does.
pub open spec fn deleted_effect(a: App, b: App) -> bool {
    &&& match selected_position(a) {
        Some(p) => {
            &&& b.notes@ == without_id(
                a.notes@,
                a.notes@[p].id@,
            )
            &&& refiltered(
                (App { notes: b.notes, status_msg: b.status_msg, ..a }),
                b,
                InputMode::Normal,
                a.search_query@,
            )
            &&& b.search_query == a.search_query
            &&& status_is(b, status_deleted())
        },
        None => b == (App { input_mode: InputMode::Normal, ..a }),
    }
}

/// What `copy_current_note` does with `outcome`.
pub open spec fn copied_effect(a: App, b: App, outcome: CopyOutcome) -> bool {
    &&& selected_position(a) is None ==> b == a
    &&& selected_position(a) is Some ==> {
        &&& same_but_status(a, b)
        &&& status_is(b, copy_status(outcome))
    }
}

/// What `apply_edit` does for `note_id`, the `edited` text and `now`, giving `r`.
pub open spec fn edited_effect(
    a: App,
    b: App,
    note_id: Seq<char>,
    edited: Seq<char>,
    now: Timestamp,
    r: Option<usize>,
) -> bool {
    &&& match r {
        Some(k) => {
            &&& k < a.notes@.len()
            &&& a.notes@[k as int].id@ == note_id
            &&& forall|j: int| 0 <= j < k ==> (#[trigger] a.notes@[j]).id@ != note_id
            &&& b.notes@.len() == a.notes@.len()
            &&& forall|j: int|
                0 <= j < a.notes@.len() && j != k ==> #[trigger] b.notes@[j]
                    == a.notes@[j]
            &&& b.notes@[k as int].id == a.notes@[k as int].id
            &&& b.notes@[k as int].created_at == a.notes@[k as int].created_at
            &&& b.notes@[k as int].tags == a.notes@[k as int].tags
            &&& b.notes@[k as int].title@ == edited_title(edited)
            &&& b.notes@[k as int].content@ == edited_content(edited)
            &&& b.notes@[k as int].updated_at == now
            &&& b == (App { notes: b.notes, ..a })
        },
        None => {
            &&& forall|j: int|
                0 <= j < a.notes@.len() ==> (#[trigger] a.notes@[j]).id@
                    != note_id
            &&& b == a
        }
    }
}

/// What `note_updated` does.
pub open spec fn updated_effect(a: App, b: App) -> bool {
    &&& same_but_status(a, b)
    &&& status_is(b, status_updated())
}

/// The selection kept after the list of shown notes changed: moved back to
/// the last shown note when it fell past the end.
pub open spec fn clamped(sel: usize, len: int) -> usize {
    if sel >= len && len > 0 {
        (len - 1) as usize
    } else {
        sel
    }
}

/// The position in the notes of the selected note, if a note is selected.
pub open spec fn selected_position(a: App) -> Option<int> {
    let f = a.filtered_indices@;
    if f.len() > 0 && a.selected_idx < f.len() && f[a.selected_idx as int] < a.notes@.len() {
        Some(f[a.selected_idx as int] as int)
    } else {
        None
    }
}

/// `b` is `a` with the given mode and query, the shown notes recomputed for
/// that query and the selection kept within them.
pub open spec fn refiltered(a: App, b: App, mode: InputMode, query: Seq<char>) -> bool {
    &&& b.store == a.store
    &&& b.notes == a.notes
    &&& b.new_title == a.new_title
    &&& b.new_content == a.new_content
    &&& b.status_msg == a.status_msg
    &&& b.should_quit == a.should_quit
    &&& b.input_mode == mode
    &&& b.search_query@ == query
    &&& is_filter_of(b.notes@, query, b.filtered_indices@)
    &&& b.selected_idx == clamped(a.selected_idx, b.filtered_indices@.len() as int)
}

/// A text after a backspace: its last character gone, if it had one.
pub open spec fn backspaced(s: Seq<char>) -> Seq<char> {
    if s.len() > 0 {
        s.drop_last()
    } else {
        s
    }
}

/// The selection after moving down: one further when a shown note follows.
pub open spec fn moved_down(a: App) -> usize {
    if a.filtered_indices@.len() > 0 && a.selected_idx + 1 < a.filtered_indices@.len() {
        (a.selected_idx + 1) as usize
    } else {
        a.selected_idx
    }
}

/// The selection after moving up: one back unless at the top.
pub open spec fn moved_up(a: App) -> usize {
    if a.selected_idx > 0 {
        (a.selected_idx - 1) as usize
    } else {
        a.selected_idx
    }
}

/// What a key press does to the screen `a`, leaving `b` and asking for
/// `action`.
pub open spec fn key_effect(a: App, b: App, key: Key, action: Action) -> bool {
    match a.input_mode {
        InputMode::Normal => {
            if key == Key::Char('q') || key == Key::Esc {
                action == Action::Nothing && b == App { should_quit: true, ..a }
            } else if key == Key::Char('j') || key == Key::Down {
                action == Action::Nothing && b == App { selected_idx: moved_down(a), ..a }
            } else if key == Key::Char('k') || key == Key::Up {
                action == Action::Nothing && b == App { selected_idx: moved_up(a), ..a }
            } else if key == Key::Char('/') {
                action == Action::Nothing && refiltered(a, b, InputMode::Search, Seq::empty())
            } else if key == Key::Char('n') {
                &&& action == Action::Nothing
                &&& b == App {
                    input_mode: InputMode::NewTitle,
                    new_title: b.new_title,
                    new_content: b.new_content,
                    ..a
                }
                &&& b.new_title@.len() == 0
                &&& b.new_content@.len() == 0
            } else if key == Key::Char('y') {
                action == Action::CopySelected && b == a
            } else if key == Key::Char('e') {
                action == Action::EditSelected && b == a
            } else if key == Key::Char('d') || key == Key::Char('x') {
                &&& action == Action::Nothing
                &&& b == App {
                    input_mode: if selected_position(a) is Some {
                        InputMode::ConfirmDelete
                    } else {
                        InputMode::Normal
                    },
                    ..a
                }
            } else {
                action == Action::Nothing && b == a
            }
        },
        InputMode::Search => {
            &&& action == Action::Nothing
            &&& match key {
                Key::Esc | Key::Enter => b == App { input_mode: InputMode::Normal, ..a },
                Key::Backspace => refiltered(a, b, InputMode::Search, backspaced(a.search_query@)),
                Key::Char(c) => refiltered(a, b, InputMode::Search, a.search_query@.push(c)),
                _ => b == a,
            }
        },
        InputMode::NewTitle => {
            &&& action == Action::Nothing
            &&& match key {
                Key::Esc => b == App { input_mode: InputMode::Normal, ..a },
                Key::Enter => b == App { input_mode: InputMode::NewContent, ..a },
                Key::Backspace => b == App { new_title: b.new_title, ..a } && b.new_title@
                    == backspaced(a.new_title@),
                Key::Char(c) => b == App { new_title: b.new_title, ..a } && b.new_title@
                    == a.new_title@.push(c),
                _ => b == a,
            }
        },
        InputMode::NewContent => match key {
            Key::Esc => action == Action::Nothing && b == App {
                input_mode: InputMode::Normal,
                ..a
            },
            Key::Enter => action == Action::SaveNewNote && b == a,
            Key::Backspace => action == Action::Nothing && b == App {
                new_content: b.new_content,
                ..a
            } && b.new_content@ == backspaced(a.new_content@),
            Key::Char(c) => action == Action::Nothing && b == App {
                new_content: b.new_content,
                ..a
            } && b.new_content@ == a.new_content@.push(c),
            _ => action == Action::Nothing && b == a,
        },
        InputMode::ConfirmDelete => {
            if key == Key::Char('y') || key == Key::Enter {
                action == Action::DeleteSelected && b == a
            } else {
                action == Action::Nothing && b == App { input_mode: InputMode::Normal, ..a }
            }
        },
    }
}

impl App {
    /// A screen over the notes of `store`, as the store listed them, showing
    /// all of them with the first selected.
    pub fn new(store: NoteStore, notes: Vec<Note>) -> (a: App)
        ensures
            a.store == store,
            a.notes == notes,
            is_filter_of(notes@, Seq::empty(), a.filtered_indices@),
            a.selected_idx == 0,
            a.input_mode == InputMode::Normal,
            a.search_query@.len() == 0,
            a.new_title@.len() == 0,
            a.new_content@.len() == 0,
            a.status_msg is None,
            a.should_quit == false,
            is_consistent(a),
    {
        let mut app = App {
            store,
            notes,
            filtered_indices: Vec::new(),
            selected_idx: 0,
            input_mode: InputMode::Normal,
            search_query: String::new(),
            new_title: String::new(),
            new_content: String::new(),
            status_msg: None,
            should_quit: false,
        };
        app.update_filter();
        app
    }

    /// Recomputes which notes are shown for the current query, and keeps the
    /// selection within them.
    pub fn update_filter(&mut self)
        ensures
            filter_effect(*old(self), *final(self)),
            is_consistent(*final(self)),
    {
        let shown = filter_notes(&self.notes, self.search_query.as_str());
        self.filtered_indices = shown;
        if self.selected_idx >= self.filtered_indices.len() && !self.filtered_indices.is_empty() {
            self.selected_idx = self.filtered_indices.len() - 1;
        }
        proof {
            assert(self.notes@.len() == self.notes.len());
            lemma_filter_shows_notes(self.notes@, self.search_query@, self.filtered_indices@);
        }
    }

    /// The selected note, if one is selected.
    pub fn selected_note(&self) -> (r: Option<&Note>)
        ensures
            match selected_position(*self) {
                Some(p) => r matches Some(n) && *n == self.notes@[p],
                None => r is None,
            },
    {
        if self.filtered_indices.is_empty() {
            None
        } else if self.selected_idx < self.filtered_indices.len() {
            let i = self.filtered_indices[self.selected_idx];
            if i < self.notes.len() {
                Some(&self.notes[i])
            } else {
                None
            }
        } else {
            None
        }
    }

    /// The title and body that a new note gets from what was typed: both
    /// without surrounding white space, and a default title when nothing is
    /// left of it.
    pub fn draft_fields(&self) -> (r: (String, String))
        ensures
            r.0@ == draft_title(self.new_title@),
            r.1@ == trimmed(self.new_content@),
    {
        let t = trim(self.new_title.as_str());
        let title = if t.as_str().is_empty() {
            String::from_str("Nota rápida")
        } else {
            t
        };
        proof {
            if t@.len() == 0 {
                assert(t@ =~= Seq::<char>::empty());
            }
        }
        let content = trim(self.new_content.as_str());
        (title, content)
    }

    /// A new note made from what was typed, with no tags, its identifier
    /// taken from `uuid_text` and stamped with `now`.
    pub fn draft_note(&self, uuid_text: &str, now: Timestamp) -> (n: Note)
        requires
            uuid_text@.len() >= 8,
        ensures
            n.title@ == draft_title(self.new_title@),
            n.content@ == trimmed(self.new_content@),
            n.tags@.len() == 0,
            n.id@ == uuid_text@.take(8),
            n.created_at == now,
            n.updated_at == now,
    {
        let (title, content) = self.draft_fields();
        Note::new(uuid_text, now, title, content, Vec::new())
    }

    /// Puts a note that was just stored at the top of the list, clears what
    /// was typed, goes back to browsing with the first shown note selected,
    /// and says so.
    pub fn save_new_note(&mut self, note: Note)
        ensures
            saved_effect(*old(self), *final(self), note),
            is_consistent(*final(self)),
    {
        let ghost before = self.notes@;
        self.notes.insert(0, note);
        assert(self.notes@ =~= seq![note] + before);
        self.new_title = String::new();
        self.new_content = String::new();
        self.input_mode = InputMode::Normal;
        self.update_filter();
        self.selected_idx = 0;
        self.status_msg = Some(String::from_str("✓ Nueva nota guardada"));
        proof {
            assert(self.notes@.len() == self.notes.len());
            lemma_first_selected_consistent(*self);
        }
    }

    /// The identifier of the selected note, if one is selected.
    pub fn selected_id(&self) -> (r: Option<String>)
        ensures
            match selected_position(*self) {
                Some(p) => r matches Some(id) && id@ == self.notes@[p].id@,
                None => r is None,
            },
    {
        match self.selected_note() {
            Some(n) => Some(n.id.clone()),
            None => None,
        }
    }

    /// Drops the selected note, and every other note with its identifier,
    /// from the list once it was removed from the store, and goes back to
    /// browsing.
    pub fn delete_selected(&mut self)
        ensures
            deleted_effect(*old(self), *final(self)),
            old(self).selected_idx < old(self).filtered_indices@.len()
                && old(self).filtered_indices@[old(self).selected_idx as int] < old(self).notes@.len()
                ==> final(self).notes@ == without_id(
                old(self).notes@,
                old(self).notes@[old(self).filtered_indices@[old(self).selected_idx as int] as int].id@,
            ),
            is_consistent(*old(self)) ==> is_consistent(*final(self)),
    {
        match self.selected_id() {
            Some(id) => {
                let mut all: Vec<Note> = Vec::new();
                std::mem::swap(&mut all, &mut self.notes);
                let ghost orig = all@;
                let n = all.len();
                let mut kept: Vec<Note> = Vec::new();
                let mut i: usize = 0;
                while i < n
                    invariant
                        n == orig.len(),
                        i <= n,
                        all@ == orig.subrange(i as int, n as int),
                        kept@ == without_id(orig.take(i as int), id@),
                    decreases n - i,
                {
                    let nt = all.remove(0);
                    proof {
                        assert(orig.take(i + 1).drop_last() =~= orig.take(i as int));
                        assert(orig.take(i + 1).last() == nt);
                    }
                    if nt.id != id {
                        kept.push(nt);
                    }
                    i = i + 1;
                }
                assert(orig.take(n as int) =~= orig);
                self.notes = kept;
                self.status_msg = Some(String::from_str("✓ Nota eliminada"));
                self.input_mode = InputMode::Normal;
                self.update_filter();
            },
            None => {
                self.input_mode = InputMode::Normal;
            },
        }
    }

    /// The text to put on the clipboard for the selected note, if one is
    /// selected.
    pub fn copy_text(&self) -> (r: Option<String>)
        ensures
            match selected_position(*self) {
                Some(p) => r matches Some(t) && t@ == clipboard_seq(
                    self.notes@[p].title@,
                    self.notes@[p].content@,
                ),
                None => r is None,
            },
    {
        match self.selected_note() {
            Some(n) => Some(n.clipboard_text()),
            None => None,
        }
    }

    /// Reports how copying the selected note to the clipboard went; with no
    /// note selected nothing was copied and nothing changes.
    pub fn copy_current_note(&mut self, outcome: CopyOutcome)
        ensures
            copied_effect(*old(self), *final(self), outcome),
            is_consistent(*old(self)) ==> is_consistent(*final(self)),
    {
        if self.selected_note().is_none() {
            return;
        }
        let msg = match outcome {
            CopyOutcome::Copied => String::from_str("✓ Nota copiada al portapapeles"),
            CopyOutcome::Unavailable(e) => {
                let mut m = String::from_str("Clipboard no disponible: ");
                m.append(e.as_str());
                m
            },
            CopyOutcome::Failed(e) => {
                let mut m = String::from_str("Error al copiar: ");
                m.append(e.as_str());
                m
            },
        };
        self.status_msg = Some(msg);
    }

    /// Takes back what the editor saved for the note `note_id`: the first note
    /// with that identifier gets the title and body read from `edited` and
    /// `now` as its change time. Gives the position of that note, or `None`,
    /// changing nothing, when no note has that identifier.
    pub fn apply_edit(&mut self, note_id: &str, edited: &str, now: Timestamp) -> (r: Option<usize>)
        ensures
            edited_effect(*old(self), *final(self), note_id@, edited@, now, r),
            is_consistent(*old(self)) ==> is_consistent(*final(self)),
    {
        let n = self.notes.len();
        let target = String::from_str(note_id);
        let mut k: usize = 0;
        while k < n && self.notes[k].id != target
            invariant
                n == self.notes@.len(),
                target@ == note_id@,
                k <= n,
                forall|j: int| 0 <= j < k ==> (#[trigger] self.notes@[j]).id@ != note_id@,
            decreases n - k,
        {
            k = k + 1;
        }
        if k == n {
            return None;
        }
        let (title, content) = parse_edited(edited);
        let ghost before = self.notes@;
        let mut nt = self.notes.remove(k);
        nt.title = title;
        nt.content = content;
        nt.updated_at = now;
        self.notes.insert(k, nt);
        proof {
            assert forall|j: int| 0 <= j < n && j != k implies #[trigger] self.notes@[j] == before[j] by {
                if j < k {
                    assert(self.notes@[j] == before.remove(k as int)[j]);
                } else {
                    assert(self.notes@[j] == before.remove(k as int)[j - 1]);
                }
            }
        }
        Some(k)
    }

    /// Says that the edited note was stored.
    pub fn note_updated(&mut self)
        ensures
            updated_effect(*old(self), *final(self)),
            is_consistent(*old(self)) ==> is_consistent(*final(self)),
    {
        self.status_msg = Some(String::from_str("✓ Nota actualizada"));
    }

    /// Applies a key press to the screen and says what else it asks for.
    pub fn handle_key(&mut self, key: Key) -> (action: Action)
        ensures
            key_effect(*old(self), *final(self), key, action),
            is_consistent(*old(self)) ==> is_consistent(*final(self)),
            old(self).input_mode == InputMode::Normal && (key == Key::Char('j') || key == Key::Down)
                ==> action == Action::Nothing && *final(self) == (App {
                selected_idx: if old(self).selected_idx + 1 < old(self).filtered_indices@.len() {
                    (old(self).selected_idx + 1) as usize
                } else {
                    old(self).selected_idx
                },
                ..*old(self)
            }),
            old(self).input_mode == InputMode::Normal && (key == Key::Char('k') || key == Key::Up)
                ==> action == Action::Nothing && *final(self) == (App {
                selected_idx: if old(self).selected_idx > 0 {
                    (old(self).selected_idx - 1) as usize
                } else {
                    old(self).selected_idx
                },
                ..*old(self)
            }),
            old(self).input_mode == InputMode::Search ==> match key {
                Key::Backspace => {
                    &&& action == Action::Nothing
                    &&& final(self).input_mode == InputMode::Search
                    &&& final(self).notes == old(self).notes
                    &&& old(self).search_query@.len() > 0 ==> final(self).search_query@
                        == old(self).search_query@.drop_last()
                    &&& old(self).search_query@.len() == 0 ==> final(self).search_query@.len() == 0
                    &&& is_filter_of(final(self).notes@, final(self).search_query@, final(self).filtered_indices@)
                },
                Key::Char(c) => {
                    &&& action == Action::Nothing
                    &&& final(self).input_mode == InputMode::Search
                    &&& final(self).notes == old(self).notes
                    &&& final(self).search_query@ == old(self).search_query@.push(c)
                    &&& is_filter_of(final(self).notes@, final(self).search_query@, final(self).filtered_indices@)
                },
                _ => true,
            },
            old(self).input_mode == InputMode::NewTitle && key == Key::Backspace ==> {
                &&& action == Action::Nothing
                &&& *final(self) == (App { new_title: final(self).new_title, ..*old(self) })
                &&& old(self).new_title@.len() > 0 ==> final(self).new_title@ == old(self).new_title@.drop_last()
                &&& old(self).new_title@.len() == 0 ==> final(self).new_title@.len() == 0
            },
            old(self).input_mode == InputMode::NewContent && key == Key::Backspace ==> {
                &&& action == Action::Nothing
                &&& *final(self) == (App { new_content: final(self).new_content, ..*old(self) })
                &&& old(self).new_content@.len() > 0 ==> final(self).new_content@
                    == old(self).new_content@.drop_last()
                &&& old(self).new_content@.len() == 0 ==> final(self).new_content@.len() == 0
            },
    {
        let ghost before = *self;
        let action = match self.input_mode {
            InputMode::Normal => match key {
                Key::Char('q') | Key::Esc => {
                    self.should_quit = true;
                    Action::Nothing
                },
                Key::Char('j') | Key::Down => {
                    if !self.filtered_indices.is_empty() && self.selected_idx
                        < self.filtered_indices.len() - 1 {
                        self.selected_idx = self.selected_idx + 1;
                    }
                    Action::Nothing
                },
                Key::Char('k') | Key::Up => {
                    if self.selected_idx > 0 {
                        self.selected_idx = self.selected_idx - 1;
                    }
                    Action::Nothing
                },
                Key::Char('/') => {
                    self.input_mode = InputMode::Search;
                    self.search_query = String::new();
                    self.update_filter();
                    Action::Nothing
                },
                Key::Char('n') => {
                    self.input_mode = InputMode::NewTitle;
                    self.new_title = String::new();
                    self.new_content = String::new();
                    Action::Nothing
                },
                Key::Char('y') => Action::CopySelected,
                Key::Char('e') => Action::EditSelected,
                Key::Char('d') | Key::Char('x') => {
                    if self.selected_note().is_some() {
                        self.input_mode = InputMode::ConfirmDelete;
                    }
                    Action::Nothing
                },
                _ => Action::Nothing,
            },
            InputMode::Search => {
                match key {
                    Key::Esc | Key::Enter => {
                        self.input_mode = InputMode::Normal;
                    },
                    Key::Backspace => {
                        pop_char(&mut self.search_query);
                        self.update_filter();
                    },
                    Key::Char(c) => {
                        push_char(&mut self.search_query, c);
                        self.update_filter();
                    },
                    _ => {},
                }
                Action::Nothing
            },
            InputMode::NewTitle => {
                match key {
                    Key::Esc => {
                        self.input_mode = InputMode::Normal;
                    },
                    Key::Enter => {
                        self.input_mode = InputMode::NewContent;
                    },
                    Key::Backspace => {
                        pop_char(&mut self.new_title);
                    },
                    Key::Char(c) => {
                        push_char(&mut self.new_title, c);
                    },
                    _ => {},
                }
                Action::Nothing
            },
            InputMode::NewContent => match key {
                Key::Esc => {
                    self.input_mode = InputMode::Normal;
                    Action::Nothing
                },
                Key::Enter => Action::SaveNewNote,
                Key::Backspace => {
                    pop_char(&mut self.new_content);
                    Action::Nothing
                },
                Key::Char(c) => {
                    push_char(&mut self.new_content, c);
                    Action::Nothing
                },
                _ => Action::Nothing,
            },
            InputMode::ConfirmDelete => match key {
                Key::Char('y') | Key::Enter => Action::DeleteSelected,
                _ => {
                    self.input_mode = InputMode::Normal;
                    Action::Nothing
                },
            },
        };
        proof {
            if is_consistent(before) {
                assert(before.notes@.len() == before.notes.len());
                lemma_keys_keep_consistency(before, *self, key, action);
            }
        }
        action
    }
}


/// The program that edits a note: the `EDITOR` setting, else the `VISUAL`
/// setting, else `nano`.
pub fn choose_editor(editor: Option<String>, visual: Option<String>) -> (r: String)
    ensures
        r@ == match editor {
            Some(e) => e@,
            None => match visual {
                Some(v) => v@,
                None => "nano"@,
            },
        },
{
    match editor {
        Some(e) => e,
        None => match visual {
            Some(v) => v,
            None => String::from_str("nano"),
        },
    }
}

/// The screen's own consistency: every shown position is a note, no note is
/// shown twice, and when any note is shown the selection is one of them.
pub open spec fn is_consistent(a: App) -> bool {
    &&& forall|k: int|
        0 <= k < a.filtered_indices@.len() ==> #[trigger] a.filtered_indices@[k] < a.notes@.len()
    &&& forall|k1: int, k2: int|
        0 <= k1 < k2 < a.filtered_indices@.len() ==> a.filtered_indices@[k1]
            != a.filtered_indices@[k2]
    &&& a.filtered_indices@.len() > 0 ==> a.selected_idx < a.filtered_indices@.len()
}

/// A consistent screen stays consistent whatever key is pressed, so that a
/// note is selected whenever any is shown.
pub proof fn lemma_keys_keep_consistency(a: App, b: App, key: Key, action: Action)
    requires
        is_consistent(a),
        key_effect(a, b, key, action),
        a.notes@.len() <= usize::MAX,
    ensures
        is_consistent(b),
        b.filtered_indices@.len() > 0 ==> selected_position(b) is Some,
{
    if b.filtered_indices != a.filtered_indices {
        lemma_filter_shows_notes(b.notes@, b.search_query@, b.filtered_indices@);
    }
}

/// A note is deleted only from the confirmation dialog, which only `d` or
/// `x` over a selected note opens; any key there but `y` and Enter cancels.
pub proof fn lemma_delete_needs_confirmation(a: App, b: App, key: Key, action: Action)
    requires
        key_effect(a, b, key, action),
    ensures
        action == Action::DeleteSelected ==> a.input_mode == InputMode::ConfirmDelete && (key
            == Key::Char('y') || key == Key::Enter),
        b.input_mode == InputMode::ConfirmDelete && a.input_mode != InputMode::ConfirmDelete
            ==> a.input_mode == InputMode::Normal && (key == Key::Char('d') || key == Key::Char(
            'x',
        )) && selected_position(a) is Some,
        a.input_mode == InputMode::ConfirmDelete && action != Action::DeleteSelected
            ==> b.input_mode == InputMode::Normal,
{
}

/// On a consistent screen a note is selected exactly when some note is shown.
pub proof fn lemma_consistent_has_selection(a: App)
    requires
        is_consistent(a),
    ensures
        selected_position(a) is Some <==> a.filtered_indices@.len() > 0,
{
}

/// Recomputing the shown notes a second time changes nothing: `b` is what
/// `update_filter` made of `a`, and `c` what a second `update_filter` made of
/// `b`.
pub proof fn lemma_update_filter_idempotent(a: App, b: App, c: App)
    requires
        filter_effect(a, b),
        filter_effect(b, c),
    ensures
        c.filtered_indices@ == b.filtered_indices@,
        c.selected_idx == b.selected_idx,
        c.store == b.store,
        c.notes == b.notes,
        c.input_mode == b.input_mode,
        c.search_query == b.search_query,
        c.new_title == b.new_title,
        c.new_content == b.new_content,
        c.status_msg == b.status_msg,
        c.should_quit == b.should_quit,
{
    lemma_filter_unique(b.notes@, b.search_query@, b.filtered_indices@, c.filtered_indices@);
}

/// The screen that `App::new` builds shows every note in list order.
pub proof fn lemma_new_screen_shows_all(a: App)
    requires
        is_filter_of(a.notes@, Seq::empty(), a.filtered_indices@),
    ensures
        a.filtered_indices@ == all_positions(a.notes@.len()),
{
}

/// A search shows exactly the notes that the matcher scores for the query.
pub proof fn lemma_search_shows_matches(notes: Seq<Note>, query: Seq<char>, shown: Seq<usize>, i: usize)
    requires
        query.len() > 0,
        notes.len() <= usize::MAX,
        is_filter_of(notes, query, shown),
        i < notes.len(),
    ensures
        shown.contains(i) <==> note_score(notes[i as int], query) is Some,
{
    let scores = note_scores(notes, query);
    let m = matched_positions(scores);
    let key = score_at(scores);
    let p = choose|p: Seq<int>|
        #[trigger] rearranged_by(m, shown, p) && keys_descending(shown, key) && keeps_ties_in_order(
            shown,
            p,
            key,
        );
    lemma_matched_positions_exact(scores, i);
    if shown.contains(i) {
        let k = choose|k: int| 0 <= k < shown.len() && shown[k] == i;
        assert(shown[k] == m[p[k]]);
        assert(m.contains(i));
    }
    if note_score(notes[i as int], query) is Some {
        assert(scores[i as int] is Some);
        let j = choose|j: int| 0 <= j < m.len() && m[j] == i;
        crate::order::lemma_permutation_onto(p, m.len() as int, j);
        let k = choose|k: int| 0 <= k < p.len() && p[k] == j;
        assert(shown[k] == m[j]);
    }
}

proof fn lemma_matched_positions_exact(scores: Seq<Option<i64>>, i: usize)
    requires
        scores.len() <= usize::MAX,
        i < scores.len(),
    ensures
        matched_positions(scores).contains(i) <==> scores[i as int] is Some,
    decreases scores.len(),
{
    let d = scores.drop_last();
    let m = matched_positions(scores);
    if i < scores.len() - 1 {
        lemma_matched_positions_exact(d, i);
        lemma_matched_positions_bounded(d);
        let r = matched_positions(d);
        if m.contains(i) {
            let k = choose|k: int| 0 <= k < m.len() && m[k] == i;
            if k < r.len() {
                assert(r.contains(i));
            } else {
                assert(m[k] == scores.len() - 1);
            }
        }
        if r.contains(i) {
            let k = choose|k: int| 0 <= k < r.len() && r[k] == i;
            assert(m[k] == i);
        }
        assert(d[i as int] == scores[i as int]);
    } else {
        lemma_matched_positions_bounded(d);
        let r = matched_positions(d);
        if scores.last() is Some {
            assert(m[r.len() as int] == i);
        } else {
            if m.contains(i) {
                let k = choose|k: int| 0 <= k < m.len() && m[k] == i;
                assert(r[k] < d.len());
            }
        }
    }
}

/// Recomputing the shown notes leaves the screen consistent, whatever it was
/// before; so do storing a new note and deleting the selected one, which end
/// that way.
pub proof fn lemma_refilter_consistent(a: App, b: App, mode: InputMode, query: Seq<char>)
    requires
        refiltered(a, b, mode, query),
        b.notes@.len() <= usize::MAX,
    ensures
        is_consistent(b),
{
    lemma_filter_shows_notes(b.notes@, query, b.filtered_indices@);
}

/// A screen whose shown notes follow its query and whose first shown note is
/// selected is consistent: the state that `save_new_note` leaves.
pub proof fn lemma_first_selected_consistent(b: App)
    requires
        is_filter_of(b.notes@, b.search_query@, b.filtered_indices@),
        b.selected_idx == 0,
        b.notes@.len() <= usize::MAX,
    ensures
        is_consistent(b),
{
    lemma_filter_shows_notes(b.notes@, b.search_query@, b.filtered_indices@);
}

/// After a new note is stored with no search under way, it is the first note
/// and the selected one.
pub proof fn lemma_saved_note_selected(b: App, note: Note)
    requires
        b.search_query@.len() == 0,
        b.notes@.len() > 0,
        b.notes@[0] == note,
        b.selected_idx == 0,
        is_filter_of(b.notes@, b.search_query@, b.filtered_indices@),
    ensures
        selected_position(b) == Some(0int),
{
}

/// After the selected note is deleted, no note with its identifier remains.
pub proof fn lemma_deleted_id_gone(notes: Seq<Note>, id: Seq<char>)
    ensures
        forall|k: int| 0 <= k < without_id(notes, id).len() ==> (#[trigger] without_id(notes, id)[k]).id@ != id,
        without_id(notes, id).len() <= notes.len(),
    decreases notes.len(),
{
    if notes.len() > 0 {
        lemma_deleted_id_gone(notes.drop_last(), id);
        let r = without_id(notes.drop_last(), id);
        let w = without_id(notes, id);
        assert forall|k: int| 0 <= k < w.len() implies (#[trigger] w[k]).id@ != id by {
            if k < r.len() {
                assert(w[k] == r[k]);
            }
        }
    }
}


/// The notes without an identifier are the others, each kept: a note stays
/// exactly when its identifier differs, and nothing else comes in.
proof fn lemma_without_id_members(notes: Seq<Note>, id: Seq<char>)
    ensures
        forall|j: int|
            0 <= j < notes.len() && (#[trigger] notes[j]).id@ != id ==> without_id(notes, id).contains(
                notes[j],
            ),
        forall|k: int|
            0 <= k < without_id(notes, id).len() ==> notes.contains(#[trigger] without_id(notes, id)[k]),
    decreases notes.len(),
{
    if notes.len() > 0 {
        let d = notes.drop_last();
        lemma_without_id_members(d, id);
        let r = without_id(d, id);
        let w = without_id(notes, id);
        assert forall|j: int| 0 <= j < notes.len() && (#[trigger] notes[j]).id@ != id implies w.contains(
            notes[j],
        ) by {
            if j < d.len() {
                assert(d[j] == notes[j]);
                let k = choose|k: int| 0 <= k < r.len() && r[k] == d[j];
                assert(w[k] == r[k]);
            } else {
                assert(w[r.len() as int] == notes[j]);
            }
        }
        assert forall|k: int| 0 <= k < w.len() implies notes.contains(#[trigger] w[k]) by {
            if k < r.len() {
                assert(w[k] == r[k]);
                assert(d.contains(r[k]));
                let j = choose|j: int| 0 <= j < d.len() && d[j] == r[k];
                assert(notes[j] == d[j]);
            } else {
                assert(w[k] == notes[notes.len() - 1]);
            }
        }
    }
}

/// Deleting removes the selected note, the one at the selected place among
/// the shown notes: afterwards no note has its identifier, every note with
/// another identifier is still there, no note comes in, and the shown notes
/// follow the query again.
pub proof fn lemma_delete_drops_selected_note(a: App, b: App)
    requires
        deleted_effect(a, b),
        a.selected_idx < a.filtered_indices@.len(),
        a.filtered_indices@[a.selected_idx as int] < a.notes@.len(),
    ensures
        ({
            let id = a.notes@[a.filtered_indices@[a.selected_idx as int] as int].id@;
            &&& forall|k: int| 0 <= k < b.notes@.len() ==> (#[trigger] b.notes@[k]).id@ != id
            &&& forall|j: int|
                0 <= j < a.notes@.len() && (#[trigger] a.notes@[j]).id@ != id ==> b.notes@.contains(
                    a.notes@[j],
                )
            &&& forall|k: int| 0 <= k < b.notes@.len() ==> a.notes@.contains(#[trigger] b.notes@[k])
        }),
        b.input_mode == InputMode::Normal,
        b.search_query == a.search_query,
        is_filter_of(b.notes@, b.search_query@, b.filtered_indices@),
{
    let id = a.notes@[a.filtered_indices@[a.selected_idx as int] as int].id@;
    lemma_deleted_id_gone(a.notes@, id);
    lemma_without_id_members(a.notes@, id);
}

/// The note that deleting drops is the one whose identifier `selected_id`
/// gives: `r` is what `selected_id` returned on `a`, and `b` what
/// `delete_selected` made of `a`.
pub proof fn lemma_delete_drops_selected_id(a: App, b: App, r: Option<String>)
    requires
        deleted_effect(a, b),
        match selected_position(a) {
            Some(p) => r matches Some(id) && id@ == a.notes@[p].id@,
            None => r is None,
        },
    ensures
        r matches Some(id) ==> forall|k: int| 0 <= k < b.notes@.len() ==> (#[trigger] b.notes@[k]).id@ != id@,
        r is None ==> b.notes == a.notes,
{
    match selected_position(a) {
        Some(p) => {
            lemma_deleted_id_gone(a.notes@, a.notes@[p].id@);
        },
        None => {},
    }
}

/// In the list, Up and `k` do the same, and so do Down and `j`: Up moves the
/// selection one place back unless it is at the top, Down one place on unless
/// the last shown note is selected, and nothing else changes.
pub proof fn lemma_arrows_match_letters(
    a: App,
    up: App,
    k: App,
    down: App,
    j: App,
    x1: Action,
    x2: Action,
    x3: Action,
    x4: Action,
)
    requires
        a.input_mode == InputMode::Normal,
        key_effect(a, up, Key::Up, x1),
        key_effect(a, k, Key::Char('k'), x2),
        key_effect(a, down, Key::Down, x3),
        key_effect(a, j, Key::Char('j'), x4),
    ensures
        up == k,
        down == j,
        x1 == Action::Nothing && x2 == Action::Nothing && x3 == Action::Nothing && x4 == Action::Nothing,
        up.selected_idx == if a.selected_idx > 0 { a.selected_idx - 1 } else { a.selected_idx as int },
        down.selected_idx == if a.selected_idx + 1 < a.filtered_indices@.len() {
            a.selected_idx + 1
        } else {
            a.selected_idx as int
        },
        up == (App { selected_idx: up.selected_idx, ..a }),
        down == (App { selected_idx: down.selected_idx, ..a }),
{
    assert(a.filtered_indices@.len() == a.filtered_indices.len());
}

/// While searching, a typed character or a backspace changes the query and
/// the shown notes become the filter of the notes for the new query.
pub proof fn lemma_search_keys_refilter(a: App, b: App, key: Key, action: Action)
    requires
        a.input_mode == InputMode::Search,
        key == Key::Backspace || key is Char,
        key_effect(a, b, key, action),
    ensures
        action == Action::Nothing,
        b.input_mode == InputMode::Search,
        b.notes == a.notes,
        key == Key::Backspace && a.search_query@.len() > 0 ==> b.search_query@ == a.search_query@.drop_last(),
        key == Key::Backspace && a.search_query@.len() == 0 ==> b.search_query@.len() == 0,
        key matches Key::Char(c) ==> b.search_query@ == a.search_query@.push(c),
        is_filter_of(b.notes@, b.search_query@, b.filtered_indices@),
{
}

/// While searching, typing a character and taking it back with a backspace
/// shows the notes that were shown before, for the same query.
pub proof fn lemma_search_backspace_undoes_typing(a: App, b: App, c: App, ch: char, x1: Action, x2: Action)
    requires
        a.input_mode == InputMode::Search,
        is_filter_of(a.notes@, a.search_query@, a.filtered_indices@),
        key_effect(a, b, Key::Char(ch), x1),
        key_effect(b, c, Key::Backspace, x2),
    ensures
        c.input_mode == InputMode::Search,
        c.notes == a.notes,
        c.search_query@ == a.search_query@,
        c.filtered_indices@ == a.filtered_indices@,
{
    assert(a.search_query@.push(ch).drop_last() =~= a.search_query@);
    lemma_filter_unique(a.notes@, a.search_query@, a.filtered_indices@, c.filtered_indices@);
}

/// In the dialogs of a new note, a backspace removes the last character of
/// the text being typed (the title in the first dialog, the body in the
/// second) and changes nothing else.
pub proof fn lemma_backspace_removes_last_typed(a: App, b: App, action: Action)
    requires
        a.input_mode == InputMode::NewTitle || a.input_mode == InputMode::NewContent,
        key_effect(a, b, Key::Backspace, action),
    ensures
        action == Action::Nothing,
        a.input_mode == InputMode::NewTitle ==> b == (App { new_title: b.new_title, ..a }) && b.new_title@
            == if a.new_title@.len() > 0 { a.new_title@.drop_last() } else { a.new_title@ },
        a.input_mode == InputMode::NewContent ==> b == (App { new_content: b.new_content, ..a })
            && b.new_content@ == if a.new_content@.len() > 0 {
            a.new_content@.drop_last()
        } else {
            a.new_content@
        },
{
}

/// In the dialogs of a new note, typing a character and taking it back with
/// a backspace leaves the typed text as it was.
pub proof fn lemma_typed_backspace_undoes_char(a: App, b: App, c: App, ch: char, x1: Action, x2: Action)
    requires
        a.input_mode == InputMode::NewTitle || a.input_mode == InputMode::NewContent,
        key_effect(a, b, Key::Char(ch), x1),
        key_effect(b, c, Key::Backspace, x2),
    ensures
        c.input_mode == a.input_mode,
        c.new_title@ == a.new_title@,
        c.new_content@ == a.new_content@,
        c.notes == a.notes,
{
    assert(a.new_title@.push(ch).drop_last() =~= a.new_title@);
    assert(a.new_content@.push(ch).drop_last() =~= a.new_content@);
}

/// In the list: `q` and Esc only ask to quit; `/` starts a search with an
/// empty query that shows every note in list order; `n` opens the title
/// dialog with nothing typed; `y` and `e` ask to copy and to edit and change
/// nothing; `d` and `x` open the confirmation only over a selected note. No
/// key here changes the notes, and only `q` and Esc quit.
pub proof fn lemma_list_keys(a: App, b: App, key: Key, action: Action)
    requires
        a.input_mode == InputMode::Normal,
        key_effect(a, b, key, action),
    ensures
        b.notes == a.notes,
        b.should_quit != a.should_quit ==> key == Key::Char('q') || key == Key::Esc,
        key == Key::Char('q') || key == Key::Esc ==> action == Action::Nothing && b.should_quit
            && b == (App { should_quit: b.should_quit, ..a }),
        key == Key::Char('/') ==> {
            &&& action == Action::Nothing
            &&& b.input_mode == InputMode::Search
            &&& b.search_query@.len() == 0
            &&& b.filtered_indices@ == all_positions(a.notes@.len())
        },
        key == Key::Char('n') ==> {
            &&& action == Action::Nothing
            &&& b.input_mode == InputMode::NewTitle
            &&& b.new_title@.len() == 0
            &&& b.new_content@.len() == 0
            &&& b == (App {
                input_mode: b.input_mode,
                new_title: b.new_title,
                new_content: b.new_content,
                ..a
            })
        },
        key == Key::Char('y') ==> action == Action::CopySelected && b == a,
        key == Key::Char('e') ==> action == Action::EditSelected && b == a,
        key == Key::Char('d') || key == Key::Char('x') ==> {
            &&& action == Action::Nothing
            &&& b == (App { input_mode: b.input_mode, ..a })
            &&& (b.input_mode == InputMode::ConfirmDelete <==> a.selected_idx < a.filtered_indices@.len()
                && a.filtered_indices@[a.selected_idx as int] < a.notes@.len())
            &&& b.input_mode != InputMode::ConfirmDelete ==> b.input_mode == InputMode::Normal
        },
        action == Action::CopySelected <==> key == Key::Char('y'),
        action == Action::EditSelected <==> key == Key::Char('e'),
        action != Action::SaveNewNote && action != Action::DeleteSelected,
{
}

/// Leaving a search with Esc or Enter goes back to the list and keeps the
/// query, the shown notes and the selection.
pub proof fn lemma_leaving_search_keeps_results(a: App, b: App, key: Key, action: Action)
    requires
        a.input_mode == InputMode::Search,
        key == Key::Esc || key == Key::Enter,
        key_effect(a, b, key, action),
    ensures
        action == Action::Nothing,
        b.input_mode == InputMode::Normal,
        b.search_query == a.search_query,
        b.filtered_indices == a.filtered_indices,
        b.selected_idx == a.selected_idx,
        b.notes == a.notes,
{
}

/// In the dialogs of a new note: Enter on the title goes on to the body
/// keeping the title; Enter on the body asks to store the note and is the
/// only key that does; Esc cancels back to the list; a typed character is
/// appended to the text being typed. The notes never change here.
pub proof fn lemma_new_note_dialog_keys(a: App, b: App, key: Key, action: Action)
    requires
        a.input_mode == InputMode::NewTitle || a.input_mode == InputMode::NewContent,
        key_effect(a, b, key, action),
    ensures
        b.notes == a.notes,
        action == Action::SaveNewNote <==> a.input_mode == InputMode::NewContent && key == Key::Enter,
        action != Action::SaveNewNote ==> action == Action::Nothing,
        a.input_mode == InputMode::NewTitle && key == Key::Enter ==> b.input_mode
            == InputMode::NewContent && b.new_title == a.new_title && b.new_content == a.new_content,
        a.input_mode == InputMode::NewContent && key == Key::Enter ==> b == a,
        key == Key::Esc ==> b.input_mode == InputMode::Normal,
        key matches Key::Char(c) ==> {
            &&& b.input_mode == a.input_mode
            &&& a.input_mode == InputMode::NewTitle ==> b.new_title@ == a.new_title@.push(c)
                && b.new_content == a.new_content
            &&& a.input_mode == InputMode::NewContent ==> b.new_content@ == a.new_content@.push(c)
                && b.new_title == a.new_title
        },
{
}

/// In the confirmation dialog, `y` and Enter ask to delete the selected note
/// and change nothing yet; any other key cancels back to the list.
pub proof fn lemma_confirm_keys(a: App, b: App, key: Key, action: Action)
    requires
        a.input_mode == InputMode::ConfirmDelete,
        key_effect(a, b, key, action),
    ensures
        key == Key::Char('y') || key == Key::Enter ==> action == Action::DeleteSelected && b == a,
        !(key == Key::Char('y') || key == Key::Enter) ==> action == Action::Nothing && b.input_mode
            == InputMode::Normal && b.notes == a.notes && b.filtered_indices == a.filtered_indices,
{
}

/// Storing a new note puts it on top of the list, above the notes as they
/// were, goes back to the list with nothing typed, and says so; with no
/// search under way every note is shown and the new one is selected.
pub proof fn lemma_save_puts_note_on_top(a: App, b: App, note: Note)
    requires
        saved_effect(a, b, note),
    ensures
        b.notes@.len() == a.notes@.len() + 1,
        b.notes@[0] == note,
        forall|j: int| 0 <= j < a.notes@.len() ==> b.notes@[j + 1] == #[trigger] a.notes@[j],
        b.input_mode == InputMode::Normal,
        b.new_title@.len() == 0,
        b.new_content@.len() == 0,
        b.status_msg matches Some(m) && m@ == "✓ Nueva nota guardada"@,
        b.search_query@.len() == 0 ==> b.filtered_indices@ == all_positions(b.notes@.len())
            && b.filtered_indices@[0] == 0 && b.selected_idx == 0,
{
    assert forall|j: int| 0 <= j < a.notes@.len() implies b.notes@[j + 1] == #[trigger] a.notes@[j] by {
        assert((seq![note] + a.notes@)[j + 1] == a.notes@[j]);
    }
}

/// Taking back an edit changes the first note with the identifier and no
/// other: its title and body are read from the edited text, its change time
/// is `now`, and its identifier, creation time and tags stay; when no note has
/// the identifier nothing changes. Saving the editor's text unchanged keeps
/// the note's title and body.
pub proof fn lemma_edit_changes_first_with_id(
    a: App,
    b: App,
    id: Seq<char>,
    text: Seq<char>,
    now: Timestamp,
    r: Option<usize>,
)
    requires
        edited_effect(a, b, id, text, now, r),
    ensures
        r is None <==> forall|j: int| 0 <= j < a.notes@.len() ==> (#[trigger] a.notes@[j]).id@ != id,
        r is None ==> b == a,
        r matches Some(k) ==> {
            &&& k < a.notes@.len()
            &&& a.notes@[k as int].id@ == id
            &&& forall|j: int| 0 <= j < k ==> (#[trigger] a.notes@[j]).id@ != id
            &&& b.notes@.len() == a.notes@.len()
            &&& forall|j: int| 0 <= j < a.notes@.len() && j != k ==> #[trigger] b.notes@[j] == a.notes@[j]
            &&& b.notes@[k as int].id == a.notes@[k as int].id
            &&& b.notes@[k as int].created_at == a.notes@[k as int].created_at
            &&& b.notes@[k as int].tags == a.notes@[k as int].tags
            &&& b.notes@[k as int].updated_at == now
            &&& b.filtered_indices == a.filtered_indices
            &&& b.selected_idx == a.selected_idx
        },
        r matches Some(k) ==> ({
            let n = a.notes@[k as int];
            text == crate::note::editor_seq(n.title@, n.content@) && n.title@.len() > 0
                && crate::text::is_trimmed(n.title@) && !n.title@.contains('\n')
                && crate::text::is_trimmed(n.content@) && crate::text::has_no_crlf(n.content@)
                ==> b.notes@[k as int].title@ == n.title@ && b.notes@[k as int].content@ == n.content@
        }),
{
    match r {
        Some(k) => {
            let n = a.notes@[k as int];
            if text == crate::note::editor_seq(n.title@, n.content@) && n.title@.len() > 0
                && crate::text::is_trimmed(n.title@) && !n.title@.contains('\n')
                && crate::text::is_trimmed(n.content@) && crate::text::has_no_crlf(n.content@) {
                crate::note::lemma_editor_round_trip(n.title@, n.content@);
            }
        },
        None => {},
    }
}

/// Reporting a clipboard outcome never changes the notes, the shown notes or
/// the selection; over a selected note it reports the outcome, and with none
/// selected it does nothing.
pub proof fn lemma_copy_only_reports(a: App, b: App, outcome: CopyOutcome)
    requires
        copied_effect(a, b, outcome),
    ensures
        b.notes == a.notes,
        b.filtered_indices == a.filtered_indices,
        b.selected_idx == a.selected_idx,
        b.input_mode == a.input_mode,
        selected_position(a) is None ==> b == a,
        selected_position(a) is Some && outcome is Copied ==> (b.status_msg matches Some(m) && m@
            == "✓ Nota copiada al portapapeles"@),
{
}

/// One change of the screen's state by one of its operations: a key press,
/// recomputing the shown notes, adding a stored note, deleting the selected
/// note, reporting a copy, taking back an edit, or reporting a stored edit.
pub open spec fn screen_step(a: App, b: App) -> bool {
    ||| exists|key: Key, action: Action| #[trigger] key_effect(a, b, key, action)
    ||| filter_effect(a, b)
    ||| exists|note: Note| #[trigger] saved_effect(a, b, note)
    ||| deleted_effect(a, b)
    ||| exists|outcome: CopyOutcome| #[trigger] copied_effect(a, b, outcome)
    ||| exists|id: Seq<char>, text: Seq<char>, now: Timestamp, r: Option<usize>|
        #[trigger] edited_effect(a, b, id, text, now, r)
    ||| updated_effect(a, b)
}

/// Every operation keeps a consistent screen consistent.
pub proof fn lemma_step_keeps_consistency(a: App, b: App)
    requires
        screen_step(a, b),
        is_consistent(a),
        b.notes@.len() <= usize::MAX,
        a.notes@.len() <= usize::MAX,
    ensures
        is_consistent(b),
{
    if exists|key: Key, action: Action| #[trigger] key_effect(a, b, key, action) {
        let (key, action) = choose|key: Key, action: Action| #[trigger] key_effect(a, b, key, action);
        lemma_keys_keep_consistency(a, b, key, action);
    } else if filter_effect(a, b) {
        lemma_refilter_consistent(a, b, a.input_mode, a.search_query@);
    } else if exists|note: Note| #[trigger] saved_effect(a, b, note) {
        lemma_first_selected_consistent(b);
    } else if deleted_effect(a, b) {
        match selected_position(a) {
            Some(p) => {
                lemma_refilter_consistent(
                    App { notes: b.notes, status_msg: b.status_msg, ..a },
                    b,
                    InputMode::Normal,
                    a.search_query@,
                );
            },
            None => {},
        }
    } else if exists|id: Seq<char>, text: Seq<char>, now: Timestamp, r: Option<usize>|
        #[trigger] edited_effect(a, b, id, text, now, r) {
    }
}

/// Every state of a run of the screen is consistent: a run starts from the
/// consistent state that `App::new` builds and goes on by the screen's
/// operations, so every shown position is a note, none is shown twice, and a
/// note is selected whenever any is shown.
pub proof fn lemma_run_stays_consistent(run: Seq<App>)
    requires
        run.len() > 0,
        is_consistent(run[0]),
        forall|i: int| 0 <= i < run.len() ==> (#[trigger] run[i]).notes@.len() <= usize::MAX,
        forall|i: int| 0 <= i < run.len() - 1 ==> screen_step(#[trigger] run[i], run[i + 1]),
    ensures
        forall|i: int| 0 <= i < run.len() ==> is_consistent(#[trigger] run[i]),
    decreases run.len(),
{
    if run.len() > 1 {
        let prefix = run.drop_last();
        assert forall|i: int| 0 <= i < prefix.len() - 1 implies screen_step(#[trigger] prefix[i], prefix[i + 1]) by {
            assert(screen_step(run[i], run[i + 1]));
        }
        assert forall|i: int| 0 <= i < prefix.len() implies (#[trigger] prefix[i]).notes@.len() <= usize::MAX by {
            assert(run[i].notes@.len() <= usize::MAX);
        }
        lemma_run_stays_consistent(prefix);
        let n = run.len() - 1;
        assert(is_consistent(prefix[n - 1]));
        assert(screen_step(run[n - 1], run[n]));
        lemma_step_keeps_consistency(run[n - 1], run[n]);
        assert forall|i: int| 0 <= i < run.len() implies is_consistent(#[trigger] run[i]) by {
            if i < n {
                assert(is_consistent(prefix[i]));
            }
        }
    }
}

} // verus!
